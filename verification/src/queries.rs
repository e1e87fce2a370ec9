//! The SQL shapes of the message queries, one per known schema generation.
//!
//! The recent schema joins the recoverable-messages table and counts
//! replies; the intermediate schema still counts replies; the legacy schema
//! predates reply threading. Callers prepare the shapes newest first and use
//! the first that the database accepts.
use vstd::prelude::*;

use vstd::string::{StrSliceExecFns, StringExecFns};

use crate::message::Message;
use crate::querycontext::QueryContext;
use crate::text::{push_str_chars, push_chars, i64_dec_chars, spec_i64_dec, string_from_chars};

verus! {

broadcast use vstd::string::group_string_axioms;

/// The head of the query for the macOS Ventura / iOS 16 and newer schema.
pub const QUERY_HEAD_RECENT: &'static str = "\nSELECT\n    rowid, guid, text, service, handle_id, destination_caller_id, subject, date, date_read, date_delivered, is_from_me, is_read, item_type, other_handle, share_status, share_direction, group_title, group_action_type, associated_message_guid, associated_message_type, balloon_bundle_id, expressive_send_style_id, thread_originator_guid, thread_originator_part, date_edited, associated_message_emoji,\n    c.chat_id,\n    (SELECT COUNT(*) FROM message_attachment_join a WHERE m.ROWID = a.message_id) as num_attachments,\n    d.chat_id as deleted_from,\n    (SELECT COUNT(*) FROM message m2 WHERE m2.thread_originator_guid = m.guid) as num_replies\nFROM\n    message as m\nLEFT JOIN chat_message_join as c ON m.ROWID = c.message_id\nLEFT JOIN chat_recoverable_message_join as d ON m.ROWID = d.message_id\n";

/// The head of the query for the macOS Big Sur to Monterey, iOS 14 to 15
/// schema.
pub const QUERY_HEAD_INTERMEDIATE: &'static str = "\nSELECT\n    *,\n    c.chat_id,\n    (SELECT COUNT(*) FROM message_attachment_join a WHERE m.ROWID = a.message_id) as num_attachments,\n    NULL as deleted_from,\n    (SELECT COUNT(*) FROM message m2 WHERE m2.thread_originator_guid = m.guid) as num_replies\nFROM\n    message as m\nLEFT JOIN chat_message_join as c ON m.ROWID = c.message_id\n";

/// The head of the query for the macOS Catalina, iOS 13 and older schema.
pub const QUERY_HEAD_LEGACY: &'static str = "\nSELECT\n    *,\n    c.chat_id,\n    (SELECT COUNT(*) FROM message_attachment_join a WHERE m.ROWID = a.message_id) as num_attachments,\n    NULL as deleted_from,\n    0 as num_replies\nFROM\n    message as m\nLEFT JOIN chat_message_join as c ON m.ROWID = c.message_id\n";

/// The ordering clause shared by all three shapes.
pub const QUERY_ORDER_BY: &'static str = "\nORDER BY\n    m.date DESC\n";

/// A full query: its head, the filters, the ordering, the limit, and the
/// closing semicolon.
pub open spec fn spec_query(
    head: Seq<char>,
    filters: Option<&str>,
    limit: Option<&str>,
) -> Seq<char> {
    head + (match filters {
        Some(f) => f@,
        None => Seq::empty(),
    }) + "\nORDER BY\n    m.date DESC\n"@ + (match limit {
        Some(l) => l@,
        None => Seq::empty(),
    }) + ";"@
}

fn build_query(head: &str, filters: Option<&str>, limit: Option<&str>) -> (r: String)
    ensures
        r@ == spec_query(head@, filters, limit),
{
    let mut out: Vec<char> = Vec::new();
    push_str_chars(&mut out, head);
    if let Some(f) = filters {
        push_str_chars(&mut out, f);
    }
    push_str_chars(&mut out, "\nORDER BY\n    m.date DESC\n");
    if let Some(l) = limit {
        push_str_chars(&mut out, l);
    }
    push_str_chars(&mut out, ";");
    assert(out@ =~= spec_query(head@, filters, limit));
    string_from_chars(out.as_slice())
}

/// The query for the newest schema, with optional filter and limit clauses.
pub fn ios_16_newer_query(filters: Option<&str>, limit: Option<&str>) -> (r: String)
    ensures
        r@ == spec_query(QUERY_HEAD_RECENT@, filters, limit),
{
    build_query(QUERY_HEAD_RECENT, filters, limit)
}

/// The query for the intermediate schema, with optional filter and limit
/// clauses.
pub fn ios_14_15_query(filters: Option<&str>, limit: Option<&str>) -> (r: String)
    ensures
        r@ == spec_query(QUERY_HEAD_INTERMEDIATE@, filters, limit),
{
    build_query(QUERY_HEAD_INTERMEDIATE, filters, limit)
}

/// The query for the legacy schema, with optional filter and limit clauses.
pub fn ios_13_older_query(filters: Option<&str>, limit: Option<&str>) -> (r: String)
    ensures
        r@ == spec_query(QUERY_HEAD_LEGACY@, filters, limit),
{
    build_query(QUERY_HEAD_LEGACY, filters, limit)
}

/// Identifiers joined with a comma and a space.
pub open spec fn spec_ids_join(ids: Seq<i32>) -> Seq<char>
    decreases ids.len(),
{
    if ids.len() == 0 {
        Seq::empty()
    } else if ids.len() == 1 {
        spec_i64_dec(ids[0] as int)
    } else {
        spec_i64_dec(ids[0] as int) + ", "@ + spec_ids_join(ids.drop_first())
    }
}

fn ids_join(ids: &Vec<i32>) -> (r: Vec<char>)
    ensures
        r@ == spec_ids_join(ids@),
{
    let mut out: Vec<char> = Vec::new();
    let mut i: usize = 0;
    proof {
        assert(ids@.skip(0) =~= ids@);
    }
    while i < ids.len()
        invariant
            i <= ids@.len(),
            out@ + spec_ids_join(ids@.skip(i as int)) == spec_ids_join(ids@),
        decreases ids@.len() - i,
    {
        proof {
            assert(ids@.skip(i as int)[0] == ids@[i as int]);
            assert(ids@.skip(i as int).drop_first() =~= ids@.skip(i + 1));
        }
        let digits = i64_dec_chars(ids[i] as i64);
        push_chars(&mut out, digits.as_slice());
        if i + 1 < ids.len() {
            push_str_chars(&mut out, ", ");
        }
        i = i + 1;
        assert(out@ + spec_ids_join(ids@.skip(i as int)) =~= spec_ids_join(ids@));
    }
    proof {
        assert(ids@.skip(ids@.len() as int) =~= Seq::<i32>::empty());
        assert(out@ =~= spec_ids_join(ids@));
    }
    out
}

/// The `WHERE` fragment a filter context asks for. With the recoverable
/// table joined, deleted messages whose chat is selected stay visible.
pub open spec fn spec_filter_statement(
    ids: Option<Vec<i32>>,
    include_recoverable: bool,
) -> Seq<char> {
    match ids {
        Some(ids) => {
            if include_recoverable {
                "WHERE (c.chat_id IN ("@ + spec_ids_join(ids@) + ") OR d.chat_id IN ("@
                    + spec_ids_join(ids@) + "))"@
            } else {
                "WHERE c.chat_id IN ("@ + spec_ids_join(ids@) + ")"@
            }
        },
        None => Seq::empty(),
    }
}

/// The `LIMIT` fragment a filter context asks for.
pub open spec fn spec_limit_statement(limit: Option<i32>) -> Seq<char> {
    match limit {
        Some(l) => "LIMIT "@ + spec_i64_dec(l as int),
        None => Seq::empty(),
    }
}

impl Message {
    /// Generate the SQL `WHERE` clause described by a query context.
    pub fn generate_filter_statement(context: &QueryContext, include_recoverable: bool) -> (r:
        String)
        ensures
            r@ == spec_filter_statement(context.selected_chat_ids, include_recoverable),
    {
        let mut out: Vec<char> = Vec::new();
        if let Some(chat_ids) = &context.selected_chat_ids {
            let ids = ids_join(chat_ids);
            if include_recoverable {
                push_str_chars(&mut out, "WHERE (c.chat_id IN (");
                push_chars(&mut out, ids.as_slice());
                push_str_chars(&mut out, ") OR d.chat_id IN (");
                push_chars(&mut out, ids.as_slice());
                push_str_chars(&mut out, "))");
            } else {
                push_str_chars(&mut out, "WHERE c.chat_id IN (");
                push_chars(&mut out, ids.as_slice());
                push_str_chars(&mut out, ")");
            }
        }
        assert(out@ =~= spec_filter_statement(context.selected_chat_ids, include_recoverable));
        string_from_chars(out.as_slice())
    }

    /// Generate the SQL `LIMIT` clause described by a query context.
    pub fn generate_limit_statement(context: &QueryContext) -> (r: String)
        ensures
            r@ == spec_limit_statement(context.limit),
    {
        let mut out: Vec<char> = Vec::new();
        if let Some(limit) = context.limit {
            push_str_chars(&mut out, "LIMIT ");
            let digits = i64_dec_chars(limit as i64);
            push_chars(&mut out, digits.as_slice());
        }
        assert(out@ =~= spec_limit_statement(context.limit));
        string_from_chars(out.as_slice())
    }
}

} // verus!
