//! The row decoder: from the raw column values of one `message` row to a
//! [`Message`], with the round trip against the three schema shapes.
use vstd::prelude::*;

use crate::message::Message;

verus! {

/// One raw column value, as the database hands it over.
#[derive(Debug, PartialEq)]
pub enum SqlValue {
    /// The column is absent from the schema.
    Absent,
    /// A SQL NULL.
    Null,
    /// An integer.
    Integer(i64),
    /// A text value.
    Text(String),
    /// A blob.
    Blob(Vec<u8>),
}

/// The raw columns of one `message` row, in the shape every schema variant
/// provides them: a column a variant lacks is [`SqlValue::Absent`].
#[derive(Debug)]
pub struct RawMessageRow {
    pub rowid: SqlValue,
    pub guid: SqlValue,
    pub text: SqlValue,
    pub service: SqlValue,
    pub handle_id: SqlValue,
    pub destination_caller_id: SqlValue,
    pub subject: SqlValue,
    pub date: SqlValue,
    pub date_read: SqlValue,
    pub date_delivered: SqlValue,
    pub is_from_me: SqlValue,
    pub is_read: SqlValue,
    pub item_type: SqlValue,
    pub other_handle: SqlValue,
    pub share_status: SqlValue,
    pub share_direction: SqlValue,
    pub group_title: SqlValue,
    pub group_action_type: SqlValue,
    pub associated_message_guid: SqlValue,
    pub associated_message_type: SqlValue,
    pub balloon_bundle_id: SqlValue,
    pub expressive_send_style_id: SqlValue,
    pub thread_originator_guid: SqlValue,
    pub thread_originator_part: SqlValue,
    pub date_edited: SqlValue,
    pub associated_message_emoji: SqlValue,
    pub chat_id: SqlValue,
    pub num_attachments: SqlValue,
    pub deleted_from: SqlValue,
    pub num_replies: SqlValue,
}

/// The column a decode failure names.
#[derive(Debug, PartialEq)]
pub struct RowDecodeError {
    /// The required column that is missing or of the wrong type.
    pub column: String,
}

/// Does a raw value decode as a required 32-bit integer?
pub open spec fn spec_req_i32_ok(v: SqlValue) -> bool {
    v matches SqlValue::Integer(x) && i32::MIN <= x <= i32::MAX
}

/// Does a raw value decode as a required 64-bit integer?
pub open spec fn spec_req_i64_ok(v: SqlValue) -> bool {
    v is Integer
}

/// Does a raw value decode as a required boolean?
pub open spec fn spec_req_bool_ok(v: SqlValue) -> bool {
    v is Integer
}

/// Does a raw value decode as a required text?
pub open spec fn spec_req_text_ok(v: SqlValue) -> bool {
    v is Text
}

/// Can the row decode at all: every required column is present with the
/// right type.
pub open spec fn spec_row_decodable(raw: RawMessageRow) -> bool {
    &&& spec_req_i32_ok(raw.rowid)
    &&& spec_req_text_ok(raw.guid)
    &&& spec_req_i64_ok(raw.date)
    &&& spec_req_bool_ok(raw.is_from_me)
    &&& spec_req_i32_ok(raw.num_attachments)
    &&& spec_req_i32_ok(raw.num_replies)
}

/// The optional text a raw value decodes to, compared at the view level.
pub open spec fn spec_opt_text_matches(v: SqlValue, out: Option<String>) -> bool {
    match v {
        SqlValue::Text(s) => out matches Some(t) && t@ == s@,
        _ => out is None,
    }
}

/// The optional 32-bit integer a raw value decodes to.
pub open spec fn spec_opt_i32_matches(v: SqlValue, out: Option<i32>) -> bool {
    match v {
        SqlValue::Integer(x) => {
            if i32::MIN <= x <= i32::MAX {
                out == Some(x as i32)
            } else {
                out is None
            }
        },
        _ => out is None,
    }
}

/// The optional boolean a raw value decodes to: any nonzero integer is
/// true.
pub open spec fn spec_opt_bool_matches(v: SqlValue, out: Option<bool>) -> bool {
    match v {
        SqlValue::Integer(x) => out == Some(x != 0),
        _ => out is None,
    }
}

/// The 64-bit integer a raw value decodes to, zero when absent.
pub open spec fn spec_i64_or_zero(v: SqlValue) -> int {
    match v {
        SqlValue::Integer(x) => x as int,
        _ => 0,
    }
}

/// The 32-bit integer a raw value decodes to, zero when absent.
pub open spec fn spec_i32_or_zero(v: SqlValue) -> int {
    match v {
        SqlValue::Integer(x) => {
            if i32::MIN <= x <= i32::MAX {
                x as int
            } else {
                0
            }
        },
        _ => 0,
    }
}

/// The boolean a raw value decodes to, false when absent.
pub open spec fn spec_bool_or_false(v: SqlValue) -> bool {
    match v {
        SqlValue::Integer(x) => x != 0,
        _ => false,
    }
}

/// The exact relation between a raw row and the message it decodes to.
/// Text fields are compared at the view level.
pub open spec fn spec_row_decodes_to(raw: RawMessageRow, m: Message) -> bool {
    &&& raw.rowid == SqlValue::Integer(m.rowid as i64)
    &&& (raw.guid matches SqlValue::Text(g) && m.guid@ == g@)
    &&& spec_opt_text_matches(raw.text, m.text)
    &&& spec_opt_text_matches(raw.service, m.service)
    &&& spec_opt_i32_matches(raw.handle_id, m.handle_id)
    &&& spec_opt_text_matches(raw.destination_caller_id, m.destination_caller_id)
    &&& spec_opt_text_matches(raw.subject, m.subject)
    &&& (raw.date == SqlValue::Integer(m.date))
    &&& m.date_read as int == spec_i64_or_zero(raw.date_read)
    &&& m.date_delivered as int == spec_i64_or_zero(raw.date_delivered)
    &&& (raw.is_from_me matches SqlValue::Integer(x) && m.is_from_me == (x != 0))
    &&& m.is_read == spec_bool_or_false(raw.is_read)
    &&& m.item_type as int == spec_i32_or_zero(raw.item_type)
    &&& spec_opt_i32_matches(raw.other_handle, m.other_handle)
    &&& m.share_status == spec_bool_or_false(raw.share_status)
    &&& spec_opt_bool_matches(raw.share_direction, m.share_direction)
    &&& spec_opt_text_matches(raw.group_title, m.group_title)
    &&& m.group_action_type as int == spec_i32_or_zero(raw.group_action_type)
    &&& spec_opt_text_matches(raw.associated_message_guid, m.associated_message_guid)
    &&& spec_opt_i32_matches(raw.associated_message_type, m.associated_message_type)
    &&& spec_opt_text_matches(raw.balloon_bundle_id, m.balloon_bundle_id)
    &&& spec_opt_text_matches(raw.expressive_send_style_id, m.expressive_send_style_id)
    &&& spec_opt_text_matches(raw.thread_originator_guid, m.thread_originator_guid)
    &&& spec_opt_text_matches(raw.thread_originator_part, m.thread_originator_part)
    &&& m.date_edited as int == spec_i64_or_zero(raw.date_edited)
    &&& spec_opt_text_matches(raw.associated_message_emoji, m.associated_message_emoji)
    &&& spec_opt_i32_matches(raw.chat_id, m.chat_id)
    &&& (raw.num_attachments matches SqlValue::Integer(x) && m.num_attachments as int == x as int)
    &&& spec_opt_i32_matches(raw.deleted_from, m.deleted_from)
    &&& (raw.num_replies matches SqlValue::Integer(x) && m.num_replies as int == x as int)
    &&& m.components is None
    &&& m.edited_parts is None
}

fn req_i32(v: &SqlValue, name: &str) -> (r: Result<i32, RowDecodeError>)
    ensures
        match r {
            Ok(x) => spec_req_i32_ok(*v) && *v == SqlValue::Integer(x as i64),
            Err(_) => !spec_req_i32_ok(*v),
        },
{
    match v {
        SqlValue::Integer(x) => {
            if i32::MIN as i64 <= *x && *x <= i32::MAX as i64 {
                Ok(*x as i32)
            } else {
                Err(RowDecodeError { column: crate::text::string_from_chars(crate::text::chars_of(name).as_slice()) })
            }
        },
        _ => Err(RowDecodeError { column: crate::text::string_from_chars(crate::text::chars_of(name).as_slice()) }),
    }
}

fn req_text(v: &SqlValue, name: &str) -> (r: Result<String, RowDecodeError>)
    ensures
        match r {
            Ok(s) => *v matches SqlValue::Text(t) && s@ == t@,
            Err(_) => !spec_req_text_ok(*v),
        },
{
    match v {
        SqlValue::Text(s) => Ok(s.clone()),
        _ => Err(RowDecodeError { column: crate::text::string_from_chars(crate::text::chars_of(name).as_slice()) }),
    }
}

fn opt_text(v: &SqlValue) -> (r: Option<String>)
    ensures
        spec_opt_text_matches(*v, r),
{
    match v {
        SqlValue::Text(s) => Some(s.clone()),
        _ => None,
    }
}

fn opt_i32(v: &SqlValue) -> (r: Option<i32>)
    ensures
        spec_opt_i32_matches(*v, r),
{
    match v {
        SqlValue::Integer(x) => {
            if i32::MIN as i64 <= *x && *x <= i32::MAX as i64 {
                Some(*x as i32)
            } else {
                None
            }
        },
        _ => None,
    }
}

fn opt_bool(v: &SqlValue) -> (r: Option<bool>)
    ensures
        spec_opt_bool_matches(*v, r),
{
    match v {
        SqlValue::Integer(x) => Some(*x != 0),
        _ => None,
    }
}

fn i64_or_zero(v: &SqlValue) -> (r: i64)
    ensures
        r as int == spec_i64_or_zero(*v),
{
    match v {
        SqlValue::Integer(x) => *x,
        _ => 0,
    }
}

fn i32_or_zero(v: &SqlValue) -> (r: i32)
    ensures
        r as int == spec_i32_or_zero(*v),
{
    match v {
        SqlValue::Integer(x) => {
            if i32::MIN as i64 <= *x && *x <= i32::MAX as i64 {
                *x as i32
            } else {
                0
            }
        },
        _ => 0,
    }
}

fn bool_or_false(v: &SqlValue) -> (r: bool)
    ensures
        r == spec_bool_or_false(*v),
{
    match v {
        SqlValue::Integer(x) => *x != 0,
        _ => false,
    }
}

impl Message {
    /// Decode one raw row into a message. Decoding succeeds exactly when
    /// the required columns carry the required types; every other column
    /// falls back to its default. The body fields stay unpopulated.
    pub fn from_row(raw: &RawMessageRow) -> (r: Result<Message, RowDecodeError>)
        ensures
            r is Ok <==> spec_row_decodable(*raw),
            match r {
                Ok(m) => spec_row_decodes_to(*raw, m),
                Err(_) => true,
            },
    {
        let rowid = req_i32(&raw.rowid, "rowid")?;
        let guid = req_text(&raw.guid, "guid")?;
        let date = match &raw.date {
            SqlValue::Integer(x) => *x,
            _ => {
                return Err(
                    RowDecodeError {
                        column: crate::text::string_from_chars(
                            crate::text::chars_of("date").as_slice(),
                        ),
                    },
                );
            },
        };
        let is_from_me = match &raw.is_from_me {
            SqlValue::Integer(x) => *x != 0,
            _ => {
                return Err(
                    RowDecodeError {
                        column: crate::text::string_from_chars(
                            crate::text::chars_of("is_from_me").as_slice(),
                        ),
                    },
                );
            },
        };
        let num_attachments = req_i32(&raw.num_attachments, "num_attachments")?;
        let num_replies = req_i32(&raw.num_replies, "num_replies")?;
        Ok(
            Message {
                rowid,
                guid,
                text: opt_text(&raw.text),
                service: opt_text(&raw.service),
                handle_id: opt_i32(&raw.handle_id),
                destination_caller_id: opt_text(&raw.destination_caller_id),
                subject: opt_text(&raw.subject),
                date,
                date_read: i64_or_zero(&raw.date_read),
                date_delivered: i64_or_zero(&raw.date_delivered),
                is_from_me,
                is_read: bool_or_false(&raw.is_read),
                item_type: i32_or_zero(&raw.item_type),
                other_handle: opt_i32(&raw.other_handle),
                share_status: bool_or_false(&raw.share_status),
                share_direction: opt_bool(&raw.share_direction),
                group_title: opt_text(&raw.group_title),
                group_action_type: i32_or_zero(&raw.group_action_type),
                associated_message_guid: opt_text(&raw.associated_message_guid),
                associated_message_type: opt_i32(&raw.associated_message_type),
                balloon_bundle_id: opt_text(&raw.balloon_bundle_id),
                expressive_send_style_id: opt_text(&raw.expressive_send_style_id),
                thread_originator_guid: opt_text(&raw.thread_originator_guid),
                thread_originator_part: opt_text(&raw.thread_originator_part),
                date_edited: i64_or_zero(&raw.date_edited),
                associated_message_emoji: opt_text(&raw.associated_message_emoji),
                chat_id: opt_i32(&raw.chat_id),
                num_attachments,
                deleted_from: opt_i32(&raw.deleted_from),
                num_replies,
                components: None,
                edited_parts: None,
            },
        )
    }
}

/// A text column for an optional string.
pub open spec fn spec_text_col(v: Option<String>) -> SqlValue {
    match v {
        Some(s) => SqlValue::Text(s),
        None => SqlValue::Null,
    }
}

/// An integer column for an optional 32-bit integer.
pub open spec fn spec_i32_col(v: Option<i32>) -> SqlValue {
    match v {
        Some(x) => SqlValue::Integer(x as i64),
        None => SqlValue::Null,
    }
}

/// An integer column for an optional boolean.
pub open spec fn spec_bool_col(v: Option<bool>) -> SqlValue {
    match v {
        Some(b) => SqlValue::Integer(
            if b {
                1
            } else {
                0
            },
        ),
        None => SqlValue::Null,
    }
}

/// The row the recent schema stores for a message: every column is
/// present.
pub open spec fn spec_encode_recent(m: Message) -> RawMessageRow {
    RawMessageRow {
        rowid: SqlValue::Integer(m.rowid as i64),
        guid: SqlValue::Text(m.guid),
        text: spec_text_col(m.text),
        service: spec_text_col(m.service),
        handle_id: spec_i32_col(m.handle_id),
        destination_caller_id: spec_text_col(m.destination_caller_id),
        subject: spec_text_col(m.subject),
        date: SqlValue::Integer(m.date),
        date_read: SqlValue::Integer(m.date_read),
        date_delivered: SqlValue::Integer(m.date_delivered),
        is_from_me: SqlValue::Integer(
            if m.is_from_me {
                1
            } else {
                0
            },
        ),
        is_read: SqlValue::Integer(
            if m.is_read {
                1
            } else {
                0
            },
        ),
        item_type: SqlValue::Integer(m.item_type as i64),
        other_handle: spec_i32_col(m.other_handle),
        share_status: SqlValue::Integer(
            if m.share_status {
                1
            } else {
                0
            },
        ),
        share_direction: spec_bool_col(m.share_direction),
        group_title: spec_text_col(m.group_title),
        group_action_type: SqlValue::Integer(m.group_action_type as i64),
        associated_message_guid: spec_text_col(m.associated_message_guid),
        associated_message_type: spec_i32_col(m.associated_message_type),
        balloon_bundle_id: spec_text_col(m.balloon_bundle_id),
        expressive_send_style_id: spec_text_col(m.expressive_send_style_id),
        thread_originator_guid: spec_text_col(m.thread_originator_guid),
        thread_originator_part: spec_text_col(m.thread_originator_part),
        date_edited: SqlValue::Integer(m.date_edited),
        associated_message_emoji: spec_text_col(m.associated_message_emoji),
        chat_id: spec_i32_col(m.chat_id),
        num_attachments: SqlValue::Integer(m.num_attachments as i64),
        deleted_from: spec_i32_col(m.deleted_from),
        num_replies: SqlValue::Integer(m.num_replies as i64),
    }
}

/// The row the intermediate schema stores: no recoverable join, so
/// `deleted_from` reads NULL.
pub open spec fn spec_encode_intermediate(m: Message) -> RawMessageRow {
    RawMessageRow { deleted_from: SqlValue::Null, ..spec_encode_recent(m) }
}

/// The row the legacy schema stores: no recoverable join, no reply
/// threading, so `deleted_from` reads NULL, the thread columns are absent,
/// and `num_replies` reads zero.
pub open spec fn spec_encode_legacy(m: Message) -> RawMessageRow {
    RawMessageRow {
        deleted_from: SqlValue::Null,
        thread_originator_guid: SqlValue::Absent,
        thread_originator_part: SqlValue::Absent,
        num_replies: SqlValue::Integer(0),
        ..spec_encode_recent(m)
    }
}

/// Writing a message's columns as the recent schema stores them and
/// decoding the row yields the message back, body fields aside.
pub proof fn lemma_row_round_trip_recent(m: Message)
    requires
        m.components is None,
        m.edited_parts is None,
    ensures
        spec_row_decodable(spec_encode_recent(m)),
        spec_row_decodes_to(spec_encode_recent(m), m),
{
}

/// The intermediate schema's round trip holds of every message that has
/// not been deleted into the recoverable table.
pub proof fn lemma_row_round_trip_intermediate(m: Message)
    requires
        m.components is None,
        m.edited_parts is None,
        m.deleted_from is None,
    ensures
        spec_row_decodable(spec_encode_intermediate(m)),
        spec_row_decodes_to(spec_encode_intermediate(m), m),
{
}

/// The legacy schema's round trip holds of every message that predates
/// recoverable deletes and reply threading.
pub proof fn lemma_row_round_trip_legacy(m: Message)
    requires
        m.components is None,
        m.edited_parts is None,
        m.deleted_from is None,
        m.thread_originator_guid is None,
        m.thread_originator_part is None,
        m.num_replies == 0,
    ensures
        spec_row_decodable(spec_encode_legacy(m)),
        spec_row_decodes_to(spec_encode_legacy(m), m),
{
}

} // verus!
