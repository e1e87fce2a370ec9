//! The snapshot differ: the state and decisions of the polling loop.
//!
//! Between polls the differ keeps the previously observed window, keyed by
//! row id, together with the staged attachment paths of each message. Each
//! cycle the caller re-reads the window, takes the prior entry of every row
//! it sees, and asks which transition happened: a message whose parts all
//! became unsent is a deletion; a tracked row that no longer appears is
//! untracked. The differ decides; reading the database, copying files and
//! writing the log stay with the caller.
use vstd::prelude::*;

use vstd::string::{StrSliceExecFns, StringSliceAdditionalSpecFns};

use crate::message::{Message, spec_msg_fully_unsent};
use crate::text::{
    chars_of, i64_dec_chars, push_chars, push_str_chars, spec_i64_dec, spec_starts_with,
    string_from_chars,
};

verus! {

broadcast use vstd::string::group_string_axioms;

/// A message the differ tracks, with the staging paths of its attachments.
pub struct TrackedMessage {
    /// The message as it was last observed.
    pub message: Message,
    /// Where its attachments were staged.
    pub staged_paths: Vec<String>,
}

/// The index of the first entry for a row id.
pub open spec fn spec_find_row(last: Seq<(i32, TrackedMessage)>, row_id: i32) -> Option<int>
    decreases last.len(),
{
    if last.len() == 0 {
        None
    } else if last[0].0 == row_id {
        Some(0)
    } else {
        match spec_find_row(last.drop_first(), row_id) {
            Some(i) => Some(i + 1),
            None => None,
        }
    }
}

/// The first matching index is what the row search names.
proof fn lemma_find_row_at(last: Seq<(i32, TrackedMessage)>, row_id: i32, i: int)
    requires
        0 <= i < last.len(),
        last[i].0 == row_id,
        forall|j: int| 0 <= j < i ==> (#[trigger] last[j]).0 != row_id,
    ensures
        spec_find_row(last, row_id) == Some(i),
    decreases i,
{
    if i > 0 {
        assert forall|j: int| 0 <= j < i - 1 implies (#[trigger] last.drop_first()[j]).0
            != row_id by {
            assert(last.drop_first()[j] == last[j + 1]);
        }
        lemma_find_row_at(last.drop_first(), row_id, i - 1);
    }
}

/// An exhausted search finds nothing.
proof fn lemma_find_row_none(last: Seq<(i32, TrackedMessage)>, row_id: i32)
    requires
        forall|j: int| 0 <= j < last.len() ==> (#[trigger] last[j]).0 != row_id,
    ensures
        spec_find_row(last, row_id) is None,
    decreases last.len(),
{
    if last.len() > 0 {
        assert forall|j: int| 0 <= j < last.drop_first().len() implies (
        #[trigger] last.drop_first()[j]).0 != row_id by {
            assert(last.drop_first()[j] == last[j + 1]);
        }
        lemma_find_row_none(last.drop_first(), row_id);
    }
}

/// The deletion test at the heart of the watcher: a tracked message whose
/// parts were not all unsent before, and all are now, has been deleted by
/// its sender.
pub fn is_deletion_event(last_message: &Message, new_message: &Message) -> (r: bool)
    ensures
        r == (spec_msg_fully_unsent(new_message) && !spec_msg_fully_unsent(last_message)),
{
    new_message.is_fully_unsent() && !last_message.is_fully_unsent()
}

/// The differ's whole state: the previously observed window.
pub struct Differ {
    /// The prior window, keyed by row id; row ids are unique.
    pub last: Vec<(i32, TrackedMessage)>,
}

impl Differ {
    /// A differ with nothing observed yet.
    pub fn new() -> (r: Self)
        ensures
            r.last@.len() == 0,
    {
        Differ { last: Vec::new() }
    }

    /// Take the tracked entry of one row out of the prior window, as the
    /// polling loop does for every row it still sees.
    pub fn remove_row(&mut self, row_id: i32) -> (r: Option<TrackedMessage>)
        ensures
            match r {
                Some(_) => {
                    &&& spec_find_row(old(self).last@, row_id) is Some
                    &&& final(self).last@ == old(self).last@.remove(
                        spec_find_row(old(self).last@, row_id)->Some_0,
                    )
                },
                None => {
                    &&& forall|i: int|
                        0 <= i < old(self).last@.len() ==> (#[trigger] old(self).last@[i]).0
                            != row_id
                    &&& final(self).last@ == old(self).last@
                },
            },
            match r {
                Some(entry) => exists|i: int|
                    0 <= i < old(self).last@.len() && (#[trigger] old(self).last@[i]).0 == row_id
                        && old(self).last@[i].1 == entry,
                None => true,
            },
    {
        let mut i: usize = 0;
        while i < self.last.len()
            invariant
                i <= self.last@.len(),
                self.last@ == old(self).last@,
                forall|j: int| 0 <= j < i ==> (#[trigger] self.last@[j]).0 != row_id,
            decreases self.last@.len() - i,
        {
            if self.last[i].0 == row_id {
                proof {
                    lemma_find_row_at(self.last@, row_id, i as int);
                }
                let (_, entry) = self.last.remove(i);
                return Some(entry);
            }
            i = i + 1;
        }
        proof {
            lemma_find_row_none(self.last@, row_id);
        }
        None
    }

    /// End the cycle: the freshly observed window replaces the prior one,
    /// and whatever entries were never taken out are the untracked
    /// messages, handed back for their staged files to be discarded.
    pub fn end_cycle(&mut self, next: Vec<(i32, TrackedMessage)>) -> (untracked: Vec<
        (i32, TrackedMessage),
    >)
        ensures
            final(self).last@ == next@,
            untracked@ == old(self).last@,
    {
        let mut next = next;
        core::mem::swap(&mut self.last, &mut next);
        next
    }
}

/// The fifty-character preview of a deleted message's text.
pub open spec fn spec_alert_preview(text: Option<Seq<char>>) -> Seq<char> {
    match text {
        Some(t) => if t.len() > 50 {
            t.take(50)
        } else {
            t
        },
        None => Seq::empty(),
    }
}

/// The middle of the alert line: the preview, a note when there is no
/// text, and an ellipsis when the preview's bytes reach fifty.
pub open spec fn spec_alert_middle(text: Option<Seq<char>>) -> Seq<char> {
    let preview = spec_alert_preview(text);
    if preview.len() == 0 {
        "[No text content]"@
    } else if vstd::utf8::encode_utf8(preview).len() >= 50 {
        preview + "..."@
    } else {
        preview
    }
}

/// The alert line a deletion prints: a quoted fifty-character preview of
/// the text — ellipsized when its bytes reach fifty — and the attachment
/// count.
pub fn deletion_alert_line(text: &Option<String>, num_attachments: i32) -> (r: String)
    ensures
        r@ == "\u{1F6A8} DELETED MESSAGE DETECTED! \""@ + spec_alert_middle(text.deep_view())
            + "\" with "@ + spec_i64_dec(num_attachments as int) + " attachment(s)"@,
{
    let preview_chars: Vec<char> = match text {
        Some(t) => {
            let cs = chars_of(t.as_str());
            if cs.len() > 50 {
                let (head, _) = cs.as_slice().split_at(50);
                let mut v: Vec<char> = Vec::new();
                push_chars(&mut v, head);
                assert(v@ =~= t@.take(50));
                v
            } else {
                cs
            }
        },
        Option::None => Vec::new(),
    };
    assert(preview_chars@ =~= spec_alert_preview(text.deep_view()));
    let preview = string_from_chars(preview_chars.as_slice());
    let preview_str = preview.as_str();
    let ghost middle = spec_alert_middle(text.deep_view());
    let mut out: Vec<char> = Vec::new();
    push_str_chars(&mut out, "\u{1F6A8} DELETED MESSAGE DETECTED! \"");
    let ghost head = out@;
    if preview_str.unicode_len() == 0 {
        push_str_chars(&mut out, "[No text content]");
        assert(out@ =~= head + middle);
    } else if preview_str.as_bytes().len() >= 50 {
        proof {
            assert(preview_str.spec_bytes() == vstd::utf8::encode_utf8(
                spec_alert_preview(text.deep_view()),
            ));
        }
        push_str_chars(&mut out, preview_str);
        push_str_chars(&mut out, "...");
        assert(out@ =~= head + middle);
    } else {
        proof {
            assert(preview_str.spec_bytes() == vstd::utf8::encode_utf8(
                spec_alert_preview(text.deep_view()),
            ));
        }
        push_str_chars(&mut out, preview_str);
        assert(out@ =~= head + middle);
    }
    push_str_chars(&mut out, "\" with ");
    let n = i64_dec_chars(num_attachments as i64);
    push_chars(&mut out, n.as_slice());
    push_str_chars(&mut out, " attachment(s)");
    assert(out@ =~= "\u{1F6A8} DELETED MESSAGE DETECTED! \""@ + spec_alert_middle(
        text.deep_view(),
    ) + "\" with "@ + spec_i64_dec(num_attachments as int) + " attachment(s)"@);
    string_from_chars(out.as_slice())
}

/// The header of one archived record.
pub fn record_header(sender: &str, time: &str) -> (r: String)
    ensures
        r@ == "<h2>==="@ + sender@ + ":"@ + time@ + "</h2>"@,
{
    let mut out: Vec<char> = Vec::new();
    push_str_chars(&mut out, "<h2>===");
    push_str_chars(&mut out, sender);
    push_str_chars(&mut out, ":");
    push_str_chars(&mut out, time);
    push_str_chars(&mut out, "</h2>");
    assert(out@ =~= "<h2>==="@ + sender@ + ":"@ + time@ + "</h2>"@);
    string_from_chars(out.as_slice())
}

/// The text line of one archived record; a missing text or a lone space
/// writes nothing.
pub fn record_text_line(text: &Option<String>) -> (r: Option<String>)
    ensures
        match text {
            Some(t) => {
                if t@ == " "@ {
                    r is None
                } else {
                    r matches Some(line) && line@ == "<p>Text: "@ + t@ + "</p><br>"@
                }
            },
            Option::None => r is None,
        },
{
    match text {
        Some(t) => {
            if crate::text::str_eq(t.as_str(), " ") {
                Option::None
            } else {
                let mut out: Vec<char> = Vec::new();
                push_str_chars(&mut out, "<p>Text: ");
                push_str_chars(&mut out, t.as_str());
                push_str_chars(&mut out, "</p><br>");
                assert(out@ =~= "<p>Text: "@ + t@ + "</p><br>"@);
                Some(string_from_chars(out.as_slice()))
            }
        },
        Option::None => Option::None,
    }
}

/// The heading of a record's attachment list.
pub fn record_attachments_header() -> (r: String)
    ensures
        r@ == "<p>Attachments:</p><br>"@,
{
    String::from_str("<p>Attachments:</p><br>")
}

/// The image line of one archived attachment.
pub fn record_image_line(path: &str) -> (r: String)
    ensures
        r@ == "<img src=\""@ + path@ + "\" style='width:300px'><br>"@,
{
    let mut out: Vec<char> = Vec::new();
    push_str_chars(&mut out, "<img src=\"");
    push_str_chars(&mut out, path);
    push_str_chars(&mut out, "\" style='width:300px'><br>");
    assert(out@ =~= "<img src=\""@ + path@ + "\" style='width:300px'><br>"@);
    string_from_chars(out.as_slice())
}

/// The line an untracked message prints.
pub fn untracked_line(msg_id: i32) -> (r: String)
    ensures
        r@ == "New message was sent with ID: "@ + spec_i64_dec(msg_id as int),
{
    let mut out: Vec<char> = Vec::new();
    push_str_chars(&mut out, "New message was sent with ID: ");
    let n = i64_dec_chars(msg_id as i64);
    push_chars(&mut out, n.as_slice());
    assert(out@ =~= "New message was sent with ID: "@ + spec_i64_dec(msg_id as int));
    string_from_chars(out.as_slice())
}

/// The first label stored for a participant id.
pub open spec fn spec_participant(participants: Seq<(i32, String)>, id: i32) -> Option<Seq<char>>
    decreases participants.len(),
{
    if participants.len() == 0 {
        None
    } else if participants[0].0 == id {
        Some(participants[0].1@)
    } else {
        spec_participant(participants.drop_first(), id)
    }
}

/// Who sent a message: the caller id or custom name for the database
/// owner, else the participant's label, else the unknown placeholder.
pub fn who<'a>(
    participants: &'a Vec<(i32, String)>,
    handle_id: Option<i32>,
    is_from_me: bool,
    destination_caller_id: &'a Option<String>,
    use_caller_id: bool,
    custom_name: &'a Option<String>,
) -> (r: &'a str)
    ensures
        r@ == spec_who(
            participants@,
            handle_id,
            is_from_me,
            destination_caller_id.deep_view(),
            use_caller_id,
            custom_name.deep_view(),
        ),
{
    if is_from_me {
        if use_caller_id {
            match destination_caller_id {
                Some(id) => id.as_str(),
                Option::None => "Me",
            }
        } else {
            match custom_name {
                Some(name) => name.as_str(),
                Option::None => "Me",
            }
        }
    } else if let Some(id) = handle_id {
        let mut i: usize = 0;
        proof {
            assert(participants@.skip(0) =~= participants@);
        }
        while i < participants.len()
            invariant
                !is_from_me,
                handle_id == Some(id),
                i <= participants@.len(),
                spec_participant(participants@, id) == spec_participant(
                    participants@.skip(i as int),
                    id,
                ),
            decreases participants@.len() - i,
        {
            proof {
                assert(participants@.skip(i as int)[0] == participants@[i as int]);
                assert(participants@.skip(i as int).drop_first() =~= participants@.skip(i + 1));
            }
            if participants[i].0 == id {
                assert(spec_participant(participants@.skip(i as int), id) == Some(
                    participants@[i as int].1@,
                ));
                return participants[i].1.as_str();
            }
            i = i + 1;
        }
        proof {
            assert(participants@.skip(participants@.len() as int) =~= Seq::<(i32, String)>::empty());
        }
        "Unknown"
    } else {
        "Unknown"
    }
}

/// The sender label `who` resolves.
pub open spec fn spec_who(
    participants: Seq<(i32, String)>,
    handle_id: Option<i32>,
    is_from_me: bool,
    destination_caller_id: Option<Seq<char>>,
    use_caller_id: bool,
    custom_name: Option<Seq<char>>,
) -> Seq<char> {
    if is_from_me {
        if use_caller_id {
            match destination_caller_id {
                Some(id) => id,
                None => "Me"@,
            }
        } else {
            match custom_name {
                Some(name) => name,
                None => "Me"@,
            }
        }
    } else {
        match handle_id {
            Some(id) => match spec_participant(participants, id) {
                Some(label) => label,
                None => "Unknown"@,
            },
            None => "Unknown"@,
        }
    }
}

/// The smallest free attachment number at or past `start`, given the
/// numbers already on disk. Some free number always exists among the first
/// `existing.len() + 1` candidates; the impossible exhaustion is reported
/// rather than assumed away.
pub fn find_min_attachment_number(existing: &Vec<i64>, start: i64) -> (r: Option<i64>)
    requires
        0 <= start,
        start + existing@.len() + 1 <= i64::MAX,
        existing@.len() < usize::MAX,
    ensures
        match r {
            Some(n) => start <= n && !existing@.contains(n) && forall|m: i64|
                start <= m < n ==> existing@.contains(m),
            None => forall|m: i64|
                start <= m <= start + existing@.len() ==> existing@.contains(m),
        },
{
    let mut k: usize = 0;
    while k <= existing.len()
        invariant
            start + existing@.len() + 1 <= i64::MAX,
            existing@.len() < usize::MAX,
            0 <= start,
            k <= existing@.len() + 1,
            forall|m: i64| start <= m < start + k ==> existing@.contains(m),
        decreases existing@.len() + 1 - k,
    {
        let candidate: i64 = start + (k as i64);
        let mut found = false;
        let mut j: usize = 0;
        while j < existing.len()
            invariant
                j <= existing@.len(),
                found <==> exists|t: int| 0 <= t < j && existing@[t] == candidate,
            decreases existing@.len() - j,
        {
            if existing[j] == candidate {
                found = true;
            }
            j = j + 1;
        }
        if !found {
            proof {
                if existing@.contains(candidate) {
                    let t = choose|t: int|
                        0 <= t < existing@.len() && existing@[t] == candidate;
                }
            }
            return Some(candidate);
        }
        proof {
            let t = choose|t: int| 0 <= t < existing@.len() && existing@[t] == candidate;
            assert(existing@.contains(candidate));
            assert(k < existing@.len() + 1);
            assert(existing@.len() + 1 <= i64::MAX);
        }
        k = k + 1;
    }
    None
}

/// The attachments directory of an export root.
pub fn attachment_path(export_path: &str) -> (r: String)
    ensures
        r@ == export_path@ + "/attachments"@,
{
    let mut out: Vec<char> = Vec::new();
    push_str_chars(&mut out, export_path);
    push_str_chars(&mut out, "/attachments");
    assert(out@ =~= export_path@ + "/attachments"@);
    string_from_chars(out.as_slice())
}

/// The staging directory for in-flight attachment copies.
pub fn tmp_attachment_path(export_path: &str) -> (r: String)
    ensures
        r@ == export_path@ + "/attachments"@ + "/tmp"@,
{
    let mut out: Vec<char> = Vec::new();
    push_str_chars(&mut out, export_path);
    push_str_chars(&mut out, "/attachments");
    push_str_chars(&mut out, "/tmp");
    assert(out@ =~= export_path@ + "/attachments"@ + "/tmp"@);
    string_from_chars(out.as_slice())
}

/// The per-conversation attachment directory: the deduplicated chat id, or
/// the orphan directory when the message has no chat.
pub fn conversation_attachment_path(real_chat_id: Option<i32>) -> (r: String)
    ensures
        match real_chat_id {
            Some(id) => r@ == spec_i64_dec(id as int),
            Option::None => r@ == "orphaned"@,
        },
{
    match real_chat_id {
        Some(id) => {
            let n = i64_dec_chars(id as i64);
            string_from_chars(n.as_slice())
        },
        Option::None => String::from_str("orphaned"),
    }
}

/// A path made relative to the export root: the root prefix and its
/// separator are dropped when they lead the path.
pub open spec fn spec_relative_path(path: Seq<char>, export_path: Seq<char>) -> Seq<char> {
    if path == export_path {
        Seq::empty()
    } else if spec_starts_with(path, export_path + "/"@) {
        path.skip(export_path.len() as int + 1)
    } else {
        path
    }
}

/// Strip the export root from a path.
pub fn relative_path(path: &str, export_path: &str) -> (r: String)
    ensures
        r@ == spec_relative_path(path@, export_path@),
{
    let cs = chars_of(path);
    let prefix_len = export_path.unicode_len();
    if crate::text::str_eq(path, export_path) {
        return String::new();
    }
    let mut with_sep: Vec<char> = Vec::new();
    push_str_chars(&mut with_sep, export_path);
    with_sep.push('/');
    proof {
        assert(with_sep@ =~= export_path@ + "/"@) by {
            reveal_strlit("/");
        }
    }
    if cs.len() >= with_sep.len() && starts_with_chars(cs.as_slice(), with_sep.as_slice()) {
        let (_, rest) = cs.as_slice().split_at(prefix_len + 1);
        assert(rest@ =~= path@.skip(export_path@.len() as int + 1));
        string_from_chars(rest)
    } else {
        string_from_chars(cs.as_slice())
    }
}

/// Prefix test between two character slices.
fn starts_with_chars(s: &[char], prefix: &[char]) -> (r: bool)
    ensures
        r <==> spec_starts_with(s@, prefix@),
{
    if s.len() < prefix.len() {
        assert(!spec_starts_with(s@, prefix@));
        return false;
    }
    let mut i: usize = 0;
    while i < prefix.len()
        invariant
            prefix@.len() <= s@.len(),
            i <= prefix@.len(),
            forall|j: int| 0 <= j < i ==> s@[j] == prefix@[j],
        decreases prefix@.len() - i,
    {
        if s[i] != prefix[i] {
            assert(s@.take(prefix@.len() as int)[i as int] != prefix@[i as int]);
            return false;
        }
        i = i + 1;
    }
    assert(s@.take(prefix@.len() as int) =~= prefix@);
    true
}


/// The participant list a chat filename joins: labels are added with a
/// comma and a space while they fit the budget; the first label that does
/// not fit ends the name with `, and N others`, squeezed into the budget
/// when even that tail overflows.
pub open spec fn spec_participants_filename(
    labels: Seq<Seq<char>>,
    k: int,
    out: Seq<char>,
    added: int,
) -> Seq<char>
    decreases labels.len() - k,
    when 0 <= k <= labels.len()
{
    if k >= labels.len() {
        out
    } else {
        let p = labels[k];
        if p.len() + out.len() < 235 {
            let joined = if out.len() == 0 {
                out + p
            } else {
                out + ", "@ + p
            };
            spec_participants_filename(labels, k + 1, joined, added + 1)
        } else {
            let extra = ", and "@ + crate::text::spec_dec_digits((labels.len() - added) as nat)
                + " others"@;
            if extra.len() + out.len() >= 235 {
                out.take(
                    if extra.len() <= 235 {
                        235 - extra.len()
                    } else {
                        0
                    },
                ) + extra
            } else if out.len() == 0 {
                p.take(235)
            } else {
                out + extra
            }
        }
    }
}

/// Join participant labels into a filename within the budget.
pub fn filename_from_participants(labels: &Vec<String>) -> (r: String)
    ensures
        r@ == spec_participants_filename(labels.deep_view(), 0, Seq::empty(), 0),
{
    let ghost target = spec_participants_filename(labels.deep_view(), 0, Seq::empty(), 0);
    let mut out: Vec<char> = Vec::new();
    let mut added: usize = 0;
    let mut k: usize = 0;
    while k < labels.len()
        invariant
            target == spec_participants_filename(labels.deep_view(), 0, Seq::empty(), 0),
            k <= labels@.len(),
            added <= k,
            out@.len() < 237,
            target == spec_participants_filename(
                labels.deep_view(),
                k as int,
                out@,
                added as int,
            ),
        decreases labels@.len() - k,
    {
        proof {
            assert(labels.deep_view()[k as int] == labels@[k as int].deep_view());
        }
        let participant = &labels[k];
        let pn = vstd::string::StrSliceExecFns::unicode_len(participant.as_str());
        if pn < 235 && pn + out.len() < 235 {
            let ghost pre = out@;
            if out.len() != 0 {
                push_str_chars(&mut out, ", ");
            }
            push_str_chars(&mut out, participant.as_str());
            added = added + 1;
            proof {
                if pre.len() == 0 {
                    assert(out@ =~= pre + labels.deep_view()[k as int]);
                } else {
                    assert(", "@.len() == 2) by {
                        reveal_strlit(", ");
                    }
                    assert(out@ =~= pre + ", "@ + labels.deep_view()[k as int]);
                }
                assert(out@.len() < 237);
                assert(target == spec_participants_filename(
                    labels.deep_view(),
                    k as int + 1,
                    out@,
                    added as int,
                ));
            }
        } else {
            let mut extra: Vec<char> = Vec::new();
            push_str_chars(&mut extra, ", and ");
            let count = crate::text::u128_dec_chars((labels.len() - added) as u128);
            push_chars(&mut extra, count.as_slice());
            push_str_chars(&mut extra, " others");
            let ghost sextra = ", and "@ + crate::text::spec_dec_digits(
                (labels.deep_view().len() - added) as nat,
            ) + " others"@;
            proof {
                assert(extra@ =~= sextra);
            }
            if out.len() >= 235 || extra.len() >= 235 - out.len() {
                let cut: usize = if extra.len() <= 235 {
                    235 - extra.len()
                } else {
                    0
                };
                proof {
                    assert(extra@.len() + out@.len() >= 235);
                }
                if cut <= out.len() {
                    let (head, _) = out.split_at(cut);
                    let mut squeezed: Vec<char> = Vec::new();
                    push_chars(&mut squeezed, head);
                    push_chars(&mut squeezed, extra.as_slice());
                    assert(squeezed@ =~= out@.take(cut as int) + extra@);
                    assert(squeezed@ =~= target);
                    return string_from_chars(squeezed.as_slice());
                } else {
                    // The kept prefix covers the whole name.
                    let mut squeezed: Vec<char> = Vec::new();
                    push_chars(&mut squeezed, out.as_slice());
                    push_chars(&mut squeezed, extra.as_slice());
                    assert(out@.take(cut as int) =~= out@);
                    assert(squeezed@ =~= out@.take(cut as int) + extra@);
                    assert(squeezed@ =~= target);
                    return string_from_chars(squeezed.as_slice());
                }
            } else if out.len() == 0 {
                proof {
                    assert(labels.deep_view()[k as int].len() >= 235);
                }
                let cs = chars_of(participant.as_str());
                let (head, _) = cs.as_slice().split_at(235);
                assert(head@ =~= labels.deep_view()[k as int].take(235));
                assert(head@ =~= target);
                return string_from_chars(head);
            } else {
                let ghost pre = out@;
                push_chars(&mut out, extra.as_slice());
                assert(out@ =~= pre + sextra);
                assert(out@ =~= target);
                return string_from_chars(out.as_slice());
            }
        }
        k = k + 1;
    }
    string_from_chars(out.as_slice())
}

/// The filename of a chat: a non-empty display name truncated to the
/// budget and joined with the row id; else the joined participants; else
/// the chat identifier. The result is sanitized.
pub fn chat_filename(
    chat: &crate::chat::Chat,
    participant_labels: Option<&Vec<String>>,
) -> (r: String)
    ensures
        r@ == crate::sanitize::spec_sanitize_filename(
            match chat.display_name {
                Some(ref name) if name@.len() > 0 => {
                    let cut = if name@.len() < 235 {
                        name@.len() as int
                    } else {
                        235
                    };
                    name@.take(cut) + " - "@ + spec_i64_dec(chat.rowid as int)
                },
                _ => match participant_labels {
                    Some(labels) => spec_participants_filename(
                        labels.deep_view(),
                        0,
                        Seq::empty(),
                        0,
                    ),
                    None => chat.chat_identifier@,
                },
            },
        ),
{
    let base: String = match chat.display_name() {
        Some(name) => {
            let n = vstd::string::StrSliceExecFns::unicode_len(name);
            let cut: usize = if n < 235 {
                n
            } else {
                235
            };
            let cs = chars_of(name);
            let (head, _) = cs.as_slice().split_at(cut);
            let mut out: Vec<char> = Vec::new();
            push_chars(&mut out, head);
            push_str_chars(&mut out, " - ");
            let digits = i64_dec_chars(chat.rowid as i64);
            push_chars(&mut out, digits.as_slice());
            proof {
                assert(out@ =~= name@.take(cut as int) + " - "@ + spec_i64_dec(chat.rowid as int));
            }
            string_from_chars(out.as_slice())
        },
        Option::None => {
            match participant_labels {
                Some(labels) => filename_from_participants(labels),
                Option::None => chat.chat_identifier.clone(),
            }
        },
    };
    crate::sanitize::sanitize_filename(base.as_str())
}


/// The name an attachment falls back to when no path resolves: its
/// transfer name, else its stored path, else a fixed note.
pub open spec fn spec_fallback_attachment_name(a: &crate::attachment::Attachment) -> Seq<char> {
    match a.transfer_name {
        Some(ref t) => t@,
        None => match a.filename {
            Some(ref f) => f@,
            None => "Attachment missing name metadata!"@,
        },
    }
}

/// The path an archived record shows for one attachment: the staged copy
/// made relative to the export root when one exists, else the resolved
/// source path, else the attachment's name, else a fixed note.
pub fn message_attachment_path(
    attachment: &crate::attachment::Attachment,
    export_path: &str,
    platform: &crate::platform::Platform,
    db_path: &str,
    home: &str,
    attachment_root: Option<&str>,
) -> (r: String)
    ensures
        r@ == (match attachment.copied_path {
            Some(ref p) => spec_relative_path(p@, export_path@),
            None => match attachment.filename {
                None => spec_fallback_attachment_name(attachment),
                Some(ref f) => {
                    let p = crate::attachment::spec_apply_custom_root(
                        f@,
                        attachment_root.deep_view(),
                    );
                    match platform {
                        crate::platform::Platform::macOS => crate::attachment::spec_macos_attachment(
                            p,
                            home@,
                        ),
                        crate::platform::Platform::iOS => {
                            if p.len() >= 2 {
                                crate::attachment::spec_ios_attachment(p, db_path@)
                            } else {
                                spec_fallback_attachment_name(attachment)
                            }
                        },
                    }
                },
            },
        }),
{
    match &attachment.copied_path {
        Some(path) => relative_path(path.as_str(), export_path),
        Option::None => {
            match attachment.resolved_attachment_path(platform, db_path, home, attachment_root) {
                Some(resolved) => resolved,
                Option::None => fallback_attachment_name(attachment),
            }
        },
    }
}

/// The name shown when an attachment has no resolvable path.
fn fallback_attachment_name(attachment: &crate::attachment::Attachment) -> (r: String)
    ensures
        r@ == spec_fallback_attachment_name(attachment),
{
    match attachment.filename() {
        Some(name) => string_from_chars(chars_of(name).as_slice()),
        Option::None => String::from_str("Attachment missing name metadata!"),
    }
}


/// One group of the tapback cache: every tapback aimed at one part of one
/// message.
pub struct TapbackGroup {
    /// The GUID of the message the tapbacks apply to.
    pub target_guid: String,
    /// The body part of that message they apply to.
    pub target_part: usize,
    /// The tapbacks themselves.
    pub tapbacks: Vec<Message>,
}

/// The rows the tapback cache keeps: tapbacks whose associated GUID
/// cleans to a target.
pub open spec fn spec_is_grouped_tapback(m: Message) -> bool {
    &&& m.date_edited == 0
    &&& (match m.associated_message_type {
        Some(c) => crate::message::spec_is_tapback_code(c),
        None => false,
    })
    &&& crate::message::spec_clean_guid_of(&m) is Some
}

/// Does every member of the group point at the group's key?
pub open spec fn spec_tapback_group_ok(grp: &TapbackGroup) -> bool {
    grp.tapbacks@.len() > 0 && forall|t: int|
        0 <= t < grp.tapbacks@.len() ==> {
            let m = #[trigger] grp.tapbacks@[t];
            &&& m.date_edited == 0
            &&& (match m.associated_message_type {
                Some(c) => crate::message::spec_is_tapback_code(c),
                None => false,
            })
            &&& crate::message::spec_clean_guid_of(&m) == Some(
                (grp.target_part as int, grp.target_guid@),
            )
        }
}

/// Group tapback messages by the message GUID and body part they apply to,
/// the way the tapback cache stores them. Rows that are not tapbacks, or
/// whose associated GUID does not clean, are left out; no two groups share
/// a key.
pub fn group_tapbacks(messages: Vec<Message>) -> (r: Vec<TapbackGroup>)
    ensures
        forall|g: int| 0 <= g < r@.len() ==> spec_tapback_group_ok(#[trigger] &r@[g]),
        forall|a: int, b: int|
            0 <= a < b < r@.len() ==> !((#[trigger] r@[a]).target_guid@ == (
            #[trigger] r@[b]).target_guid@ && r@[a].target_part == r@[b].target_part),
        forall|i: int|
            0 <= i < messages@.len() && spec_is_grouped_tapback(#[trigger] messages@[i])
                ==> exists|g: int, t: int|
                0 <= g < r@.len() && 0 <= t < (#[trigger] r@[g]).tapbacks@.len()
                    && #[trigger] r@[g].tapbacks@[t] == messages@[i],
{
    let ghost all = messages@;
    let mut groups: Vec<TapbackGroup> = Vec::new();
    let mut remaining = messages;
    let ghost mut done: int = 0;
    while remaining.len() > 0
        invariant
            0 <= done <= all.len(),
            remaining@ == all.skip(done),
            forall|g: int| 0 <= g < groups@.len() ==> spec_tapback_group_ok(#[trigger] &groups@[g]),
            forall|a: int, b: int|
                0 <= a < b < groups@.len() ==> !((#[trigger] groups@[a]).target_guid@ == (
                #[trigger] groups@[b]).target_guid@ && groups@[a].target_part
                    == groups@[b].target_part),
            forall|i: int|
                0 <= i < done && spec_is_grouped_tapback(#[trigger] all[i]) ==> exists|
                    g: int,
                    t: int,
                |
                    0 <= g < groups@.len() && 0 <= t < (#[trigger] groups@[g]).tapbacks@.len()
                        && #[trigger] groups@[g].tapbacks@[t] == all[i],
        decreases remaining@.len(),
    {
        proof {
            assert(remaining@[0] == all[done]);
        }
        let message = remaining.remove(0);
        let ghost taken = message;
        proof {
            assert(remaining@ =~= all.skip(done + 1));
        }
        if !message.is_tapback() {
            proof {
                done = done + 1;
                assert(!spec_is_grouped_tapback(taken));
            }
            continue ;
        }
        let (idx, guid) = match message.clean_associated_guid() {
            Some(pair) => pair,
            Option::None => {
                proof {
                    done = done + 1;
                    assert(!spec_is_grouped_tapback(taken));
                }
                continue ;
            },
        };
        // Find the group this tapback belongs to.
        let mut gi: usize = 0;
        let mut found = false;
        while gi < groups.len() && !found
            invariant
                gi <= groups@.len(),
                forall|g: int| 0 <= g < groups@.len() ==> spec_tapback_group_ok(#[trigger] &groups@[g]),
                forall|a: int, b: int|
                    0 <= a < b < groups@.len() ==> !((#[trigger] groups@[a]).target_guid@ == (
                    #[trigger] groups@[b]).target_guid@ && groups@[a].target_part
                        == groups@[b].target_part),
                !found ==> forall|g: int|
                    0 <= g < gi ==> !((#[trigger] groups@[g]).target_guid@ == guid@
                        && groups@[g].target_part == idx),
                found ==> gi < groups@.len() && groups@[gi as int].target_guid@ == guid@
                    && groups@[gi as int].target_part == idx,
            decreases groups@.len() - gi, (if found {
                0int
            } else {
                1int
            }),
        {
            if groups[gi].target_part == idx && crate::text::str_eq(
                groups[gi].target_guid.as_str(),
                guid.as_str(),
            ) {
                found = true;
            } else {
                gi = gi + 1;
            }
        }
        if found {
            let ghost pre = groups@;
            groups[gi].tapbacks.push(message);
            proof {
                done = done + 1;
                assert(groups@[gi as int].target_guid@ == pre[gi as int].target_guid@);
                assert forall|g: int| 0 <= g < groups@.len() implies spec_tapback_group_ok(
                    #[trigger] &groups@[g],
                ) by {
                    if g != gi {
                        assert(groups@[g] == pre[g]);
                    } else {
                        assert(groups@[g].tapbacks@ == pre[g].tapbacks@.push(
                            groups@[g].tapbacks@.last(),
                        ));
                    }
                }
                assert forall|a: int, b: int| 0 <= a < b < groups@.len() implies !((
                #[trigger] groups@[a]).target_guid@ == (#[trigger] groups@[b]).target_guid@
                    && groups@[a].target_part == groups@[b].target_part) by {
                    assert(groups@[a].target_guid@ == pre[a].target_guid@);
                    assert(groups@[b].target_guid@ == pre[b].target_guid@);
                    assert(groups@[a].target_part == pre[a].target_part);
                    assert(groups@[b].target_part == pre[b].target_part);
                }
                assert(groups@[gi as int].tapbacks@.last() == taken);
                assert forall|i: int|
                    0 <= i < done && spec_is_grouped_tapback(#[trigger] all[i]) implies exists|
                        g: int,
                        t: int,
                    |
                        0 <= g < groups@.len() && 0 <= t < (
                        #[trigger] groups@[g]).tapbacks@.len() && #[trigger] groups@[g].tapbacks@[t]
                            == all[i] by {
                    if i == done - 1 {
                        let g = gi as int;
                        let t = groups@[g].tapbacks@.len() - 1;
                        assert(0 <= g < groups@.len() && 0 <= t < groups@[g].tapbacks@.len()
                            && groups@[g].tapbacks@[t] == all[i]);
                    } else {
                        let (g, t) = choose|g: int, t: int|
                            0 <= g < pre.len() && 0 <= t < (#[trigger] pre[g]).tapbacks@.len()
                                && #[trigger] pre[g].tapbacks@[t] == all[i];
                        if g == gi {
                            assert(groups@[g].tapbacks@[t] == pre[g].tapbacks@[t]);
                        } else {
                            assert(groups@[g] == pre[g]);
                        }
                        assert(0 <= g < groups@.len() && 0 <= t < groups@[g].tapbacks@.len()
                            && groups@[g].tapbacks@[t] == all[i]);
                    }
                }
            }
        } else {
            assert(!found);
            assert(forall|g: int|
                0 <= g < groups@.len() ==> !((#[trigger] groups@[g]).target_guid@ == guid@
                    && groups@[g].target_part == idx));
            let ghost pre = groups@;
            let ghost mcopy = message;
            let mut members: Vec<Message> = Vec::new();
            members.push(message);
            groups.push(TapbackGroup { target_guid: guid, target_part: idx, tapbacks: members });
            proof {
                done = done + 1;
                let n = groups@.len();
                assert forall|g: int| 0 <= g < n implies spec_tapback_group_ok(
                    #[trigger] &groups@[g],
                ) by {
                    if g < n - 1 {
                        assert(groups@[g] == pre[g]);
                    } else {
                        assert(groups@[g].tapbacks@.len() == 1);
                        assert(groups@[g].tapbacks@[0] == mcopy);
                    }
                }
                assert forall|a: int, b: int| 0 <= a < b < n implies !((
                #[trigger] groups@[a]).target_guid@ == (#[trigger] groups@[b]).target_guid@
                    && groups@[a].target_part == groups@[b].target_part) by {
                    if b < n - 1 {
                        assert(groups@[a] == pre[a]);
                        assert(groups@[b] == pre[b]);
                    } else {
                        assert(groups@[a] == pre[a]);
                        assert(!(pre[a].target_guid@ == groups@[b].target_guid@
                            && pre[a].target_part == groups@[b].target_part));
                    }
                }
                assert(groups@[n - 1].tapbacks@[0] == taken);
                assert forall|i: int|
                    0 <= i < done && spec_is_grouped_tapback(#[trigger] all[i]) implies exists|
                        g: int,
                        t: int,
                    |
                        0 <= g < groups@.len() && 0 <= t < (
                        #[trigger] groups@[g]).tapbacks@.len() && #[trigger] groups@[g].tapbacks@[t]
                            == all[i] by {
                    if i == done - 1 {
                        assert(0 <= n - 1 < groups@.len() && 0 <= 0
                            < groups@[n - 1].tapbacks@.len() && groups@[n - 1].tapbacks@[0]
                            == all[i]);
                    } else {
                        let (g, t) = choose|g: int, t: int|
                            0 <= g < pre.len() && 0 <= t < (#[trigger] pre[g]).tapbacks@.len()
                                && #[trigger] pre[g].tapbacks@[t] == all[i];
                        assert(groups@[g] == pre[g]);
                        assert(0 <= g < groups@.len() && 0 <= t < groups@[g].tapbacks@.len()
                            && groups@[g].tapbacks@[t] == all[i]);
                    }
                }
            }
        }
    }
    proof {
        assert(all.skip(done).len() == 0);
        assert(done == all.len());
    }
    groups
}

} // verus!
