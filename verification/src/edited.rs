//! Containers for the `message_summary_info` of an edited or unsent message.
//!
//! An edited message stores one entry per body part. The `otr` key of the
//! summary plist lists the parts, the `ec` key maps part indexes to their
//! edit history, and the `rp` key lists the parts that were unsent.
use vstd::prelude::*;

use crate::plist::{
    PlistErrModel, PlistParseError, PlistValue, extract_bytes_key, extract_dictionary,
    extract_int_key, dict_get, perr_model, plist_as_dictionary, spec_dict_get,
};
use crate::text::{chars_of, parse_usize, spec_all_digits, spec_digits_value};
use crate::typedstream::{
    Archivable, ArchivedItem, TypedStreamReader, items_model, spec_typedstream_decode,
};

verus! {

/// The kind of change made to a message body part.
#[derive(Debug, PartialEq, Eq)]
pub enum EditStatus {
    /// The content of the part was altered.
    Edited,
    /// The content of the part was unsent.
    Unsent,
    /// The content of the part was not changed.
    Original,
}

/// A single edit event for a message part.
#[derive(Debug, PartialEq)]
pub struct EditedEvent {
    /// The date the part was edited, in nanoseconds since the Apple epoch.
    pub date: i64,
    /// The text of the edited part, when it could be decoded.
    pub text: Option<String>,
    /// The decoded `typedstream` components of the edited part.
    pub components: Option<Vec<Archivable>>,
    /// A GUID reference to another message.
    pub guid: Option<String>,
}

impl EditedEvent {
    pub fn new(
        date: i64,
        text: Option<String>,
        components: Option<Vec<Archivable>>,
        guid: Option<String>,
    ) -> (r: Self)
        ensures
            r.date == date,
            r.text == text,
            r.components == components,
            r.guid == guid,
    {
        Self { date, text, components, guid }
    }
}

/// The edit status and history of one part of a message.
#[derive(Debug, PartialEq)]
pub struct EditedMessagePart {
    /// The kind of change made to this part.
    pub status: EditStatus,
    /// The edits made to this part, oldest first.
    pub edit_history: Vec<EditedEvent>,
}

impl Default for EditedMessagePart {
    fn default() -> (r: Self)
        ensures
            r.status == EditStatus::Original,
            r.edit_history@.len() == 0,
    {
        Self { status: EditStatus::Original, edit_history: Vec::new() }
    }
}

/// The per-part edit records of one message.
#[derive(Debug, PartialEq)]
pub struct EditedMessage {
    /// One entry for each part of the message body.
    pub parts: Vec<EditedMessagePart>,
}

/// A message is fully unsent when it has at least one part and every part
/// was unsent.
pub open spec fn spec_fully_unsent(e: &EditedMessage) -> bool {
    e.parts@.len() > 0 && forall|i: int|
        0 <= i < e.parts@.len() ==> #[trigger] e.parts@[i].status == EditStatus::Unsent
}

impl EditedMessage {
    /// The edit data for the given part index.
    pub fn part(&self, index: usize) -> (r: Option<&EditedMessagePart>)
        ensures
            match r {
                Some(p) => index < self.parts@.len() && *p == self.parts@[index as int],
                None => index >= self.parts@.len(),
            },
    {
        if index < self.parts.len() {
            Some(&self.parts[index])
        } else {
            None
        }
    }

    /// Whether the given part exists and was left unchanged.
    pub fn is_unedited_at(&self, index: usize) -> (r: bool)
        ensures
            r == (index < self.parts@.len() && self.parts@[index as int].status
                == EditStatus::Original),
    {
        if index < self.parts.len() {
            matches!(self.parts[index].status, EditStatus::Original)
        } else {
            false
        }
    }

    /// The number of parts.
    pub fn items(&self) -> (r: usize)
        ensures
            r == self.parts@.len(),
    {
        self.parts.len()
    }

    /// Whether every part of the message was unsent.
    ///
    /// This holds exactly when the message has at least one part and each
    /// part's status is [`EditStatus::Unsent`].
    pub fn is_fully_unsent(&self) -> (r: bool)
        ensures
            r == spec_fully_unsent(self),
    {
        let mut i: usize = 0;
        while i < self.parts.len()
            invariant
                i <= self.parts@.len(),
                forall|j: int|
                    0 <= j < i ==> #[trigger] self.parts@[j].status == EditStatus::Unsent,
            decreases self.parts@.len() - i,
        {
            if !matches!(self.parts[i].status, EditStatus::Unsent) {
                return false;
            }
            i = i + 1;
        }
        self.parts.len() > 0
    }
}


/// Does an `ec` entry mark part `i` as edited: its key parses as the index
/// and it carries at least one event?
pub open spec fn spec_ec_marks(ec: Seq<(String, PlistValue)>, i: int) -> bool {
    exists|j: int|
        0 <= j < ec.len() && spec_all_digits((#[trigger] ec[j]).0@) && spec_digits_value(ec[j].0@)
            <= usize::MAX && spec_digits_value(ec[j].0@) == i && (ec[j].1 matches
        PlistValue::Array(evs) && evs@.len() > 0)
}

/// Does the `rp` list mark part `i` as unsent?
pub open spec fn spec_rp_marks(rp: Seq<PlistValue>, i: int) -> bool {
    exists|j: int|
        0 <= j < rp.len() && #[trigger] rp[j] == PlistValue::Integer(i as i64) && 0 <= i
            <= i64::MAX
}

/// The status the summary plist assigns to part `i`: unsent when `rp`
/// lists it, else edited when `ec` maps it to events, else original.
pub open spec fn spec_part_status(root: Seq<(String, PlistValue)>, i: int) -> EditStatus {
    let rp_marked = match spec_dict_get(root, "rp"@) {
        Some(PlistValue::Array(rp)) => spec_rp_marks(rp@, i),
        _ => false,
    };
    let ec_marked = match spec_dict_get(root, "ec"@) {
        Some(PlistValue::Dictionary(ec)) => spec_ec_marks(ec@, i),
        _ => false,
    };
    if rp_marked {
        EditStatus::Unsent
    } else if ec_marked {
        EditStatus::Edited
    } else {
        EditStatus::Original
    }
}

/// The edit date scaled from seconds to nanoseconds, held to the 64-bit
/// range.
pub open spec fn spec_scaled_date(d: int) -> int {
    if d * 1000000000 > i64::MAX {
        i64::MAX as int
    } else if d * 1000000000 < i64::MIN {
        i64::MIN as int
    } else {
        d * 1000000000
    }
}

fn scaled_date(d: i64) -> (r: i64)
    ensures
        r as int == spec_scaled_date(d as int),
{
    if d > 9223372036i64 {
        proof {
            assert(d as int * 1000000000 >= 9223372037i64 as int * 1000000000) by (nonlinear_arith)
                requires
                    d as int >= 9223372037,
            ;
        }
        i64::MAX
    } else if d < -9223372036i64 {
        proof {
            assert(d as int * 1000000000 <= (-9223372037i64) as int * 1000000000)
                by (nonlinear_arith)
                requires
                    d as int <= -9223372037,
            ;
        }
        i64::MIN
    } else {
        proof {
            assert(-9223372036i64 as int * 1000000000 <= d as int * 1000000000 <= 9223372036i64
                as int * 1000000000) by (nonlinear_arith)
                requires
                    -9223372036 <= d as int <= 9223372036,
            ;
        }
        d * 1000000000
    }
}


/// The failures of edit-summary decoding: a property-list failure, or an
/// edit-record key that does not name a part index.
#[derive(Debug, PartialEq)]
pub enum EditedParseError {
    /// The summary's property list is malformed.
    Plist(PlistParseError),
    /// An `ec` key is not a numeric part index.
    InvalidPartIndex(String),
}

/// An edit-summary failure at the specification level.
pub enum EditedErrModel {
    Plist(PlistErrModel),
    InvalidPartIndex(Seq<char>),
}

/// The specification view of an edit-summary failure.
pub open spec fn emodel(e: EditedParseError) -> EditedErrModel {
    match e {
        EditedParseError::Plist(pe) => EditedErrModel::Plist(perr_model(pe)),
        EditedParseError::InvalidPartIndex(k) => EditedErrModel::InvalidPartIndex(k@),
    }
}

/// The date an event dictionary carries: a plain integer or a truncated
/// real under `d`.
pub open spec fn spec_event_date(md: Seq<(String, PlistValue)>) -> Result<i64, PlistErrModel> {
    match spec_dict_get(md, "d"@) {
        Option::None => Err(PlistErrModel::MissingKey("d"@)),
        Some(PlistValue::Real(v)) => Ok(v),
        Some(PlistValue::Integer(v)) => Ok(v),
        Some(_) => Err(PlistErrModel::InvalidType("d"@, "int"@)),
    }
}

/// The payload bytes an event dictionary carries under `t`.
pub open spec fn spec_event_payload(md: Seq<(String, PlistValue)>) -> Result<Seq<u8>, PlistErrModel> {
    match spec_dict_get(md, "t"@) {
        Option::None => Err(PlistErrModel::MissingKey("t"@)),
        Some(PlistValue::Data(d)) => Ok(d@),
        Some(_) => Err(PlistErrModel::InvalidType("t"@, "data"@)),
    }
}

/// Whether a decoded item is a string object, at the specification level.
pub open spec fn model_nsstring(item: ArchivedItem) -> Option<Seq<char>> {
    match item {
        ArchivedItem::Object(c, vals) => {
            if (c.name == "NSString"@ || c.name == "NSMutableString"@) && vals.len() > 0 && (
            vals[0] is String) {
                Some(vals[0]->String_0)
            } else {
                Option::None
            }
        },
        _ => Option::None,
    }
}

/// One edit event at the specification level.
pub struct EventModel {
    pub date: int,
    pub text: Option<Seq<char>>,
    pub components: Option<Seq<ArchivedItem>>,
    pub guid: Option<Seq<char>>,
}

/// The specification view of a decoded edit event.
pub open spec fn event_model(e: EditedEvent) -> EventModel {
    EventModel {
        date: e.date as int,
        text: match e.text {
            Some(t) => Some(t@),
            Option::None => Option::None,
        },
        components: match e.components {
            Some(v) => Some(items_model(v@)),
            Option::None => Option::None,
        },
        guid: match e.guid {
            Some(g) => Some(g@),
            Option::None => Option::None,
        },
    }
}

/// The specification views of a run of events.
pub open spec fn events_model(evs: Seq<EditedEvent>) -> Seq<EventModel> {
    Seq::new(evs.len(), |i: int| event_model(evs[i]))
}

/// What one well-shaped event dictionary decodes to: the date scaled to
/// nanoseconds, the decoded payload's items, the text of the payload's
/// first string object — recovered by the fallback parser when the full
/// decode yields no string — and the cross-reference GUID.
pub open spec fn spec_event_of(md: Seq<(String, PlistValue)>, d: i64, t: Seq<u8>) -> EventModel {
    let decoded = spec_typedstream_decode(t);
    EventModel {
        date: spec_scaled_date(d as int),
        text: (match decoded {
            Ok(items) => {
                if items.len() > 0 && model_nsstring(items[0]) is Some {
                    model_nsstring(items[0])
                } else {
                    spec_fallback_text(t)
                }
            },
            Err(_) => spec_fallback_text(t),
        }),
        components: match decoded {
            Ok(items) => Some(items),
            Err(_) => Option::None,
        },
        guid: match spec_dict_get(md, "bcg"@) {
            Some(PlistValue::String(g)) => Some(g@),
            _ => Option::None,
        },
    }
}

/// The fallback parser's text, when it recovers one.
pub open spec fn spec_fallback_text(t: Seq<u8>) -> Option<Seq<char>> {
    match crate::streamtyped::spec_streamtyped_parse(t) {
        Ok(text) => Some(text),
        Err(_) => Option::None,
    }
}

/// The outcome of decoding one `ec` event list.
pub open spec fn spec_events_outcome(evs: Seq<PlistValue>, j: int) -> Result<(), EditedErrModel>
    decreases evs.len(),
{
    if evs.len() == 0 {
        Ok(())
    } else {
        match evs[0] {
            PlistValue::Dictionary(md) => match spec_event_date(md@) {
                Err(e) => Err(EditedErrModel::Plist(e)),
                Ok(_) => match spec_event_payload(md@) {
                    Err(e) => Err(EditedErrModel::Plist(e)),
                    Ok(_) => spec_events_outcome(evs.drop_first(), j),
                },
            },
            _ => Err(
                EditedErrModel::Plist(PlistErrModel::InvalidTypeIndex(j, "dictionary"@)),
            ),
        }
    }
}

/// The outcome of decoding the `ec` dictionary.
pub open spec fn spec_ec_outcome(ec: Seq<(String, PlistValue)>, j: int) -> Result<
    (),
    EditedErrModel,
>
    decreases ec.len(),
{
    if ec.len() == 0 {
        Ok(())
    } else {
        let key = ec[0].0;
        if !(spec_all_digits(key@) && spec_digits_value(key@) <= usize::MAX) {
            Err(EditedErrModel::InvalidPartIndex(key@))
        } else {
            match ec[0].1 {
                PlistValue::Array(evs) => match spec_events_outcome(evs@, j) {
                    Err(e) => Err(e),
                    Ok(_) => spec_ec_outcome(ec.drop_first(), j + 1),
                },
                _ => Err(EditedErrModel::Plist(PlistErrModel::InvalidTypeIndex(j, "array"@))),
            }
        }
    }
}

/// The outcome of decoding the `rp` list.
pub open spec fn spec_rp_outcome(rp: Seq<PlistValue>, j: int) -> Result<(), EditedErrModel>
    decreases rp.len(),
{
    if rp.len() == 0 {
        Ok(())
    } else {
        match rp[0] {
            PlistValue::Integer(_) => spec_rp_outcome(rp.drop_first(), j + 1),
            _ => Err(EditedErrModel::Plist(PlistErrModel::InvalidTypeIndex(j, "int"@))),
        }
    }
}

/// Whether the whole summary decodes, and the failure when it does not:
/// the top level must be a dictionary with a dictionary under `otr`; every
/// `ec` key must be a numeric part index mapping to an array of event
/// dictionaries, each with a numeric `d` and data `t`; an `rp` list may
/// hold only integers. An `ec` or `rp` entry of the wrong overall kind is
/// ignored, as the decoder ignores it.
pub open spec fn spec_summary_outcome(payload: PlistValue) -> Result<(), EditedErrModel> {
    match payload {
        PlistValue::Dictionary(root) => match spec_dict_get(root@, "otr"@) {
            Option::None => Err(EditedErrModel::Plist(PlistErrModel::MissingKey("otr"@))),
            Some(PlistValue::Dictionary(_)) => {
                let ec_outcome: Result<(), EditedErrModel> = match spec_dict_get(root@, "ec"@) {
                    Some(PlistValue::Dictionary(ec)) => spec_ec_outcome(ec@, 0),
                    _ => Ok(()),
                };
                match ec_outcome {
                    Err(e) => Err(e),
                    Ok(_) => match spec_dict_get(root@, "rp"@) {
                        Some(PlistValue::Array(rp)) => spec_rp_outcome(rp@, 0),
                        _ => Ok(()),
                    },
                }
            },
            Some(_) => Err(
                EditedErrModel::Plist(PlistErrModel::InvalidType("otr"@, "dictionary"@)),
            ),
        },
        _ => Err(EditedErrModel::Plist(PlistErrModel::InvalidType("body"@, "dictionary"@))),
    }
}

/// The event a single event-array element contributes to a part's history:
/// one model for a well-shaped dictionary, nothing otherwise.
pub open spec fn spec_event_contrib(v: PlistValue) -> Seq<EventModel> {
    match v {
        PlistValue::Dictionary(md) => match spec_event_date(md@) {
            Ok(d) => match spec_event_payload(md@) {
                Ok(t) => seq![spec_event_of(md@, d, t)],
                Err(_) => Seq::empty(),
            },
            Err(_) => Seq::empty(),
        },
        _ => Seq::empty(),
    }
}

/// The event models of one event array, in order.
pub open spec fn spec_entry_events(evs: Seq<PlistValue>) -> Seq<EventModel>
    decreases evs.len(),
{
    if evs.len() == 0 {
        Seq::empty()
    } else {
        spec_event_contrib(evs[0]) + spec_entry_events(evs.drop_first())
    }
}

/// The events one `ec` entry contributes to part `k`'s history: the
/// entry's events when its key names the part, nothing otherwise.
pub open spec fn spec_part_contrib(entry: (String, PlistValue), k: int) -> Seq<EventModel> {
    if spec_all_digits(entry.0@) && spec_digits_value(entry.0@) <= usize::MAX && spec_digits_value(
        entry.0@,
    ) == k && entry.1 is Array {
        spec_entry_events(entry.1->Array_0@)
    } else {
        Seq::empty()
    }
}

/// The event models one part's history accumulates: the events of every
/// `ec` entry whose key names the part, in entry order.
pub open spec fn spec_part_history(ec: Seq<(String, PlistValue)>, k: int) -> Seq<EventModel>
    decreases ec.len(),
{
    if ec.len() == 0 {
        Seq::empty()
    } else {
        spec_part_contrib(ec[0], k) + spec_part_history(ec.drop_first(), k)
    }
}

/// Appending one element to an event array appends its contribution.
proof fn lemma_entry_events_push(evs: Seq<PlistValue>, x: PlistValue)
    ensures
        spec_entry_events(evs.push(x)) == spec_entry_events(evs) + spec_event_contrib(x),
    decreases evs.len(),
{
    if evs.len() == 0 {
        assert(evs.push(x).drop_first() =~= evs);
        assert(evs.push(x)[0] == x);
        assert(spec_entry_events(evs) == Seq::<EventModel>::empty());
        assert(spec_entry_events(evs.push(x)) == spec_event_contrib(x) + spec_entry_events(evs));
        assert(spec_event_contrib(x) + Seq::<EventModel>::empty() =~= Seq::<
            EventModel,
        >::empty() + spec_event_contrib(x));
    } else {
        let tail = evs.drop_first();
        assert(evs.push(x).drop_first() =~= tail.push(x));
        assert(evs.push(x)[0] == evs[0]);
        lemma_entry_events_push(tail, x);
        assert(spec_entry_events(evs.push(x)) == spec_event_contrib(evs[0]) + spec_entry_events(
            tail.push(x),
        ));
        assert(spec_entry_events(evs) == spec_event_contrib(evs[0]) + spec_entry_events(tail));
        assert(spec_event_contrib(evs[0]) + (spec_entry_events(tail) + spec_event_contrib(x)) =~= (
        spec_event_contrib(evs[0]) + spec_entry_events(tail)) + spec_event_contrib(x));
    }
}

/// Appending one entry to the `ec` run appends its contribution to each
/// part's history.
proof fn lemma_part_history_push(ec: Seq<(String, PlistValue)>, x: (String, PlistValue), k: int)
    ensures
        spec_part_history(ec.push(x), k) == spec_part_history(ec, k) + spec_part_contrib(x, k),
    decreases ec.len(),
{
    if ec.len() == 0 {
        assert(ec.push(x).drop_first() =~= ec);
        assert(ec.push(x)[0] == x);
        assert(spec_part_history(ec, k) == Seq::<EventModel>::empty());
        assert(spec_part_history(ec.push(x), k) == spec_part_contrib(x, k) + spec_part_history(
            ec,
            k,
        ));
        assert(spec_part_contrib(x, k) + Seq::<EventModel>::empty() =~= Seq::<
            EventModel,
        >::empty() + spec_part_contrib(x, k));
    } else {
        let tail = ec.drop_first();
        assert(ec.push(x).drop_first() =~= tail.push(x));
        assert(ec.push(x)[0] == ec[0]);
        lemma_part_history_push(tail, x, k);
        assert(spec_part_history(ec.push(x), k) == spec_part_contrib(ec[0], k) + spec_part_history(
            tail.push(x),
            k,
        ));
        assert(spec_part_history(ec, k) == spec_part_contrib(ec[0], k) + spec_part_history(
            tail,
            k,
        ));
        assert(spec_part_contrib(ec[0], k) + (spec_part_history(tail, k) + spec_part_contrib(x, k))
            =~= (spec_part_contrib(ec[0], k) + spec_part_history(tail, k)) + spec_part_contrib(
            x,
            k,
        ));
    }
}

/// Event models distribute over concatenation.
proof fn lemma_events_model_concat(a: Seq<EditedEvent>, b: Seq<EditedEvent>)
    ensures
        events_model(a + b) == events_model(a) + events_model(b),
{
    assert(events_model(a + b) =~= events_model(a) + events_model(b));
}

/// Whether a decoded message's parts are exactly what the summary payload
/// describes: one part per `otr` entry, each with the status the `ec` and
/// `rp` keys assign it and the edit history the `ec` key accumulates for it.
pub open spec fn spec_summary_parts(payload: PlistValue, e: EditedMessage) -> bool {
    match payload {
        PlistValue::Dictionary(root) => {
            &&& (match spec_dict_get(root@, "otr"@) {
                Some(PlistValue::Dictionary(otr)) => e.parts@.len() == otr@.len(),
                _ => false,
            })
            &&& (forall|i: int|
                0 <= i < e.parts@.len() ==> (#[trigger] e.parts@[i]).status == spec_part_status(
                    root@,
                    i,
                ))
            &&& (forall|i: int|
                0 <= i < e.parts@.len() ==> events_model((#[trigger] e.parts@[i]).edit_history@)
                    == spec_summary_history(root@, i))
        },
        _ => false,
    }
}

/// The history the whole summary assigns to part `k`.
pub open spec fn spec_summary_history(root: Seq<(String, PlistValue)>, k: int) -> Seq<EventModel> {
    match spec_dict_get(root, "ec"@) {
        Some(PlistValue::Dictionary(ec)) => spec_part_history(ec@, k),
        _ => Seq::empty(),
    }
}

/// Decode one event dictionary.
fn decode_event(md: &Vec<(String, PlistValue)>) -> (r: Result<
    EditedEvent,
    EditedParseError,
>)
    ensures
        match r {
            Ok(ev) => spec_event_date(md@) is Ok && spec_event_payload(md@) is Ok && event_model(
                ev,
            ) == spec_event_of(md@, spec_event_date(md@)->Ok_0, spec_event_payload(md@)->Ok_0),
            Err(e) => match emodel(e) {
                EditedErrModel::Plist(pe) => (spec_event_date(md@) == Err::<i64, PlistErrModel>(pe)
                    || (spec_event_date(md@) is Ok && spec_event_payload(md@) == Err::<
                    Seq<u8>,
                    PlistErrModel,
                >(pe))),
                _ => false,
            },
        },
{
    let date_seconds = match extract_int_key(md, "d") {
        Ok(v) => v,
        Err(e) => {
            return Err(EditedParseError::Plist(e));
        },
    };
    let timestamp = scaled_date(date_seconds);
    let typedstream = match extract_bytes_key(md, "t") {
        Ok(t) => t,
        Err(e) => {
            return Err(EditedParseError::Plist(e));
        },
    };
    let mut reader = TypedStreamReader::from(typedstream.as_slice());
    let components = reader.parse();
    let mut text: Option<String> = Option::None;
    if let Ok(items) = &components {
        if items.len() > 0 {
            if let Some(t) = items[0].as_nsstring() {
                proof {
                    assert(items_model(items@)[0] == crate::typedstream::item_model(items@[0]));
                    assert(model_nsstring(items_model(items@)[0]) == Some(t@));
                }
                text = Some(crate::text::string_from_chars(chars_of(t).as_slice()));
            } else {
                proof {
                    assert(items_model(items@)[0] == crate::typedstream::item_model(items@[0]));
                    assert(model_nsstring(items_model(items@)[0]) is None);
                }
            }
        }
    }
    if text.is_none() {
        let bytes = crate::plist::copy_bytes(typedstream.as_slice());
        if let Ok(recovered) = crate::streamtyped::parse(bytes) {
            text = Some(recovered);
        }
    }
    let guid: Option<String> = match dict_get(md, "bcg") {
        Some(PlistValue::String(g)) => Some(g.clone()),
        _ => Option::None,
    };
    Ok(
        EditedEvent {
            date: timestamp,
            text,
            components: match components {
                Ok(items) => Some(items),
                Err(_) => Option::None,
            },
            guid,
        },
    )
}

impl EditedMessage {
    /// Decode the `message_summary_info` summary of an edited or unsent
    /// message.
    ///
    /// The `otr` dictionary gives the message one part per entry; the `ec`
    /// dictionary maps part indexes to their edit history, each event
    /// carrying its date, the `typedstream` payload of the edited text, and
    /// an optional cross-reference GUID; the `rp` list names the parts that
    /// were unsent. An `ec` key that is not a numeric part index, or a
    /// malformed `ec` or `rp` value inside an otherwise well-shaped summary,
    /// is an error; an `ec` or `rp` that is missing or is not a dictionary
    /// or array is ignored.
    #[verifier::rlimit(100)]
    pub fn from_map(payload: &PlistValue) -> (r: Result<Self, EditedParseError>)
        ensures
            match r {
                Ok(e) => spec_summary_outcome(*payload) is Ok && spec_summary_parts(*payload, e),
                Err(e) => spec_summary_outcome(*payload) == Err::<(), EditedErrModel>(emodel(e)),
            },
    {
        let plist_root = match plist_as_dictionary(payload) {
            Ok(d) => d,
            Err(e) => {
                return Err(EditedParseError::Plist(e));
            },
        };
        let message_parts = match extract_dictionary(plist_root, "otr") {
            Ok(d) => d,
            Err(e) => {
                return Err(EditedParseError::Plist(e));
            },
        };
        let total = message_parts.len();
        let mut parts: Vec<EditedMessagePart> = Vec::new();
        let mut k: usize = 0;
        while k < total
            invariant
                k <= total,
                parts@.len() == k,
                forall|i: int|
                    0 <= i < k ==> (#[trigger] parts@[i]).status == EditStatus::Original,
                forall|i: int| 0 <= i < k ==> (#[trigger] parts@[i]).edit_history@.len() == 0,
            decreases total - k,
        {
            parts.push(EditedMessagePart { status: EditStatus::Original, edit_history: Vec::new() });
            k = k + 1;
        }
        let ghost root = plist_root@;
        proof {
            assert(forall|i: int|
                0 <= i < parts@.len() ==> events_model((#[trigger] parts@[i]).edit_history@)
                    =~= Seq::<EventModel>::empty());
        }
        // Apply the edit histories.
        let ec_entry = dict_get(plist_root, "ec");
        if let Some(PlistValue::Dictionary(edited_events)) = ec_entry {
            proof {
                assert(edited_events@.skip(0) =~= edited_events@);
                assert(edited_events@.take(0) =~= Seq::<(String, PlistValue)>::empty());
            }
            let mut j: usize = 0;
            while j < edited_events.len()
                invariant
                    *payload == PlistValue::Dictionary(*plist_root),
                    root == plist_root@,
                    spec_dict_get(root, "otr"@) == Some(PlistValue::Dictionary(*message_parts)),
                    total == message_parts@.len(),
                    spec_dict_get(root, "ec"@) == Some(PlistValue::Dictionary(*edited_events)),
                    j <= edited_events@.len(),
                    parts@.len() == total,
                    spec_ec_outcome(edited_events@, 0) == spec_ec_outcome(
                        edited_events@.skip(j as int),
                        j as int,
                    ),
                    forall|i: int|
                        0 <= i < parts@.len() ==> (#[trigger] parts@[i]).status == (
                        if spec_ec_marks(edited_events@.take(j as int), i) {
                            EditStatus::Edited
                        } else {
                            EditStatus::Original
                        }),
                    forall|i: int|
                        0 <= i < parts@.len() ==> events_model(
                            (#[trigger] parts@[i]).edit_history@,
                        ) == spec_part_history(edited_events@.take(j as int), i),
                decreases edited_events@.len() - j,
            {
                let ghost parts0 = parts@;
                proof {
                    assert(edited_events@.skip(j as int)[0] == edited_events@[j as int]);
                }
                let key_chars = chars_of(edited_events[j].0.as_str());
                let parsed_key: usize = match parse_usize(key_chars.as_slice()) {
                    Some(v) => v,
                    None => {
                        return Err(
                            EditedParseError::InvalidPartIndex(edited_events[j].0.clone()),
                        );
                    },
                };
                let events: &Vec<PlistValue> = match &edited_events[j].1 {
                    PlistValue::Array(evs) => evs,
                    _ => {
                        return Err(
                            EditedParseError::Plist(
                                PlistParseError::InvalidTypeIndex(j, String::from_str("array")),
                            ),
                        );
                    },
                };
                let mut history: Vec<EditedEvent> = Vec::new();
                proof {
                    assert(events@.skip(0) =~= events@);
                    assert(events@.take(0) =~= Seq::<PlistValue>::empty());
                    assert(events_model(history@) =~= spec_entry_events(events@.take(0)));
                }
                let mut e_i: usize = 0;
                while e_i < events.len()
                    invariant
                        *payload == PlistValue::Dictionary(*plist_root),
                        root == plist_root@,
                        spec_dict_get(root, "otr"@) == Some(
                            PlistValue::Dictionary(*message_parts),
                        ),
                        spec_dict_get(root, "ec"@) == Some(
                            PlistValue::Dictionary(*edited_events),
                        ),
                        j < edited_events@.len(),
                        spec_ec_outcome(edited_events@, 0) == spec_ec_outcome(
                            edited_events@.skip(j as int),
                            j as int,
                        ),
                        spec_all_digits(edited_events@[j as int].0@),
                        spec_digits_value(edited_events@[j as int].0@) == parsed_key as nat,
                        edited_events@[j as int].1 == PlistValue::Array(*events),
                        e_i <= events@.len(),
                        spec_events_outcome(events@, j as int) == spec_events_outcome(
                            events@.skip(e_i as int),
                            j as int,
                        ),
                        events_model(history@) == spec_entry_events(events@.take(e_i as int)),
                    decreases events@.len() - e_i,
                {
                    proof {
                        assert(events@.skip(e_i as int)[0] == events@[e_i as int]);
                        assert(edited_events@.skip(j as int)[0] == edited_events@[j as int]);
                    }
                    let message_data: &Vec<(String, PlistValue)> = match &events[e_i] {
                        PlistValue::Dictionary(d) => d,
                        _ => {
                            return Err(
                                EditedParseError::Plist(
                                    PlistParseError::InvalidTypeIndex(
                                        j,
                                        String::from_str("dictionary"),
                                    ),
                                ),
                            );
                        },
                    };
                    let ev = match decode_event(message_data) {
                        Ok(ev) => ev,
                        Err(err) => {
                            proof {
                                let em = emodel(err);
                                assert(em is Plist);
                                assert(em == EditedErrModel::Plist(em->Plist_0));
                            }
                            return Err(err);
                        },
                    };
                    let ghost h0 = history@;
                    history.push(ev);
                    proof {
                        let ei = e_i as int;
                        assert(events@.take(ei + 1) =~= events@.take(ei).push(events@[ei]));
                        lemma_entry_events_push(events@.take(ei), events@[ei]);
                        assert(spec_event_contrib(events@[ei]) == seq![event_model(ev)]);
                        assert(events_model(history@) =~= events_model(h0).push(event_model(ev)));
                        assert(events_model(history@) =~= spec_entry_events(events@.take(ei + 1)));
                        assert(events@.skip(ei).drop_first() =~= events@.skip(ei + 1));
                    }
                    e_i = e_i + 1;
                }
                proof {
                    assert(events@.take(events@.len() as int) =~= events@);
                    assert(events@.skip(events@.len() as int) =~= Seq::<PlistValue>::empty());
                    assert(spec_events_outcome(events@, j as int) is Ok);
                }
                let ghost hist_all = history@;
                let has_events = events.len() > 0;
                if has_events && parsed_key < parts.len() {
                    parts[parsed_key].status = EditStatus::Edited;
                    let ghost snap = parts@;
                    parts[parsed_key].edit_history.append(&mut history);
                    proof {
                        let pk = parsed_key as int;
                        assert(parts@[pk].status == EditStatus::Edited);
                        assert(parts@[pk].edit_history@ == parts0[pk].edit_history@ + hist_all);
                        assert(forall|i: int|
                            0 <= i < parts@.len() && i != pk ==> parts@[i] == parts0[i]);
                    }
                }
                proof {
                    let jj = j as int;
                    let pre = edited_events@.take(jj);
                    let post = edited_events@.take(jj + 1);
                    assert(post[jj] == edited_events@[jj]);
                    assert(post =~= pre.push(edited_events@[jj]));
                    // The decode outcome steps past this entry.
                    assert(edited_events@.skip(jj).drop_first() =~= edited_events@.skip(jj + 1));
                    assert(spec_ec_outcome(edited_events@.skip(jj), jj) == spec_ec_outcome(
                        edited_events@.skip(jj + 1),
                        jj + 1,
                    ));
                    // The statuses gain this entry's mark.
                    assert forall|i: int| 0 <= i < parts@.len() implies (
                    #[trigger] parts@[i]).status == (if spec_ec_marks(post, i) {
                        EditStatus::Edited
                    } else {
                        EditStatus::Original
                    }) by {
                        if spec_ec_marks(post, i) {
                            let w = choose|w: int|
                                0 <= w < post.len() && spec_all_digits(
                                    (#[trigger] post[w]).0@,
                                ) && spec_digits_value(post[w].0@) <= usize::MAX
                                    && spec_digits_value(post[w].0@) == i && (post[w].1 matches
                                PlistValue::Array(evs) && evs@.len() > 0);
                            if w < jj {
                                assert(pre[w] == post[w]);
                                assert(spec_ec_marks(pre, i));
                                assert(parts0[i].status == EditStatus::Edited);
                            } else {
                                assert(post[w] == edited_events@[jj]);
                                assert(i == parsed_key);
                                assert(has_events);
                            }
                            assert(parts@[i].status == EditStatus::Edited);
                        } else {
                            if spec_ec_marks(pre, i) {
                                let w = choose|w: int|
                                    0 <= w < pre.len() && spec_all_digits(
                                        (#[trigger] pre[w]).0@,
                                    ) && spec_digits_value(pre[w].0@) <= usize::MAX
                                        && spec_digits_value(pre[w].0@) == i && (pre[w].1 matches
                                    PlistValue::Array(evs) && evs@.len() > 0);
                                assert(post[w] == pre[w]);
                                assert(spec_ec_marks(post, i));
                            }
                            assert(parts0[i].status == EditStatus::Original);
                            if has_events && i == parsed_key {
                                assert(spec_all_digits(edited_events@[jj].0@));
                                assert(spec_digits_value(edited_events@[jj].0@) == parsed_key);
                                assert(post[jj].1 matches PlistValue::Array(evs) && evs@.len()
                                    > 0);
                                assert(spec_ec_marks(post, i));
                            }
                            assert(parts@[i].status == EditStatus::Original);
                        }
                    }
                    // The histories gain this entry's contribution.
                    assert forall|i: int| 0 <= i < parts@.len() implies events_model(
                        (#[trigger] parts@[i]).edit_history@,
                    ) == spec_part_history(post, i) by {
                        lemma_part_history_push(pre, edited_events@[jj], i);
                        if has_events && parsed_key < parts@.len() && i == parsed_key {
                            assert(spec_part_contrib(edited_events@[jj], i)
                                == spec_entry_events(events@));
                            lemma_events_model_concat(parts0[i].edit_history@, hist_all);
                            assert(events_model(hist_all) == spec_entry_events(events@));
                            assert(events_model(parts@[i].edit_history@) == spec_part_history(
                                pre,
                                i,
                            ) + spec_part_contrib(edited_events@[jj], i));
                        } else {
                            assert(parts@[i].edit_history == parts0[i].edit_history);
                            if spec_digits_value(edited_events@[jj].0@) == i {
                                assert(i == parsed_key);
                                assert(!has_events);
                                assert(events@.len() == 0);
                                assert(spec_entry_events(events@) =~= Seq::<EventModel>::empty());
                            }
                            assert(spec_part_contrib(edited_events@[jj], i) =~= Seq::<
                                EventModel,
                            >::empty());
                            assert(spec_part_history(post, i) =~= spec_part_history(pre, i));
                        }
                    }
                }
                j = j + 1;
            }
            proof {
                assert(edited_events@.take(edited_events@.len() as int) =~= edited_events@);
                assert(edited_events@.skip(edited_events@.len() as int) =~= Seq::<
                    (String, PlistValue),
                >::empty());
                assert(spec_ec_outcome(edited_events@, 0) is Ok);
            }
        } else {
            proof {
                assert(match spec_dict_get(root, "ec"@) {
                    Some(PlistValue::Dictionary(ec)) => false,
                    _ => true,
                });
                assert forall|i: int| 0 <= i < parts@.len() implies events_model(
                    (#[trigger] parts@[i]).edit_history@,
                ) == spec_summary_history(root, i) by {
                    assert(spec_summary_history(root, i) =~= Seq::<EventModel>::empty());
                    assert(events_model(parts@[i].edit_history@) =~= Seq::<EventModel>::empty());
                }
            }
        }
        proof {
            assert(match spec_dict_get(root, "ec"@) {
                Some(PlistValue::Dictionary(ec)) => spec_ec_outcome(ec@, 0) is Ok,
                _ => true,
            });
        }
        // Apply the unsent marks.
        let rp_entry = dict_get(plist_root, "rp");
        if let Some(PlistValue::Array(unsent_indexes)) = rp_entry {
            proof {
                assert(unsent_indexes@.skip(0) =~= unsent_indexes@);
            }
            let mut j: usize = 0;
            while j < unsent_indexes.len()
                invariant
                    *payload == PlistValue::Dictionary(*plist_root),
                    root == plist_root@,
                    spec_dict_get(root, "otr"@) == Some(PlistValue::Dictionary(*message_parts)),
                    total == message_parts@.len(),
                    match spec_dict_get(root, "ec"@) {
                        Some(PlistValue::Dictionary(ec)) => spec_ec_outcome(ec@, 0) is Ok,
                        _ => true,
                    },
                    spec_dict_get(root, "rp"@) == Some(PlistValue::Array(*unsent_indexes)),
                    j <= unsent_indexes@.len(),
                    parts@.len() == total,
                    spec_rp_outcome(unsent_indexes@, 0) == spec_rp_outcome(
                        unsent_indexes@.skip(j as int),
                        j as int,
                    ),
                    forall|i: int|
                        0 <= i < parts@.len() ==> (#[trigger] parts@[i]).status == (
                        if spec_rp_marks(unsent_indexes@.take(j as int), i) {
                            EditStatus::Unsent
                        } else {
                            spec_part_status_pre_rp(root, i)
                        }),
                    forall|i: int|
                        0 <= i < parts@.len() ==> events_model(
                            (#[trigger] parts@[i]).edit_history@,
                        ) == spec_summary_history(root, i),
                decreases unsent_indexes@.len() - j,
            {
                let ghost parts0 = parts@;
                proof {
                    assert(unsent_indexes@.skip(j as int)[0] == unsent_indexes@[j as int]);
                }
                let v: i64 = match &unsent_indexes[j] {
                    PlistValue::Integer(v) => *v,
                    _ => {
                        return Err(
                            EditedParseError::Plist(
                                PlistParseError::InvalidTypeIndex(j, String::from_str("int")),
                            ),
                        );
                    },
                };
                if v >= 0 && (v as u64) <= usize::MAX as u64 {
                    let idx = v as usize;
                    if idx < parts.len() {
                        parts[idx].status = EditStatus::Unsent;
                        proof {
                            assert(forall|i: int|
                                0 <= i < parts@.len() ==> (#[trigger] parts@[i]).edit_history
                                    == parts0[i].edit_history);
                        }
                    }
                }
                proof {
                    let jj = j as int;
                    let pre = unsent_indexes@.take(jj);
                    let post = unsent_indexes@.take(jj + 1);
                    assert(post[jj] == unsent_indexes@[jj]);
                    assert(unsent_indexes@.skip(jj).drop_first() =~= unsent_indexes@.skip(jj + 1));
                    assert(spec_rp_outcome(unsent_indexes@.skip(jj), jj) == spec_rp_outcome(
                        unsent_indexes@.skip(jj + 1),
                        jj + 1,
                    ));
                    assert forall|i: int| 0 <= i < parts@.len() implies (
                    #[trigger] parts@[i]).status == (if spec_rp_marks(post, i) {
                        EditStatus::Unsent
                    } else {
                        spec_part_status_pre_rp(root, i)
                    }) by {
                        if spec_rp_marks(post, i) {
                            let w = choose|w: int|
                                0 <= w < post.len() && #[trigger] post[w] == PlistValue::Integer(
                                    i as i64,
                                ) && 0 <= i <= i64::MAX;
                            if w < jj {
                                assert(pre[w] == post[w]);
                                assert(spec_rp_marks(pre, i));
                                assert(parts0[i].status == EditStatus::Unsent);
                            } else {
                                assert(post[w] == unsent_indexes@[jj]);
                                assert(i == v);
                            }
                            assert(parts@[i].status == EditStatus::Unsent);
                        } else {
                            if spec_rp_marks(pre, i) {
                                let w = choose|w: int|
                                    0 <= w < pre.len() && #[trigger] pre[w]
                                        == PlistValue::Integer(i as i64) && 0 <= i <= i64::MAX;
                                assert(post[w] == pre[w]);
                                assert(spec_rp_marks(post, i));
                            }
                            assert(parts0[i].status == spec_part_status_pre_rp(root, i));
                            if v >= 0 && i == v {
                                assert(spec_rp_marks(post, i));
                            }
                            assert(parts@[i].status == spec_part_status_pre_rp(root, i));
                        }
                    }
                }
                j = j + 1;
            }
            proof {
                assert(unsent_indexes@.take(unsent_indexes@.len() as int) =~= unsent_indexes@);
                assert(unsent_indexes@.skip(unsent_indexes@.len() as int) =~= Seq::<
                    PlistValue,
                >::empty());
                assert(spec_rp_outcome(unsent_indexes@, 0) is Ok);
            }
        }
        proof {
            assert(spec_summary_outcome(*payload) is Ok);
        }
        Ok(EditedMessage { parts })
    }
}

/// The status before the unsent marks are applied.
pub open spec fn spec_part_status_pre_rp(root: Seq<(String, PlistValue)>, i: int) -> EditStatus {
    match spec_dict_get(root, "ec"@) {
        Some(PlistValue::Dictionary(ec)) => {
            if spec_ec_marks(ec@, i) {
                EditStatus::Edited
            } else {
                EditStatus::Original
            }
        },
        _ => EditStatus::Original,
    }
}

} // verus!
