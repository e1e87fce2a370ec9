//! A row of the `message` table and its classification.
use vstd::prelude::*;

use crate::edited::{EditStatus, EditedMessage, spec_fully_unsent};
use crate::models::Service;
use crate::text::{
    chars_start_with, parse_usize, spec_all_digits, spec_digits_value, spec_find_char,
    spec_is_digit, spec_replace_all, spec_split, spec_starts_with, split_chars, replace_all_chars,
    str_eq, string_from_chars,
};
use crate::typedstream::Archivable;
use crate::variants::{
    Announcement, BubbleEffect, CustomBalloon, Expressive, GroupAction, ScreenEffect, Tapback,
    TapbackAction, Variant, parse_balloon_bundle_id, spec_parse_balloon_bundle_id,
};

verus! {

broadcast use vstd::string::group_string_axioms;

/// A single row of the `message` table, with the joined columns the queries
/// add and the lazily decoded body fields.
#[derive(Debug)]
pub struct Message {
    pub rowid: i32,
    pub guid: String,
    /// The text of the message, populated from the decoded body.
    pub text: Option<String>,
    /// The service the message was sent from.
    pub service: Option<String>,
    /// The ID of the person who sent the message.
    pub handle_id: Option<i32>,
    /// The address the database owner received the message at.
    pub destination_caller_id: Option<String>,
    /// The content of the Subject field.
    pub subject: Option<String>,
    /// The date the message was written to the database.
    pub date: i64,
    /// The date the message was read.
    pub date_read: i64,
    /// The date the message was delivered.
    pub date_delivered: i64,
    /// Whether the database owner sent the message.
    pub is_from_me: bool,
    /// Whether the message was read by the recipient.
    pub is_read: bool,
    /// Intermediate data for determining the variant of a message.
    pub item_type: i32,
    /// The recipient of shared content, when present.
    pub other_handle: Option<i32>,
    /// Whether some shared data is active or inactive.
    pub share_status: bool,
    /// The direction shared data was sent in.
    pub share_direction: Option<bool>,
    /// The new name of the chat, when the message renames it.
    pub group_title: Option<String>,
    /// Nonzero when the message modified a group.
    pub group_action_type: i32,
    /// The GUID of a message associated with this one.
    pub associated_message_guid: Option<String>,
    /// Intermediate data for determining the variant of a message.
    pub associated_message_type: Option<i32>,
    /// The bundle id of the app that generated an app message.
    pub balloon_bundle_id: Option<String>,
    /// Intermediate data for determining the expressive effect.
    pub expressive_send_style_id: Option<String>,
    /// The first message in a thread of replies.
    pub thread_originator_guid: Option<String>,
    /// The part of a message a reply points to.
    pub thread_originator_part: Option<String>,
    /// The date the message was most recently edited.
    pub date_edited: i64,
    /// The emoji of a custom emoji tapback.
    pub associated_message_emoji: Option<String>,
    /// The chat the message belongs to.
    pub chat_id: Option<i32>,
    /// The number of attached files.
    pub num_attachments: i32,
    /// The chat the message was deleted from, when it is only recoverable.
    pub deleted_from: Option<i32>,
    /// The number of replies to the message.
    pub num_replies: i32,
    /// The decoded body components.
    pub components: Option<Vec<Archivable>>,
    /// The decoded edit records.
    pub edited_parts: Option<EditedMessage>,
}

/// What `clean_associated_guid` extracts from an associated-message GUID:
/// the target part index and the 36-character target GUID.
pub open spec fn spec_clean_guid(g: Seq<char>) -> Option<(int, Seq<char>)> {
    if spec_starts_with(g, "p:"@) {
        let parts = spec_split(g, '/');
        if parts.len() >= 2 {
            let index_str = spec_replace_all(parts[0], "p:"@, ""@);
            let idx: int = if spec_all_digits(index_str) && spec_digits_value(index_str)
                <= usize::MAX {
                spec_digits_value(index_str) as int
            } else {
                0
            };
            if parts[1].len() >= 36 {
                Some((idx, parts[1].take(36)))
            } else {
                None
            }
        } else {
            None
        }
    } else if spec_starts_with(g, "bp:"@) {
        if g.len() >= 39 {
            Some((0, g.subrange(3, 39)))
        } else {
            None
        }
    } else {
        if g.len() >= 36 {
            Some((0, g.take(36)))
        } else {
            None
        }
    }
}

/// The cleaned associated GUID of a message, when it has one.
pub open spec fn spec_clean_guid_of(m: &Message) -> Option<(int, Seq<char>)> {
    match m.associated_message_guid {
        Some(g) => spec_clean_guid(g@),
        None => None,
    }
}

/// The body-part index a tapback applies to.
pub open spec fn spec_tapback_index(m: &Message) -> int {
    match spec_clean_guid_of(m) {
        Some((idx, _)) => idx,
        None => 0,
    }
}

/// Whether every part of the message was unsent.
pub open spec fn spec_msg_fully_unsent(m: &Message) -> bool {
    match m.edited_parts {
        Some(e) => spec_fully_unsent(&e),
        None => false,
    }
}

/// The associated-message codes that mark tapbacks.
pub open spec fn spec_is_tapback_code(code: i32) -> bool {
    code == 1000 || (2000 <= code <= 2007) || (3000 <= code <= 3007)
}

/// The app bundle id a message's balloon routes to, when it has one.
pub open spec fn spec_bundle_of(m: &Message) -> Option<Seq<char>> {
    match m.balloon_bundle_id {
        Some(b) => spec_parse_balloon_bundle_id(b@),
        None => None,
    }
}

/// Does the tapback payload agree with the associated-message code?
pub open spec fn spec_tapback_matches<'a>(
    code: i32,
    emoji: Option<Seq<char>>,
    action: TapbackAction,
    kind: Tapback<'a>,
) -> bool {
    let added = (action == TapbackAction::Added);
    let base = if code >= 3000 {
        (code - 3000) as int
    } else {
        (code - 2000) as int
    };
    if code == 1000 {
        added && kind == Tapback::<'a>::Sticker
    } else {
        (if code < 3000 {
            added
        } else {
            !added
        }) && (match kind {
            Tapback::Loved => base == 0,
            Tapback::Liked => base == 1,
            Tapback::Disliked => base == 2,
            Tapback::Laughed => base == 3,
            Tapback::Emphasized => base == 4,
            Tapback::Questioned => base == 5,
            Tapback::Emoji(e) => base == 6 && (match (e, emoji) {
                (Some(x), Some(se)) => x@ == se,
                (Option::None, Option::None) => true,
                _ => false,
            }),
            Tapback::Sticker => base == 7,
        })
    }
}

/// Does the balloon payload agree with the parsed bundle id?
pub open spec fn spec_balloon_matches<'a>(b: Seq<char>, balloon: CustomBalloon<'a>) -> bool {
    match balloon {
        CustomBalloon::URL => b == "com.apple.messages.URLBalloonProvider"@,
        CustomBalloon::Handwriting => b == "com.apple.Handwriting.HandwritingProvider"@,
        CustomBalloon::DigitalTouch => b == "com.apple.DigitalTouchBalloonProvider"@,
        CustomBalloon::ApplePay => b == "com.apple.PassbookUIService.PeerPaymentMessagesExtension"@,
        CustomBalloon::Fitness => b == "com.apple.ActivityMessagesApp.MessagesExtension"@,
        CustomBalloon::Slideshow => b == "com.apple.mobileslideshow.PhotosMessagesApp"@,
        CustomBalloon::CheckIn => b == "com.apple.SafetyMonitorApp.SafetyMonitorMessages"@,
        CustomBalloon::FindMy => b == "com.apple.findmy.FindMyMessagesApp"@,
        CustomBalloon::Application(s) => s@ == b && b != "com.apple.messages.URLBalloonProvider"@
            && b != "com.apple.Handwriting.HandwritingProvider"@
            && b != "com.apple.DigitalTouchBalloonProvider"@
            && b != "com.apple.PassbookUIService.PeerPaymentMessagesExtension"@
            && b != "com.apple.ActivityMessagesApp.MessagesExtension"@
            && b != "com.apple.mobileslideshow.PhotosMessagesApp"@
            && b != "com.apple.SafetyMonitorApp.SafetyMonitorMessages"@
            && b != "com.apple.findmy.FindMyMessagesApp"@,
    }
}

/// Does the group action agree with the row's fields?
pub open spec fn spec_group_action_matches<'a>(m: &Message, ga: GroupAction<'a>) -> bool {
    match ga {
        GroupAction::ParticipantAdded(w) => m.item_type == 1 && m.group_action_type == 0
            && m.other_handle == Some(w),
        GroupAction::ParticipantRemoved(w) => m.item_type == 1 && m.group_action_type == 1
            && m.other_handle == Some(w),
        GroupAction::NameChange(n) => m.item_type == 2 && (match m.group_title {
            Some(t) => n@ == t@,
            Option::None => false,
        }),
        GroupAction::ParticipantLeft => m.item_type == 3 && m.group_action_type == 0,
        GroupAction::GroupIconChanged => m.item_type == 3 && m.group_action_type == 1,
        GroupAction::GroupIconRemoved => m.item_type == 3 && m.group_action_type == 2,
    }
}

/// Does the row describe a group action at all?
pub open spec fn spec_has_group_action(m: &Message) -> bool {
    (m.item_type == 1 && (m.group_action_type == 0 || m.group_action_type == 1)
        && m.other_handle is Some) || (m.item_type == 2 && m.group_title is Some) || (m.item_type
        == 3 && (m.group_action_type == 0 || m.group_action_type == 1 || m.group_action_type == 2))
}

impl<'a> GroupAction<'a> {
    /// The group action a message announces, if any.
    pub fn from_message(message: &'a Message) -> (r: Option<Self>)
        ensures
            match r {
                Some(ga) => spec_group_action_matches(message, ga),
                None => !spec_has_group_action(message),
            },
    {
        if message.item_type == 1 && message.group_action_type == 0
            && message.other_handle.is_some() {
            Some(GroupAction::ParticipantAdded(message.other_handle.unwrap()))
        } else if message.item_type == 1 && message.group_action_type == 1
            && message.other_handle.is_some() {
            Some(GroupAction::ParticipantRemoved(message.other_handle.unwrap()))
        } else if message.item_type == 2 && message.group_title.is_some() {
            match &message.group_title {
                Some(t) => Some(GroupAction::NameChange(t.as_str())),
                Option::None => Option::None,
            }
        } else if message.item_type == 3 && message.group_action_type == 0 {
            Some(GroupAction::ParticipantLeft)
        } else if message.item_type == 3 && message.group_action_type == 1 {
            Some(GroupAction::GroupIconChanged)
        } else if message.item_type == 3 && message.group_action_type == 2 {
            Some(GroupAction::GroupIconRemoved)
        } else {
            Option::None
        }
    }
}

/// The text a raw `attributedBody` blob yields: the first string object of
/// the full `typedstream` decode, and otherwise the marker-based fallback
/// parser's recovery.
pub open spec fn spec_body_text(b: Seq<u8>) -> Option<Seq<char>> {
    match crate::typedstream::spec_typedstream_decode(b) {
        Ok(items) => {
            if items.len() > 0 && crate::edited::model_nsstring(items[0]) is Some {
                crate::edited::model_nsstring(items[0])
            } else {
                crate::edited::spec_fallback_text(b)
            }
        },
        Err(_) => crate::edited::spec_fallback_text(b),
    }
}

impl Message {
    /// How long the message took to be read: the gap between receipt and
    /// reading for a received message, and between receipt and delivery for
    /// a sent one. Messages without the relevant timestamps have no
    /// latency.
    pub fn time_until_read(&self) -> (r: Option<String>)
        ensures
            match r {
                Some(s) => {
                    (!self.is_from_me && self.date_read != 0 && self.date != 0
                        && crate::dates::spec_readable_diff(self.date as int, self.date_read as int)
                        == Some(s@)) || (self.is_from_me && self.date_delivered != 0 && self.date
                        != 0 && crate::dates::spec_readable_diff(
                        self.date as int,
                        self.date_delivered as int,
                    ) == Some(s@))
                },
                Option::None => {
                    if !self.is_from_me && self.date_read != 0 && self.date != 0 {
                        crate::dates::spec_readable_diff(
                            self.date as int,
                            self.date_read as int,
                        ) is None
                    } else if self.is_from_me && self.date_delivered != 0 && self.date != 0 {
                        crate::dates::spec_readable_diff(
                            self.date as int,
                            self.date_delivered as int,
                        ) is None
                    } else {
                        true
                    }
                },
            },
    {
        if !self.is_from_me && self.date_read != 0 && self.date != 0 {
            crate::dates::readable_diff(self.date, self.date_read)
        } else if self.is_from_me && self.date_delivered != 0 && self.date != 0 {
            crate::dates::readable_diff(self.date, self.date_delivered)
        } else {
            Option::None
        }
    }

    /// `true` if the message is a response to a thread.
    pub fn is_reply(&self) -> (r: bool)
        ensures
            r == (self.thread_originator_guid is Some),
    {
        self.thread_originator_guid.is_some()
    }

    /// `true` if the message has an expressive send effect.
    pub fn is_expressive(&self) -> (r: bool)
        ensures
            r == (self.expressive_send_style_id is Some),
    {
        self.expressive_send_style_id.is_some()
    }

    /// `true` if the message was edited or unsent.
    pub fn is_edited(&self) -> (r: bool)
        ensures
            r == (self.date_edited != 0),
    {
        self.date_edited != 0
    }

    /// `true` if the given body part was edited.
    pub fn is_part_edited(&self, index: usize) -> (r: bool)
        ensures
            r == (match self.edited_parts {
                Some(e) => index < e.parts@.len() && e.parts@[index as int].status
                    == EditStatus::Edited,
                Option::None => false,
            }),
    {
        if let Some(edited_parts) = &self.edited_parts {
            if let Some(part) = edited_parts.part(index) {
                return matches!(part.status, EditStatus::Edited);
            }
        }
        false
    }

    /// `true` if every message component was unsent.
    pub fn is_fully_unsent(&self) -> (r: bool)
        ensures
            r == spec_msg_fully_unsent(self),
    {
        if let Some(ep) = &self.edited_parts {
            ep.is_fully_unsent()
        } else {
            false
        }
    }

    /// `true` if the message has attachments.
    pub fn has_attachments(&self) -> (r: bool)
        ensures
            r == (self.num_attachments > 0),
    {
        self.num_attachments > 0
    }

    /// `true` if the message begins a thread.
    pub fn has_replies(&self) -> (r: bool)
        ensures
            r == (self.num_replies > 0),
    {
        self.num_replies > 0
    }

    /// `true` if the message indicates a sent audio message was kept.
    pub fn is_kept_audio_message(&self) -> (r: bool)
        ensures
            r == (self.item_type == 5),
    {
        self.item_type == 5
    }

    /// `true` if the message is a SharePlay message.
    pub fn is_shareplay(&self) -> (r: bool)
        ensures
            r == (self.item_type == 6),
    {
        self.item_type == 6
    }

    /// `true` if the database owner sent the message, accounting for shared
    /// content sent to the owner.
    pub fn is_from_me(&self) -> (r: bool)
        ensures
            r == (match (self.other_handle, self.share_direction) {
                (Some(oh), Some(sd)) => self.is_from_me || (oh != 0 && !sd),
                _ => self.is_from_me,
            }),
    {
        if let (Some(other_handle), Some(share_direction)) = (
            self.other_handle,
            self.share_direction,
        ) {
            self.is_from_me || other_handle != 0 && !share_direction
        } else {
            self.is_from_me
        }
    }

    /// The group action the message announces, if any.
    pub fn group_action(&self) -> (r: Option<GroupAction<'_>>)
        ensures
            match r {
                Some(ga) => spec_group_action_matches(self, ga),
                None => !spec_has_group_action(self),
            },
    {
        GroupAction::from_message(self)
    }

    /// `true` if the message says the sender started sharing their location.
    pub fn started_sharing_location(&self) -> (r: bool)
        ensures
            r == (self.item_type == 4 && self.group_action_type == 0 && !self.share_status),
    {
        self.item_type == 4 && self.group_action_type == 0 && !self.share_status
    }

    /// `true` if the message says the sender stopped sharing their location.
    pub fn stopped_sharing_location(&self) -> (r: bool)
        ensures
            r == (self.item_type == 4 && self.group_action_type == 0 && self.share_status),
    {
        self.item_type == 4 && self.group_action_type == 0 && self.share_status
    }

    /// `true` if the message was deleted but is still recoverable.
    pub fn is_deleted(&self) -> (r: bool)
        ensures
            r == (self.deleted_from is Some),
    {
        self.deleted_from.is_some()
    }

    /// The service the message was sent from.
    pub fn service(&self) -> (r: Service<'_>)
        ensures
            match self.service {
                Option::None => r == Service::<'_>::Unknown,
                Some(ref s) => {
                    let t = crate::models::spec_trim(s@);
                    match r {
                        Service::iMessage => t == "iMessage"@,
                        Service::Satellite => t == "iMessageLite"@,
                        Service::SMS => t == "SMS"@,
                        Service::RCS => t == "rcs"@ || t == "RCS"@,
                        Service::Other(o) => o@ == t && t != "iMessage"@ && t != "iMessageLite"@
                            && t != "SMS"@ && t != "rcs"@ && t != "RCS"@,
                        Service::Unknown => false,
                    }
                },
            },
    {
        let s: Option<&str> = match &self.service {
            Some(v) => Some(v.as_str()),
            Option::None => Option::None,
        };
        Service::from(s)
    }

    /// The part index and target GUID encoded in the associated-message
    /// GUID: `p:<index>/<guid>` targets a normal part, `bp:<guid>` a balloon
    /// part, and a bare GUID part zero.
    pub fn clean_associated_guid(&self) -> (r: Option<(usize, String)>)
        ensures
            match (&self.associated_message_guid, &r) {
                (Some(g), Some((idx, id))) => spec_clean_guid(g@) == Some((*idx as int, id@)),
                (Some(g), Option::None) => spec_clean_guid(g@) is None,
                (Option::None, Option::None) => true,
                _ => false,
            },
    {
        if let Some(guid) = &self.associated_message_guid {
            let cs = crate::text::chars_of(guid.as_str());
            proof {
                reveal_strlit("p:");
            }
            if chars_start_with(cs.as_slice(), "p:") {
                let parts = split_chars(cs.as_slice(), '/');
                let ghost sparts = spec_split(guid@, '/');
                proof {
                    assert(parts.deep_view() == sparts);
                    assert(parts@[0].deep_view() =~= parts@[0]@);
                    assert(parts@[0]@ == sparts[0]);
                }
                if parts.len() < 2 {
                    return Option::None;
                }
                proof {
                    assert(parts@[1].deep_view() =~= parts@[1]@);
                    assert(parts@[1]@ == sparts[1]);
                }
                let index_str = replace_all_chars(parts[0].as_slice(), "p:", "");
                let index: usize = match parse_usize(index_str.as_slice()) {
                    Some(v) => v,
                    Option::None => 0,
                };
                let message_id = &parts[1];
                if message_id.len() < 36 {
                    return Option::None;
                }
                let (head, _) = message_id.as_slice().split_at(36);
                assert(head@ =~= sparts[1].take(36));
                let out = string_from_chars(head);
                assert(spec_clean_guid(guid@) == Some((index as int, out@)));
                Some((index, out))
            } else if chars_start_with(cs.as_slice(), "bp:") {
                if cs.len() < 39 {
                    return Option::None;
                }
                let (pre, _) = cs.as_slice().split_at(39);
                let (_, id) = pre.split_at(3);
                assert(id@ =~= guid@.subrange(3, 39));
                Some((0, string_from_chars(id)))
            } else {
                if cs.len() < 36 {
                    return Option::None;
                }
                let (head, _) = cs.as_slice().split_at(36);
                assert(head@ =~= guid@.take(36));
                Some((0, string_from_chars(head)))
            }
        } else {
            Option::None
        }
    }

    /// The part index a tapback applies to.
    pub fn tapback_index(&self) -> (r: usize)
        ensures
            r as int == spec_tapback_index(self),
    {
        match self.clean_associated_guid() {
            Some((x, _)) => x,
            Option::None => 0,
        }
    }

    /// The body part index a reply points to: the number before the `:` of
    /// `thread_originator_part`, or zero.
    pub fn get_reply_index(&self) -> (r: usize)
        ensures
            r as int == spec_reply_index(self),
    {
        if let Some(parts) = &self.thread_originator_part {
            let cs = crate::text::chars_of(parts.as_str());
            let segs = split_chars(cs.as_slice(), ':');
            proof {
                assert(segs.deep_view()[0] == segs@[0].deep_view());
                assert(segs@[0].deep_view() =~= segs@[0]@);
            }
            match parse_usize(segs[0].as_slice()) {
                Some(v) => v,
                Option::None => 0,
            }
        } else {
            0
        }
    }

    /// The classification of the message.
    pub fn variant(&self) -> (r: Variant<'_>)
        ensures
            match r {
                Variant::Edited => self.date_edited != 0,
                Variant::Tapback(idx, action, kind) => self.date_edited == 0 && (
                match self.associated_message_type {
                    Some(code) => spec_is_tapback_code(code) && idx as int == spec_tapback_index(
                        self,
                    ) && spec_tapback_matches(
                        code,
                        self.associated_message_emoji.deep_view(),
                        action,
                        kind,
                    ),
                    Option::None => false,
                }),
                Variant::App(balloon) => self.date_edited == 0 && (
                match self.associated_message_type {
                    Some(code) => (code == 0 || code == 2 || code == 3) && (match spec_bundle_of(
                        self,
                    ) {
                        Some(b) => spec_balloon_matches(b, balloon),
                        Option::None => false,
                    }),
                    Option::None => false,
                }),
                Variant::Normal => self.date_edited == 0 && (match self.associated_message_type {
                    Some(code) => (code == 0 || code == 2 || code == 3) && spec_bundle_of(
                        self,
                    ) is None,
                    Option::None => self.item_type != 6,
                }),
                Variant::SharePlay => self.date_edited == 0
                    && self.associated_message_type is None && self.item_type == 6,
                Variant::Unknown(x) => self.date_edited == 0 && self.associated_message_type
                    == Some(x) && !spec_is_tapback_code(x) && x != 0 && x != 2 && x != 3,
            },
    {
        if self.date_edited != 0 {
            return Variant::Edited;
        }
        if let Some(code) = self.associated_message_type {
            if code == 0 || code == 2 || code == 3 {
                let bundle: Option<&str> = match &self.balloon_bundle_id {
                    Some(b) => Some(b.as_str()),
                    Option::None => Option::None,
                };
                return match parse_balloon_bundle_id(bundle) {
                    Some(bundle_id) => {
                        if str_eq(bundle_id, "com.apple.messages.URLBalloonProvider") {
                            Variant::App(CustomBalloon::URL)
                        } else if str_eq(bundle_id, "com.apple.Handwriting.HandwritingProvider") {
                            Variant::App(CustomBalloon::Handwriting)
                        } else if str_eq(bundle_id, "com.apple.DigitalTouchBalloonProvider") {
                            Variant::App(CustomBalloon::DigitalTouch)
                        } else if str_eq(
                            bundle_id,
                            "com.apple.PassbookUIService.PeerPaymentMessagesExtension",
                        ) {
                            Variant::App(CustomBalloon::ApplePay)
                        } else if str_eq(
                            bundle_id,
                            "com.apple.ActivityMessagesApp.MessagesExtension",
                        ) {
                            Variant::App(CustomBalloon::Fitness)
                        } else if str_eq(bundle_id, "com.apple.mobileslideshow.PhotosMessagesApp") {
                            Variant::App(CustomBalloon::Slideshow)
                        } else if str_eq(
                            bundle_id,
                            "com.apple.SafetyMonitorApp.SafetyMonitorMessages",
                        ) {
                            Variant::App(CustomBalloon::CheckIn)
                        } else if str_eq(bundle_id, "com.apple.findmy.FindMyMessagesApp") {
                            Variant::App(CustomBalloon::FindMy)
                        } else {
                            Variant::App(CustomBalloon::Application(bundle_id))
                        }
                    },
                    Option::None => Variant::Normal,
                };
            }
            let emoji: Option<&str> = match &self.associated_message_emoji {
                Some(e) => Some(e.as_str()),
                Option::None => Option::None,
            };
            return if code == 1000 {
                Variant::Tapback(self.tapback_index(), TapbackAction::Added, Tapback::Sticker)
            } else if code == 2000 {
                Variant::Tapback(self.tapback_index(), TapbackAction::Added, Tapback::Loved)
            } else if code == 2001 {
                Variant::Tapback(self.tapback_index(), TapbackAction::Added, Tapback::Liked)
            } else if code == 2002 {
                Variant::Tapback(self.tapback_index(), TapbackAction::Added, Tapback::Disliked)
            } else if code == 2003 {
                Variant::Tapback(self.tapback_index(), TapbackAction::Added, Tapback::Laughed)
            } else if code == 2004 {
                Variant::Tapback(self.tapback_index(), TapbackAction::Added, Tapback::Emphasized)
            } else if code == 2005 {
                Variant::Tapback(self.tapback_index(), TapbackAction::Added, Tapback::Questioned)
            } else if code == 2006 {
                Variant::Tapback(self.tapback_index(), TapbackAction::Added, Tapback::Emoji(emoji))
            } else if code == 2007 {
                Variant::Tapback(self.tapback_index(), TapbackAction::Added, Tapback::Sticker)
            } else if code == 3000 {
                Variant::Tapback(self.tapback_index(), TapbackAction::Removed, Tapback::Loved)
            } else if code == 3001 {
                Variant::Tapback(self.tapback_index(), TapbackAction::Removed, Tapback::Liked)
            } else if code == 3002 {
                Variant::Tapback(self.tapback_index(), TapbackAction::Removed, Tapback::Disliked)
            } else if code == 3003 {
                Variant::Tapback(self.tapback_index(), TapbackAction::Removed, Tapback::Laughed)
            } else if code == 3004 {
                Variant::Tapback(self.tapback_index(), TapbackAction::Removed, Tapback::Emphasized)
            } else if code == 3005 {
                Variant::Tapback(self.tapback_index(), TapbackAction::Removed, Tapback::Questioned)
            } else if code == 3006 {
                Variant::Tapback(
                    self.tapback_index(),
                    TapbackAction::Removed,
                    Tapback::Emoji(emoji),
                )
            } else if code == 3007 {
                Variant::Tapback(self.tapback_index(), TapbackAction::Removed, Tapback::Sticker)
            } else {
                Variant::Unknown(code)
            };
        }
        if self.is_shareplay() {
            return Variant::SharePlay;
        }
        Variant::Normal
    }

    /// `true` if the message is a tapback to another message.
    pub fn is_tapback(&self) -> (r: bool)
        ensures
            r == (self.date_edited == 0 && (match self.associated_message_type {
                Some(code) => spec_is_tapback_code(code),
                Option::None => false,
            })),
    {
        matches!(self.variant(), Variant::Tapback(..))
    }

    /// `true` if the message is a URL preview.
    pub fn is_url(&self) -> (r: bool)
        ensures
            r == (self.date_edited == 0 && (match self.associated_message_type {
                Some(code) => (code == 0 || code == 2 || code == 3) && spec_bundle_of(self)
                    == Some("com.apple.messages.URLBalloonProvider"@),
                Option::None => false,
            })),
    {
        proof {
            lemma_balloon_bundles_distinct();
        }
        matches!(self.variant(), Variant::App(CustomBalloon::URL))
    }

    /// `true` if the message is a handwritten message.
    pub fn is_handwriting(&self) -> (r: bool)
        ensures
            r == (self.date_edited == 0 && (match self.associated_message_type {
                Some(code) => (code == 0 || code == 2 || code == 3) && spec_bundle_of(self)
                    == Some("com.apple.Handwriting.HandwritingProvider"@),
                Option::None => false,
            })),
    {
        proof {
            lemma_balloon_bundles_distinct();
        }
        matches!(self.variant(), Variant::App(CustomBalloon::Handwriting))
    }

    /// `true` if the message is a Digital Touch message.
    pub fn is_digital_touch(&self) -> (r: bool)
        ensures
            r == (self.date_edited == 0 && (match self.associated_message_type {
                Some(code) => (code == 0 || code == 2 || code == 3) && spec_bundle_of(self)
                    == Some("com.apple.DigitalTouchBalloonProvider"@),
                Option::None => false,
            })),
    {
        proof {
            lemma_balloon_bundles_distinct();
        }
        matches!(self.variant(), Variant::App(CustomBalloon::DigitalTouch))
    }

    /// The announcement the message makes, if any: a group action, a fully
    /// unsent message, or a kept audio message, in that order of precedence.
    pub fn get_announcement(&self) -> (r: Option<Announcement<'_>>)
        ensures
            match r {
                Some(a) => match a {
                    Announcement::GroupAction(ga) => spec_group_action_matches(self, ga),
                    Announcement::FullyUnsent => !spec_has_group_action(self)
                        && spec_msg_fully_unsent(self),
                    Announcement::AudioMessageKept => !spec_has_group_action(self)
                        && !spec_msg_fully_unsent(self) && self.item_type == 5,
                    Announcement::Unknown(_) => false,
                },
                None => !spec_has_group_action(self) && !spec_msg_fully_unsent(self)
                    && self.item_type != 5,
            },
    {
        if let Some(action) = self.group_action() {
            return Some(Announcement::GroupAction(action));
        }
        if self.is_fully_unsent() {
            return Some(Announcement::FullyUnsent);
        }
        if self.is_kept_audio_message() {
            return Some(Announcement::AudioMessageKept);
        }
        Option::None
    }

    /// `true` if the message makes an announcement.
    pub fn is_announcement(&self) -> (r: bool)
        ensures
            r == (spec_has_group_action(self) || spec_msg_fully_unsent(self) || self.item_type
                == 5),
    {
        self.get_announcement().is_some()
    }

    /// The expressive effect the message was sent with.
    pub fn get_expressive(&self) -> (r: Expressive<'_>)
        ensures
            match self.expressive_send_style_id {
                Option::None => r == Expressive::NoEffect,
                Some(ref content) => {
                    let c = content@;
                    match r {
                        Expressive::Bubble(BubbleEffect::Gentle) => c
                            == "com.apple.MobileSMS.expressivesend.gentle"@,
                        Expressive::Bubble(BubbleEffect::Slam) => c
                            == "com.apple.MobileSMS.expressivesend.impact"@,
                        Expressive::Bubble(BubbleEffect::InvisibleInk) => c
                            == "com.apple.MobileSMS.expressivesend.invisibleink"@,
                        Expressive::Bubble(BubbleEffect::Loud) => c
                            == "com.apple.MobileSMS.expressivesend.loud"@,
                        Expressive::Screen(ScreenEffect::Confetti) => c
                            == "com.apple.messages.effect.CKConfettiEffect"@,
                        Expressive::Screen(ScreenEffect::Echo) => c
                            == "com.apple.messages.effect.CKEchoEffect"@,
                        Expressive::Screen(ScreenEffect::Fireworks) => c
                            == "com.apple.messages.effect.CKFireworksEffect"@,
                        Expressive::Screen(ScreenEffect::Balloons) => c
                            == "com.apple.messages.effect.CKHappyBirthdayEffect"@,
                        Expressive::Screen(ScreenEffect::Heart) => c
                            == "com.apple.messages.effect.CKHeartEffect"@,
                        Expressive::Screen(ScreenEffect::Lasers) => c
                            == "com.apple.messages.effect.CKLasersEffect"@,
                        Expressive::Screen(ScreenEffect::ShootingStar) => c
                            == "com.apple.messages.effect.CKShootingStarEffect"@,
                        Expressive::Screen(ScreenEffect::Sparkles) => c
                            == "com.apple.messages.effect.CKSparklesEffect"@,
                        Expressive::Screen(ScreenEffect::Spotlight) => c
                            == "com.apple.messages.effect.CKSpotlightEffect"@,
                        Expressive::Unknown(u) => u@ == c
                            && c != "com.apple.MobileSMS.expressivesend.gentle"@
                            && c != "com.apple.MobileSMS.expressivesend.impact"@
                            && c != "com.apple.MobileSMS.expressivesend.invisibleink"@
                            && c != "com.apple.MobileSMS.expressivesend.loud"@
                            && c != "com.apple.messages.effect.CKConfettiEffect"@
                            && c != "com.apple.messages.effect.CKEchoEffect"@
                            && c != "com.apple.messages.effect.CKFireworksEffect"@
                            && c != "com.apple.messages.effect.CKHappyBirthdayEffect"@
                            && c != "com.apple.messages.effect.CKHeartEffect"@
                            && c != "com.apple.messages.effect.CKLasersEffect"@
                            && c != "com.apple.messages.effect.CKShootingStarEffect"@
                            && c != "com.apple.messages.effect.CKSparklesEffect"@
                            && c != "com.apple.messages.effect.CKSpotlightEffect"@,
                        Expressive::NoEffect => false,
                    }
                },
            },
    {
        match &self.expressive_send_style_id {
            Some(content) => {
                let s = content.as_str();
                if str_eq(s, "com.apple.MobileSMS.expressivesend.gentle") {
                    Expressive::Bubble(BubbleEffect::Gentle)
                } else if str_eq(s, "com.apple.MobileSMS.expressivesend.impact") {
                    Expressive::Bubble(BubbleEffect::Slam)
                } else if str_eq(s, "com.apple.MobileSMS.expressivesend.invisibleink") {
                    Expressive::Bubble(BubbleEffect::InvisibleInk)
                } else if str_eq(s, "com.apple.MobileSMS.expressivesend.loud") {
                    Expressive::Bubble(BubbleEffect::Loud)
                } else if str_eq(s, "com.apple.messages.effect.CKConfettiEffect") {
                    Expressive::Screen(ScreenEffect::Confetti)
                } else if str_eq(s, "com.apple.messages.effect.CKEchoEffect") {
                    Expressive::Screen(ScreenEffect::Echo)
                } else if str_eq(s, "com.apple.messages.effect.CKFireworksEffect") {
                    Expressive::Screen(ScreenEffect::Fireworks)
                } else if str_eq(s, "com.apple.messages.effect.CKHappyBirthdayEffect") {
                    Expressive::Screen(ScreenEffect::Balloons)
                } else if str_eq(s, "com.apple.messages.effect.CKHeartEffect") {
                    Expressive::Screen(ScreenEffect::Heart)
                } else if str_eq(s, "com.apple.messages.effect.CKLasersEffect") {
                    Expressive::Screen(ScreenEffect::Lasers)
                } else if str_eq(s, "com.apple.messages.effect.CKShootingStarEffect") {
                    Expressive::Screen(ScreenEffect::ShootingStar)
                } else if str_eq(s, "com.apple.messages.effect.CKSparklesEffect") {
                    Expressive::Screen(ScreenEffect::Sparkles)
                } else if str_eq(s, "com.apple.messages.effect.CKSpotlightEffect") {
                    Expressive::Screen(ScreenEffect::Spotlight)
                } else {
                    Expressive::Unknown(s)
                }
            },
            Option::None => Expressive::NoEffect,
        }
    }

    /// Populate the lazily decoded body fields from the raw column blobs:
    /// the components and text from `attributedBody`, falling back to the
    /// marker-based parser when the full decode yields no string, and the
    /// edit records from `message_summary_info` when the message was
    /// edited. The text that results is returned.
    pub fn generate_text(
        &mut self,
        body: Option<Vec<u8>>,
        summary: Option<&crate::plist::PlistValue>,
    ) -> (r: Option<String>)
        ensures
            final(self).text == r,
            match body {
                Some(b) => (match final(self).components {
                    Some(items) => crate::typedstream::spec_typedstream_decode(b@) == Ok::<
                        Seq<crate::typedstream::ArchivedItem>,
                        crate::typedstream::TypedStreamError,
                    >(crate::typedstream::items_model(items@)),
                    None => crate::typedstream::spec_typedstream_decode(b@) is Err,
                }) && final(self).text.deep_view() == spec_body_text(b@),
                None => final(self).components == old(self).components && final(self).text
                    == old(self).text,
            },
            (match summary {
                Some(p) => {
                    if old(self).date_edited != 0 {
                        &&& (crate::edited::spec_summary_outcome(*p) is Ok
                            ==> (final(self).edited_parts matches Some(ep)
                            && crate::edited::spec_summary_parts(*p, ep)))
                        &&& (crate::edited::spec_summary_outcome(*p) is Err
                            ==> final(self).edited_parts == old(self).edited_parts)
                    } else {
                        final(self).edited_parts == old(self).edited_parts
                    }
                },
                None => final(self).edited_parts == old(self).edited_parts,
            }),
    {
        if let Some(body_bytes) = body {
            let mut reader = crate::typedstream::TypedStreamReader::from(body_bytes.as_slice());
            let parsed = reader.parse();
            self.text = Option::None;
            match parsed {
                Ok(items) => {
                    if items.len() > 0 {
                        if let Some(t) = items[0].as_nsstring() {
                            proof {
                                assert(crate::typedstream::items_model(items@)[0]
                                    == crate::typedstream::item_model(items@[0]));
                                assert(crate::edited::model_nsstring(
                                    crate::typedstream::items_model(items@)[0],
                                ) == Some(t@));
                            }
                            self.text = Some(
                                crate::text::string_from_chars(crate::text::chars_of(t).as_slice()),
                            );
                        } else {
                            proof {
                                assert(crate::typedstream::items_model(items@)[0]
                                    == crate::typedstream::item_model(items@[0]));
                                assert(crate::edited::model_nsstring(
                                    crate::typedstream::items_model(items@)[0],
                                ) is None);
                            }
                        }
                    }
                    self.components = Some(items);
                },
                Err(_) => {
                    self.components = Option::None;
                },
            }
            if self.text.is_none() {
                let recovered = crate::streamtyped::parse(body_bytes);
                if let Ok(recovered_text) = recovered {
                    self.text = Some(recovered_text);
                }
            }
        }
        if self.date_edited != 0 {
            if let Some(payload) = summary {
                if let Ok(parsed) = EditedMessage::from_map(payload) {
                    self.edited_parts = Some(parsed);
                }
            }
        }
        match &self.text {
            Some(t) => Some(t.clone()),
            Option::None => Option::None,
        }
    }

    /// A message with every field empty, for building test rows.
    pub fn blank() -> (r: Message)
        ensures
            r.rowid == 0,
            r.text is None,
            r.handle_id == Some(0i32),
            r.destination_caller_id is None,
            r.subject is None,
            r.date == 0,
            r.date_read == 0,
            r.date_delivered == 0,
            !r.is_from_me,
            !r.is_read,
            r.item_type == 0,
            r.other_handle is None,
            !r.share_status,
            r.share_direction is None,
            r.group_title is None,
            r.group_action_type == 0,
            r.associated_message_guid is None,
            r.associated_message_type is None,
            r.balloon_bundle_id is None,
            r.expressive_send_style_id is None,
            r.thread_originator_guid is None,
            r.thread_originator_part is None,
            r.date_edited == 0,
            r.associated_message_emoji is None,
            r.chat_id is None,
            r.num_attachments == 0,
            r.deleted_from is None,
            r.num_replies == 0,
            r.components is None,
            r.edited_parts is None,
            r.guid@ == Seq::<char>::empty(),
            r.service.deep_view() == Some("iMessage"@),
    {
        Message {
            rowid: 0,
            guid: String::new(),
            text: Option::None,
            service: Some(String::from_str("iMessage")),
            handle_id: Some(0),
            destination_caller_id: Option::None,
            subject: Option::None,
            date: 0,
            date_read: 0,
            date_delivered: 0,
            is_from_me: false,
            is_read: false,
            item_type: 0,
            other_handle: Option::None,
            share_status: false,
            share_direction: Option::None,
            group_title: Option::None,
            group_action_type: 0,
            associated_message_guid: Option::None,
            associated_message_type: Option::None,
            balloon_bundle_id: Option::None,
            expressive_send_style_id: Option::None,
            thread_originator_guid: Option::None,
            thread_originator_part: Option::None,
            date_edited: 0,
            associated_message_emoji: Option::None,
            chat_id: Option::None,
            num_attachments: 0,
            deleted_from: Option::None,
            num_replies: 0,
            components: Option::None,
            edited_parts: Option::None,
        }
    }
}

/// The known balloon provider bundle ids are pairwise distinct.
proof fn lemma_balloon_bundles_distinct()
    ensures
        "com.apple.messages.URLBalloonProvider"@ != "com.apple.Handwriting.HandwritingProvider"@,
        "com.apple.messages.URLBalloonProvider"@ != "com.apple.DigitalTouchBalloonProvider"@,
        "com.apple.messages.URLBalloonProvider"@
            != "com.apple.PassbookUIService.PeerPaymentMessagesExtension"@,
        "com.apple.messages.URLBalloonProvider"@
            != "com.apple.ActivityMessagesApp.MessagesExtension"@,
        "com.apple.messages.URLBalloonProvider"@
            != "com.apple.mobileslideshow.PhotosMessagesApp"@,
        "com.apple.messages.URLBalloonProvider"@
            != "com.apple.SafetyMonitorApp.SafetyMonitorMessages"@,
        "com.apple.messages.URLBalloonProvider"@ != "com.apple.findmy.FindMyMessagesApp"@,
        "com.apple.Handwriting.HandwritingProvider"@ != "com.apple.DigitalTouchBalloonProvider"@,
        "com.apple.Handwriting.HandwritingProvider"@
            != "com.apple.PassbookUIService.PeerPaymentMessagesExtension"@,
        "com.apple.Handwriting.HandwritingProvider"@
            != "com.apple.ActivityMessagesApp.MessagesExtension"@,
        "com.apple.Handwriting.HandwritingProvider"@
            != "com.apple.mobileslideshow.PhotosMessagesApp"@,
        "com.apple.Handwriting.HandwritingProvider"@
            != "com.apple.SafetyMonitorApp.SafetyMonitorMessages"@,
        "com.apple.Handwriting.HandwritingProvider"@ != "com.apple.findmy.FindMyMessagesApp"@,
        "com.apple.DigitalTouchBalloonProvider"@
            != "com.apple.PassbookUIService.PeerPaymentMessagesExtension"@,
        "com.apple.DigitalTouchBalloonProvider"@
            != "com.apple.ActivityMessagesApp.MessagesExtension"@,
        "com.apple.DigitalTouchBalloonProvider"@
            != "com.apple.mobileslideshow.PhotosMessagesApp"@,
        "com.apple.DigitalTouchBalloonProvider"@
            != "com.apple.SafetyMonitorApp.SafetyMonitorMessages"@,
        "com.apple.DigitalTouchBalloonProvider"@ != "com.apple.findmy.FindMyMessagesApp"@,
{
    reveal_strlit("com.apple.messages.URLBalloonProvider");
    reveal_strlit("com.apple.Handwriting.HandwritingProvider");
    reveal_strlit("com.apple.DigitalTouchBalloonProvider");
    reveal_strlit("com.apple.PassbookUIService.PeerPaymentMessagesExtension");
    reveal_strlit("com.apple.ActivityMessagesApp.MessagesExtension");
    reveal_strlit("com.apple.mobileslideshow.PhotosMessagesApp");
    reveal_strlit("com.apple.SafetyMonitorApp.SafetyMonitorMessages");
    reveal_strlit("com.apple.findmy.FindMyMessagesApp");
    assert("com.apple.messages.URLBalloonProvider"@.len() == 37);
    assert("com.apple.Handwriting.HandwritingProvider"@.len() == 41);
    assert("com.apple.DigitalTouchBalloonProvider"@.len() == 37);
    assert("com.apple.PassbookUIService.PeerPaymentMessagesExtension"@.len() == 56);
    assert("com.apple.ActivityMessagesApp.MessagesExtension"@.len() == 47);
    assert("com.apple.mobileslideshow.PhotosMessagesApp"@.len() == 43);
    assert("com.apple.SafetyMonitorApp.SafetyMonitorMessages"@.len() == 48);
    assert("com.apple.findmy.FindMyMessagesApp"@.len() == 34);
    assert("com.apple.messages.URLBalloonProvider"@[10] == 'm');
    assert("com.apple.DigitalTouchBalloonProvider"@[10] == 'D');
}

/// The body part index a reply points to.
pub open spec fn spec_reply_index(m: &Message) -> int {
    match m.thread_originator_part {
        Some(p) => {
            let seg = spec_split(p@, ':')[0];
            if spec_all_digits(seg) && spec_digits_value(seg) <= usize::MAX {
                spec_digits_value(seg) as int
            } else {
                0
            }
        },
        Option::None => 0,
    }
}


/// Whatever an associated GUID cleans to has a non-negative part index and
/// a thirty-six character target GUID.
pub proof fn lemma_clean_guid_shape(g: Seq<char>)
    ensures
        match spec_clean_guid(g) {
            Some((i, s)) => i >= 0 && s.len() == 36,
            None => true,
        },
{
}

/// A separator absent from a string is not found in it.
proof fn lemma_find_absent(s: Seq<char>, sep: char)
    requires
        forall|j: int| 0 <= j < s.len() ==> s[j] != sep,
    ensures
        spec_find_char(s, sep) == s.len(),
    decreases s.len(),
{
    if s.len() > 0 {
        assert forall|j: int| 0 <= j < s.drop_first().len() implies s.drop_first()[j] != sep by {
            assert(s.drop_first()[j] == s[j + 1]);
        }
        lemma_find_absent(s.drop_first(), sep);
    }
}

/// The first separator of `a`, a separator, then `b` stands right after
/// `a` when `a` holds none.
proof fn lemma_find_concat(a: Seq<char>, b: Seq<char>, sep: char)
    requires
        forall|j: int| 0 <= j < a.len() ==> a[j] != sep,
    ensures
        spec_find_char(a + seq![sep] + b, sep) == a.len(),
    decreases a.len(),
{
    let g = a + seq![sep] + b;
    if a.len() == 0 {
        assert(g[0] == sep);
    } else {
        assert(g[0] == a[0]);
        assert forall|j: int| 0 <= j < a.drop_first().len() implies a.drop_first()[j] != sep by {
            assert(a.drop_first()[j] == a[j + 1]);
        }
        lemma_find_concat(a.drop_first(), b, sep);
        assert(g.drop_first() =~= a.drop_first() + seq![sep] + b);
    }
}

/// Removing the tapback prefix from a digit run changes nothing.
proof fn lemma_replace_digits(s: Seq<char>)
    requires
        forall|j: int| 0 <= j < s.len() ==> spec_is_digit(#[trigger] s[j]),
    ensures
        spec_replace_all(s, "p:"@, ""@) == s,
    decreases s.len(),
{
    reveal_strlit("p:");
    reveal_strlit("");
    if s.len() > 0 {
        assert(!spec_starts_with(s, "p:"@)) by {
            if spec_starts_with(s, "p:"@) {
                assert(s.take(2)[0] == 'p');
                assert(spec_is_digit(s[0]));
            }
        }
        assert forall|j: int| 0 <= j < s.drop_first().len() implies spec_is_digit(
            #[trigger] s.drop_first()[j],
        ) by {
            assert(s.drop_first()[j] == s[j + 1]);
        }
        lemma_replace_digits(s.drop_first());
        assert(spec_replace_all(s, "p:"@, ""@) =~= s);
    } else {
        assert(spec_replace_all(s, "p:"@, ""@) =~= s);
    }
}

/// A part-targeted associated GUID, `p:` then the part index and the
/// target, cleans to that index and target.
pub proof fn lemma_clean_guid_part_form(index_digits: Seq<char>, id: Seq<char>)
    requires
        spec_all_digits(index_digits),
        spec_digits_value(index_digits) <= usize::MAX,
        id.len() == 36,
        forall|j: int| 0 <= j < id.len() ==> id[j] != '/',
    ensures
        spec_clean_guid("p:"@ + index_digits + seq!['/'] + id) == Some(
            (spec_digits_value(index_digits) as int, id),
        ),
{
    reveal_strlit("p:");
    let head = "p:"@ + index_digits;
    let g = head + seq!['/'] + id;
    assert(spec_starts_with(g, "p:"@)) by {
        assert(g.take(2) =~= "p:"@);
    }
    assert forall|j: int| 0 <= j < head.len() implies head[j] != '/' by {
        if j < 2 {
            assert("p:"@[0] == 'p' && "p:"@[1] == ':');
        } else {
            assert(head[j] == index_digits[j - 2]);
            assert(spec_is_digit(index_digits[j - 2]));
        }
    }
    lemma_find_concat(head, id, '/');
    crate::text::lemma_find_char(g, '/');
    let i = spec_find_char(g, '/');
    assert(i == head.len());
    let parts = spec_split(g, '/');
    assert(parts =~= seq![g.take(i)] + spec_split(g.skip(i + 1), '/'));
    assert(g.take(i) =~= head);
    assert(g.skip(i + 1) =~= id);
    lemma_find_absent(id, '/');
    assert(spec_split(id, '/') =~= seq![id]);
    assert(parts.len() == 2);
    assert(parts[0] == head);
    assert(parts[1] == id);
    assert(spec_replace_all(head, "p:"@, ""@) == index_digits) by {
        assert(spec_starts_with(head, "p:"@)) by {
            assert(head.take(2) =~= "p:"@);
        }
        assert(head.skip(2) =~= index_digits);
        lemma_replace_digits(index_digits);
        assert(spec_replace_all(head, "p:"@, ""@) =~= ""@ + spec_replace_all(
            index_digits,
            "p:"@,
            ""@,
        ));
        reveal_strlit("");
        assert(""@ + index_digits =~= index_digits);
    }
    assert(id.take(36) =~= id);
}

/// A balloon-part associated GUID, `bp:` then the target, cleans to part
/// zero and the target.
pub proof fn lemma_clean_guid_balloon_form(id: Seq<char>)
    requires
        id.len() == 36,
    ensures
        spec_clean_guid("bp:"@ + id) == Some((0int, id)),
{
    reveal_strlit("bp:");
    reveal_strlit("p:");
    let g = "bp:"@ + id;
    assert(!spec_starts_with(g, "p:"@)) by {
        if spec_starts_with(g, "p:"@) {
            assert(g.take(2)[0] == 'p');
            assert(g[0] == 'b');
        }
    }
    assert(spec_starts_with(g, "bp:"@)) by {
        assert(g.take(3) =~= "bp:"@);
    }
    assert(g.subrange(3, 39) =~= id);
}

/// A bare associated GUID cleans to part zero and its first thirty-six
/// characters.
pub proof fn lemma_clean_guid_bare_form(id: Seq<char>)
    requires
        id.len() == 36,
        !spec_starts_with(id, "p:"@),
        !spec_starts_with(id, "bp:"@),
    ensures
        spec_clean_guid(id) == Some((0int, id)),
{
    assert(id.take(36) =~= id);
}

} // verus!
