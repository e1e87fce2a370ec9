//! The different kinds of message a row of the `message` table can carry:
//! normal texts, edits, tapbacks, app balloons, SharePlay invitations, and
//! the expressive send effects.
use vstd::prelude::*;

use crate::text::{spec_find_char, spec_split};

verus! {

/// A reaction applied to a specific part of another message.
#[derive(Debug, PartialEq, Eq)]
pub enum Tapback<'a> {
    /// Heart.
    Loved,
    /// Thumbs up.
    Liked,
    /// Thumbs down.
    Disliked,
    /// Laughing face.
    Laughed,
    /// Exclamation points.
    Emphasized,
    /// Question marks.
    Questioned,
    /// A custom emoji tapback.
    Emoji(Option<&'a str>),
    /// A custom sticker tapback.
    Sticker,
}

/// Whether a tapback was applied or withdrawn.
#[derive(Debug, PartialEq, Eq)]
pub enum TapbackAction {
    /// The tapback was added to the message.
    Added,
    /// The tapback was removed from the message.
    Removed,
}

/// The balloon an app-generated message renders in.
#[derive(Debug, PartialEq, Eq)]
pub enum CustomBalloon<'a> {
    /// A third-party application, carrying its bundle id.
    Application(&'a str),
    /// A URL preview.
    URL,
    /// A handwritten animated message.
    Handwriting,
    /// A Digital Touch message.
    DigitalTouch,
    /// An Apple Pay transaction.
    ApplePay,
    /// A Fitness app message.
    Fitness,
    /// A Photos slideshow message.
    Slideshow,
    /// A Check In message.
    CheckIn,
    /// A Find My message.
    FindMy,
}

/// A group announcement.
#[derive(Debug, PartialEq, Eq)]
pub enum GroupAction<'a> {
    /// A new participant has been added to the group.
    ParticipantAdded(i32),
    /// A participant has been removed from the group.
    ParticipantRemoved(i32),
    /// The group name has been changed.
    NameChange(&'a str),
    /// A participant has voluntarily left the group.
    ParticipantLeft,
    /// The group icon has been updated with a new image.
    GroupIconChanged,
    /// The group icon has been removed.
    GroupIconRemoved,
}

/// A message sent to a thread for an action that is not a balloon.
#[derive(Debug, PartialEq, Eq)]
pub enum Announcement<'a> {
    /// All parts of the message were unsent.
    FullyUnsent,
    /// A group action.
    GroupAction(GroupAction<'a>),
    /// A user kept an audio message.
    AudioMessageKept,
    /// Kinds that may occur in the future.
    Unknown(&'a i32),
}

/// The classification of one message row.
#[derive(Debug, PartialEq, Eq)]
pub enum Variant<'a> {
    /// A standard text body that may include attachments.
    Normal,
    /// A message that has been edited or unsent.
    Edited,
    /// A tapback; the index selects the body part it applies to.
    Tapback(usize, TapbackAction, Tapback<'a>),
    /// An app-generated message.
    App(CustomBalloon<'a>),
    /// A SharePlay message.
    SharePlay,
    /// Codes this library does not recognise.
    Unknown(i32),
}

/// A bubble-effect send style.
#[derive(Debug, PartialEq, Eq)]
pub enum BubbleEffect {
    Slam,
    Loud,
    Gentle,
    InvisibleInk,
}

/// A full-screen send effect.
#[derive(Debug, PartialEq, Eq)]
pub enum ScreenEffect {
    Confetti,
    Echo,
    Fireworks,
    Balloons,
    Heart,
    Lasers,
    ShootingStar,
    Sparkles,
    Spotlight,
}

/// The expressive effect a message was sent with, if any.
#[derive(Debug, PartialEq, Eq)]
pub enum Expressive<'a> {
    /// A full-screen effect.
    Screen(ScreenEffect),
    /// A bubble effect.
    Bubble(BubbleEffect),
    /// An effect identifier this library does not recognise.
    Unknown(&'a str),
    /// The message was sent without an effect.
    NoEffect,
}

/// The app bundle id named by a balloon bundle id: the whole string when it
/// has no `:`-separated parts, its third part when it has at least three,
/// and nothing otherwise.
pub open spec fn spec_parse_balloon_bundle_id(id: Seq<char>) -> Option<Seq<char>> {
    let parts = spec_split(id, ':');
    if parts.len() == 1 {
        Some(parts[0])
    } else if parts.len() >= 3 {
        Some(parts[2])
    } else {
        None
    }
}

/// Parse an app's bundle id out of a balloon's bundle id.
///
/// A plain id such as `com.apple.messages.URLBalloonProvider` is returned
/// whole; an extension id such as
/// `com.apple.messages.MSMessageExtensionBalloonPlugin:0000000000:com.example.App`
/// yields its third `:`-separated part.
pub fn parse_balloon_bundle_id<'a>(bundle_id: Option<&'a str>) -> (r: Option<&'a str>)
    ensures
        match bundle_id {
            Option::None => r is None,
            Option::Some(id) => match r {
                Option::Some(out) => spec_parse_balloon_bundle_id(id@) == Some(out@),
                Option::None => spec_parse_balloon_bundle_id(id@) is None,
            },
        },
{
    match bundle_id {
        Option::None => Option::None,
        Option::Some(id) => {
            let cs = crate::text::chars_of(id);
            let n = cs.len();
            let ghost parts = spec_split(id@, ':');
            let i = crate::text::find_char(cs.as_slice(), ':');
            if i == n {
                assert(parts =~= seq![id@]);
                return Option::Some(id);
            }
            // At least two parts: the third is returned if it exists.
            let (_, rest1) = cs.as_slice().split_at(i + 1);
            assert(rest1@ =~= id@.skip(i + 1));
            let ghost parts1 = spec_split(id@.skip(i + 1), ':');
            proof {
                assert(parts =~= seq![id@.take(i as int)] + parts1);
            }
            let j = crate::text::find_char(rest1, ':');
            if j == rest1.len() {
                assert(parts1 =~= seq![id@.skip(i + 1)]);
                assert(parts.len() == 2);
                return Option::None;
            }
            let start = i + 1 + j + 1;
            let (_, rest2) = cs.as_slice().split_at(start);
            assert(rest2@ =~= id@.skip(start as int));
            let ghost parts2 = spec_split(id@.skip(start as int), ':');
            proof {
                assert(spec_find_char(id@.skip(i + 1), ':') == j);
                assert(id@.skip(i + 1).skip(j + 1) =~= id@.skip(start as int));
                assert(parts1 =~= seq![id@.skip(i + 1).take(j as int)] + parts2);
                assert(parts.len() >= 3);
                assert(parts[2] == parts2[0]);
            }
            let k = crate::text::find_char(rest2, ':');
            proof {
                if k == rest2@.len() {
                    assert(parts2 =~= seq![id@.skip(start as int)]);
                } else {
                    assert(parts2 =~= seq![id@.skip(start as int).take(k as int)] + spec_split(
                        id@.skip(start as int).skip(k + 1),
                        ':',
                    ));
                }
                assert(parts2[0] =~= id@.skip(start as int).take(k as int));
                assert(id@.skip(start as int).take(k as int) =~= id@.subrange(
                    start as int,
                    start + k,
                ));
            }
            let out = vstd::string::StrSliceExecFns::substring_char(id, start, start + k);
            Option::Some(out)
        },
    }
}

} // verus!
