//! Tests for message classification: variants, tapbacks, group actions,
//! announcements, expressive effects, edit records and read latency.
use imessage_undeleter::edited::{EditStatus, EditedMessage, EditedMessagePart};
use imessage_undeleter::message::Message;
use imessage_undeleter::variants::{
    Announcement, BubbleEffect, CustomBalloon, Expressive, GroupAction, ScreenEffect, Tapback,
    TapbackAction, Variant,
};

#[test]
fn can_get_valid_guid() {
    let mut m = Message::blank();
    m.associated_message_guid = Some("A44CE9D7-AAAA-BBBB-CCCC-23C54E1A9B6A".to_string());

    assert_eq!(
        Some((0usize, "A44CE9D7-AAAA-BBBB-CCCC-23C54E1A9B6A".to_string())),
        m.clean_associated_guid()
    );
}

#[test]
fn cant_get_invalid_guid() {
    let mut m = Message::blank();
    m.associated_message_guid = Some("FAKE_GUID".to_string());

    assert_eq!(None, m.clean_associated_guid());
}

#[test]
fn can_get_valid_guid_p() {
    let mut m = Message::blank();
    m.associated_message_guid = Some("p:1/A44CE9D7-AAAA-BBBB-CCCC-23C54E1A9B6A".to_string());

    assert_eq!(
        Some((1usize, "A44CE9D7-AAAA-BBBB-CCCC-23C54E1A9B6A".to_string())),
        m.clean_associated_guid()
    );
}

#[test]
fn cant_get_invalid_guid_p() {
    let mut m = Message::blank();
    m.associated_message_guid = Some("p:1/FAKE_GUID".to_string());

    assert_eq!(None, m.clean_associated_guid());
}

#[test]
fn can_get_valid_guid_bp() {
    let mut m = Message::blank();
    m.associated_message_guid = Some("bp:A44CE9D7-AAAA-BBBB-CCCC-23C54E1A9B6A".to_string());

    assert_eq!(
        Some((0usize, "A44CE9D7-AAAA-BBBB-CCCC-23C54E1A9B6A".to_string())),
        m.clean_associated_guid()
    );
}

#[test]
fn cant_get_invalid_guid_bp() {
    let mut m = Message::blank();
    m.associated_message_guid = Some("bp:FAKE_GUID".to_string());

    assert_eq!(None, m.clean_associated_guid());
}

#[test]
fn can_get_valid_guid_empty() {
    let mut m = Message::blank();
    m.associated_message_guid = Some(String::new());
    assert_eq!(None, m.clean_associated_guid());
}

#[test]
fn can_get_valid_guid_too_short() {
    let mut m = Message::blank();
    m.associated_message_guid = Some("A44CE9D7-AAAA-BBBB-CCCC".to_string());
    assert_eq!(None, m.clean_associated_guid());
}

#[test]
fn can_get_valid_guid_p_invalid_index() {
    let mut m = Message::blank();
    m.associated_message_guid =
        Some("p:invalid/A44CE9D7-AAAA-BBBB-CCCC-23C54E1A9B6A".to_string());
    assert_eq!(
        Some((0usize, "A44CE9D7-AAAA-BBBB-CCCC-23C54E1A9B6A".to_string())),
        m.clean_associated_guid()
    );
}

#[test]
fn test_standard_message() {
    let mut m = Message::blank();
    m.associated_message_type = Some(0);
    assert!(matches!(m.variant(), Variant::Normal));
}

#[test]
fn test_built_in_app_url() {
    let mut m = Message::blank();
    m.associated_message_type = Some(0);
    m.balloon_bundle_id = Some(
        "com.apple.messages.MSMessageExtensionBalloonPlugin:XXX:com.apple.messages.URLBalloonProvider".to_string(),
    );
    assert!(matches!(m.variant(), Variant::App(CustomBalloon::URL)));
}

#[test]
fn test_built_in_app_handwriting() {
    let mut m = Message::blank();
    m.associated_message_type = Some(0);
    m.balloon_bundle_id = Some(
        "com.apple.messages.MSMessageExtensionBalloonPlugin:XXX:com.apple.Handwriting.HandwritingProvider".to_string(),
    );
    assert!(matches!(m.variant(), Variant::App(CustomBalloon::Handwriting)));
}

#[test]
fn test_built_in_app_find_my() {
    let mut m = Message::blank();
    m.associated_message_type = Some(0);
    m.balloon_bundle_id = Some(
        "com.apple.messages.MSMessageExtensionBalloonPlugin:XXX:com.apple.findmy.FindMyMessagesApp".to_string(),
    );
    assert!(matches!(m.variant(), Variant::App(CustomBalloon::FindMy)));
}

#[test]
fn test_tapback_added_heart() {
    let mut m = Message::blank();
    m.associated_message_type = Some(2000);
    assert!(matches!(
        m.variant(),
        Variant::Tapback(0, TapbackAction::Added, Tapback::Loved)
    ));
}

#[test]
fn test_tapback_removed_like() {
    let mut m = Message::blank();
    m.associated_message_type = Some(3001);
    assert!(matches!(
        m.variant(),
        Variant::Tapback(0, TapbackAction::Removed, Tapback::Liked)
    ));
}

#[test]
fn test_sticker() {
    let mut m = Message::blank();
    m.associated_message_type = Some(1000);
    assert!(matches!(
        m.variant(),
        Variant::Tapback(0, TapbackAction::Added, Tapback::Sticker)
    ));
}

#[test]
fn test_shareplay() {
    let mut m = Message::blank();
    m.item_type = 6;
    assert!(matches!(m.variant(), Variant::SharePlay));
}

#[test]
fn test_custom_emoji_tapback() {
    let mut m = Message::blank();
    m.associated_message_type = Some(2006);
    m.associated_message_emoji = Some("🎉".to_owned());
    assert!(matches!(
        m.variant(),
        Variant::Tapback(0, TapbackAction::Added, Tapback::Emoji(Some("🎉")))
    ));
}

#[test]
fn can_get_variant_third_party_app() {
    let mut m = Message::blank();
    m.associated_message_type = Some(0);
    m.balloon_bundle_id = Some("com.apple.messages.MSMessageExtensionBalloonPlugin:QPU8QS3E62:com.contextoptional.OpenTable.Messages".to_owned());

    assert!(matches!(
        m.variant(),
        Variant::App(CustomBalloon::Application(
            "com.contextoptional.OpenTable.Messages"
        ))
    ));
}

#[test]
fn test_edited_message() {
    let mut m = Message::blank();
    m.date_edited = 1234567890;
    assert!(matches!(m.variant(), Variant::Edited));
}

#[test]
fn test_unknown_type() {
    let mut m = Message::blank();
    m.associated_message_type = Some(9999);
    assert!(matches!(m.variant(), Variant::Unknown(9999)));
}

#[test]
fn test_fitness_app() {
    let mut m = Message::blank();
    m.associated_message_type = Some(0);
    m.balloon_bundle_id = Some(
        "com.apple.messages.MSMessageExtensionBalloonPlugin:XXX:com.apple.ActivityMessagesApp.MessagesExtension".to_string(),
    );
    assert!(matches!(m.variant(), Variant::App(CustomBalloon::Fitness)));
}

#[test]
fn test_apple_pay_app() {
    let mut m = Message::blank();
    m.associated_message_type = Some(0);
    m.balloon_bundle_id = Some(
        "com.apple.messages.MSMessageExtensionBalloonPlugin:XXX:com.apple.PassbookUIService.PeerPaymentMessagesExtension".to_string(),
    );
    assert!(matches!(m.variant(), Variant::App(CustomBalloon::ApplePay)));
}

#[test]
fn test_slideshow_app() {
    let mut m = Message::blank();
    m.associated_message_type = Some(0);
    m.balloon_bundle_id = Some(
        "com.apple.messages.MSMessageExtensionBalloonPlugin:XXX:com.apple.mobileslideshow.PhotosMessagesApp".to_string(),
    );
    assert!(matches!(m.variant(), Variant::App(CustomBalloon::Slideshow)));
}

#[test]
fn test_check_in_app() {
    let mut m = Message::blank();
    m.associated_message_type = Some(0);
    m.balloon_bundle_id = Some(
        "com.apple.messages.MSMessageExtensionBalloonPlugin:XXX:com.apple.SafetyMonitorApp.SafetyMonitorMessages".to_string(),
    );
    assert!(matches!(m.variant(), Variant::App(CustomBalloon::CheckIn)));
}

#[test]
fn test_digital_touch_app() {
    let mut m = Message::blank();
    m.associated_message_type = Some(0);
    m.balloon_bundle_id = Some(
        "com.apple.messages.MSMessageExtensionBalloonPlugin:XXX:com.apple.DigitalTouchBalloonProvider".to_string(),
    );
    assert!(matches!(m.variant(), Variant::App(CustomBalloon::DigitalTouch)));
}

#[test]
fn test_removed_custom_emoji_tapback() {
    let mut m = Message::blank();
    m.associated_message_type = Some(3006);
    m.associated_message_emoji = Some("🎉".to_owned());
    assert!(matches!(
        m.variant(),
        Variant::Tapback(0, TapbackAction::Removed, Tapback::Emoji(Some("🎉")))
    ));
}

#[test]
fn test_sticker_reply() {
    let mut m = Message::blank();
    m.associated_message_type = Some(2007);
    assert!(matches!(
        m.variant(),
        Variant::Tapback(0, TapbackAction::Added, Tapback::Sticker)
    ));
}

#[test]
fn test_remove_sticker_reply() {
    let mut m = Message::blank();
    m.associated_message_type = Some(3007);
    assert!(matches!(
        m.variant(),
        Variant::Tapback(0, TapbackAction::Removed, Tapback::Sticker)
    ));
}

#[test]
fn test_group_action_participant_added() {
    let mut msg = Message::blank();
    msg.item_type = 1;
    msg.group_action_type = 0;
    msg.other_handle = Some(123);

    assert!(matches!(
        Message::group_action(&msg),
        Some(GroupAction::ParticipantAdded(123))
    ));
}

#[test]
fn test_group_action_participant_added_missing_handle() {
    let mut msg = Message::blank();
    msg.item_type = 1;
    msg.group_action_type = 0;
    msg.other_handle = None;

    assert!(Message::group_action(&msg).is_none());
}

#[test]
fn test_group_action_participant_removed() {
    let mut msg = Message::blank();
    msg.item_type = 1;
    msg.group_action_type = 1;
    msg.other_handle = Some(456);

    assert!(matches!(
        Message::group_action(&msg),
        Some(GroupAction::ParticipantRemoved(456))
    ));
}

#[test]
fn test_group_action_participant_removed_missing_handle() {
    let mut msg = Message::blank();
    msg.item_type = 1;
    msg.group_action_type = 1;
    msg.other_handle = None;

    assert!(Message::group_action(&msg).is_none());
}

#[test]
fn test_group_action_name_change() {
    let mut msg = Message::blank();
    msg.item_type = 2;
    msg.group_title = Some("New Group Name".to_string());

    assert!(matches!(
        Message::group_action(&msg),
        Some(GroupAction::NameChange("New Group Name"))
    ));
}

#[test]
fn test_group_action_name_change_missing_title() {
    let mut msg = Message::blank();
    msg.item_type = 2;
    msg.group_title = None;

    assert!(Message::group_action(&msg).is_none());
}

#[test]
fn test_group_action_participant_left() {
    let mut msg = Message::blank();
    msg.item_type = 3;
    msg.group_action_type = 0;

    assert!(matches!(
        Message::group_action(&msg),
        Some(GroupAction::ParticipantLeft)
    ));
}

#[test]
fn test_group_action_icon_changed() {
    let mut msg = Message::blank();
    msg.item_type = 3;
    msg.group_action_type = 1;

    assert!(matches!(
        Message::group_action(&msg),
        Some(GroupAction::GroupIconChanged)
    ));
}

#[test]
fn test_group_action_icon_removed() {
    let mut msg = Message::blank();
    msg.item_type = 3;
    msg.group_action_type = 2;

    assert!(matches!(
        Message::group_action(&msg),
        Some(GroupAction::GroupIconRemoved)
    ));
}

#[test]
fn test_announcement_participant_added() {
    let mut msg = Message::blank();
    msg.item_type = 1;
    msg.group_action_type = 0;
    msg.other_handle = Some(123);

    assert!(matches!(
        msg.get_announcement(),
        Some(Announcement::GroupAction(GroupAction::ParticipantAdded(123)))
    ));
}

#[test]
fn test_announcement_participant_removed() {
    let mut msg = Message::blank();
    msg.item_type = 1;
    msg.group_action_type = 1;
    msg.other_handle = Some(123);

    assert!(matches!(
        msg.get_announcement(),
        Some(Announcement::GroupAction(GroupAction::ParticipantRemoved(123)))
    ));
}

#[test]
fn test_announcement_name_change() {
    let mut msg = Message::blank();
    msg.item_type = 2;
    msg.group_title = Some("Test Group".to_string());

    assert!(matches!(
        msg.get_announcement(),
        Some(Announcement::GroupAction(GroupAction::NameChange("Test Group")))
    ));
}

#[test]
fn test_announcement_participant_left() {
    let mut msg = Message::blank();
    msg.item_type = 3;
    msg.group_action_type = 0;

    assert!(matches!(
        msg.get_announcement(),
        Some(Announcement::GroupAction(GroupAction::ParticipantLeft))
    ));
}

#[test]
fn test_announcement_icon_changed() {
    let mut msg = Message::blank();
    msg.item_type = 3;
    msg.group_action_type = 1;

    assert!(matches!(
        msg.get_announcement(),
        Some(Announcement::GroupAction(GroupAction::GroupIconChanged))
    ));
}

#[test]
fn test_announcement_icon_removed() {
    let mut msg = Message::blank();
    msg.item_type = 3;
    msg.group_action_type = 2;

    assert!(matches!(
        msg.get_announcement(),
        Some(Announcement::GroupAction(GroupAction::GroupIconRemoved))
    ));
}

#[test]
fn test_announcement_single_part_fully_unsent() {
    let mut msg = Message::blank();
    msg.edited_parts = Some(EditedMessage {
        parts: vec![EditedMessagePart {
            status: EditStatus::Unsent,
            edit_history: vec![],
        }],
    });

    assert!(matches!(msg.get_announcement(), Some(Announcement::FullyUnsent)));
}

#[test]
fn test_announcement_multi_part_fully_unsent() {
    let mut msg = Message::blank();
    msg.edited_parts = Some(EditedMessage {
        parts: vec![
            EditedMessagePart {
                status: EditStatus::Unsent,
                edit_history: vec![],
            },
            EditedMessagePart {
                status: EditStatus::Unsent,
                edit_history: vec![],
            },
        ],
    });

    assert!(matches!(msg.get_announcement(), Some(Announcement::FullyUnsent)));
}

#[test]
fn test_announcement_partially_unsent() {
    let mut msg = Message::blank();
    msg.edited_parts = Some(EditedMessage {
        parts: vec![
            EditedMessagePart {
                status: EditStatus::Unsent,
                edit_history: vec![],
            },
            EditedMessagePart {
                status: EditStatus::Edited,
                edit_history: vec![],
            },
        ],
    });

    assert!(msg.get_announcement().is_none());
}

#[test]
fn test_announcement_regular_message() {
    let msg = Message::blank();
    assert!(msg.get_announcement().is_none());
}

#[test]
fn test_announcement_edited_not_unsent() {
    let mut msg = Message::blank();
    msg.edited_parts = Some(EditedMessage {
        parts: vec![EditedMessagePart {
            status: EditStatus::Edited,
            edit_history: vec![],
        }],
    });

    assert!(msg.get_announcement().is_none());
}

#[test]
fn test_announcement_no_special_properties() {
    let mut msg = Message::blank();
    msg.item_type = 0;
    msg.group_action_type = 0;
    msg.edited_parts = None;

    assert!(msg.get_announcement().is_none());
}

#[test]
fn test_announcement_kept_audio_message() {
    let mut msg = Message::blank();
    msg.item_type = 5;

    assert!(matches!(msg.get_announcement(), Some(Announcement::AudioMessageKept)));
}

#[test]
fn can_get_message_expression_none() {
    let m = Message::blank();
    assert_eq!(m.get_expressive(), Expressive::NoEffect);
}

#[test]
fn can_get_message_expression_bubble() {
    let mut m = Message::blank();
    m.expressive_send_style_id = Some("com.apple.MobileSMS.expressivesend.gentle".to_string());
    assert_eq!(m.get_expressive(), Expressive::Bubble(BubbleEffect::Gentle));
}

#[test]
fn can_get_message_expression_screen() {
    let mut m = Message::blank();
    m.expressive_send_style_id =
        Some("com.apple.messages.effect.CKHappyBirthdayEffect".to_string());
    assert_eq!(m.get_expressive(), Expressive::Screen(ScreenEffect::Balloons));
}

#[test]
fn can_get_message_expression_slam() {
    let mut m = Message::blank();
    m.expressive_send_style_id = Some("com.apple.MobileSMS.expressivesend.impact".to_string());
    assert_eq!(m.get_expressive(), Expressive::Bubble(BubbleEffect::Slam));
}

#[test]
fn can_get_message_expression_invisible_ink() {
    let mut m = Message::blank();
    m.expressive_send_style_id =
        Some("com.apple.MobileSMS.expressivesend.invisibleink".to_string());
    assert_eq!(m.get_expressive(), Expressive::Bubble(BubbleEffect::InvisibleInk));
}

#[test]
fn can_get_message_expression_spotlight() {
    let mut m = Message::blank();
    m.expressive_send_style_id = Some("com.apple.messages.effect.CKSpotlightEffect".to_string());
    assert_eq!(m.get_expressive(), Expressive::Screen(ScreenEffect::Spotlight));
}

#[test]
fn can_get_message_expression_echo() {
    let mut m = Message::blank();
    m.expressive_send_style_id = Some("com.apple.messages.effect.CKEchoEffect".to_string());
    assert_eq!(m.get_expressive(), Expressive::Screen(ScreenEffect::Echo));
}

#[test]
fn can_get_message_expression_unknown() {
    let mut m = Message::blank();
    m.expressive_send_style_id = Some("com.apple.messages.effect.Unknown".to_string());
    assert_eq!(
        m.get_expressive(),
        Expressive::Unknown("com.apple.messages.effect.Unknown")
    );
}

#[test]
fn can_get_fully_unsent_true_single() {
    let mut m = Message::blank();
    m.edited_parts = Some(EditedMessage {
        parts: vec![EditedMessagePart {
            status: EditStatus::Unsent,
            edit_history: vec![],
        }],
    });

    assert!(m.is_fully_unsent());
}

#[test]
fn can_get_fully_unsent_true_multiple() {
    let mut m = Message::blank();
    m.edited_parts = Some(EditedMessage {
        parts: vec![
            EditedMessagePart {
                status: EditStatus::Unsent,
                edit_history: vec![],
            },
            EditedMessagePart {
                status: EditStatus::Unsent,
                edit_history: vec![],
            },
        ],
    });

    assert!(m.is_fully_unsent());
}

#[test]
fn can_get_fully_unsent_false() {
    let mut m = Message::blank();
    m.edited_parts = Some(EditedMessage {
        parts: vec![EditedMessagePart {
            status: EditStatus::Original,
            edit_history: vec![],
        }],
    });

    assert!(!m.is_fully_unsent());
}

#[test]
fn can_get_fully_unsent_false_multiple() {
    let mut m = Message::blank();
    m.edited_parts = Some(EditedMessage {
        parts: vec![
            EditedMessagePart {
                status: EditStatus::Unsent,
                edit_history: vec![],
            },
            EditedMessagePart {
                status: EditStatus::Original,
                edit_history: vec![],
            },
        ],
    });

    assert!(!m.is_fully_unsent());
}

#[test]
fn can_get_part_edited_true() {
    let mut m = Message::blank();
    m.edited_parts = Some(EditedMessage {
        parts: vec![
            EditedMessagePart {
                status: EditStatus::Edited,
                edit_history: vec![],
            },
            EditedMessagePart {
                status: EditStatus::Original,
                edit_history: vec![],
            },
        ],
    });

    assert!(m.is_part_edited(0));
}

#[test]
fn can_get_part_edited_false() {
    let mut m = Message::blank();
    m.edited_parts = Some(EditedMessage {
        parts: vec![
            EditedMessagePart {
                status: EditStatus::Edited,
                edit_history: vec![],
            },
            EditedMessagePart {
                status: EditStatus::Original,
                edit_history: vec![],
            },
        ],
    });

    assert!(!m.is_part_edited(1));
}

#[test]
fn can_get_part_edited_blank() {
    let m = Message::blank();

    assert!(!m.is_part_edited(0));
}

#[test]
fn can_get_fully_unsent_none() {
    let m = Message::blank();

    assert!(!m.is_fully_unsent());
}

#[test]
fn can_get_part_edited_multiple_parts() {
    let mut m = Message::blank();
    m.edited_parts = Some(EditedMessage {
        parts: vec![
            EditedMessagePart {
                status: EditStatus::Edited,
                edit_history: vec![],
            },
            EditedMessagePart {
                status: EditStatus::Edited,
                edit_history: vec![],
            },
        ],
    });

    assert!(m.is_part_edited(0));
    assert!(m.is_part_edited(1));
    assert!(!m.is_part_edited(2));
}

#[test]
fn can_get_fully_unsent_mixed_statuses() {
    let mut m = Message::blank();
    m.edited_parts = Some(EditedMessage {
        parts: vec![
            EditedMessagePart {
                status: EditStatus::Unsent,
                edit_history: vec![],
            },
            EditedMessagePart {
                status: EditStatus::Edited,
                edit_history: vec![],
            },
            EditedMessagePart {
                status: EditStatus::Original,
                edit_history: vec![],
            },
        ],
    });

    assert!(!m.is_fully_unsent());
}

#[test]
fn can_get_time_date_read_after_date() {
    let mut message = Message::blank();
    // May 17, 2022  8:29:42 PM
    message.date = 674526582885055488;
    // May 17, 2022  8:29:42 PM
    message.date_delivered = 674526582885055488;
    // May 17, 2022  9:30:31 PM
    message.date_read = 674530231992568192;

    assert_eq!(
        message.time_until_read(),
        Some("1 hour, 49 seconds".to_string())
    );
}

#[test]
fn can_get_time_date_read_before_date() {
    let mut message = Message::blank();
    // May 17, 2022  9:30:31 PM
    message.date = 674530231992568192;
    // May 17, 2022  9:30:31 PM
    message.date_delivered = 674530231992568192;
    // May 17, 2022  8:29:42 PM
    message.date_read = 674526582885055488;

    assert_eq!(message.time_until_read(), None);
}

#[test]
fn can_get_time_until_read_none() {
    let m = Message::blank();
    assert_eq!(m.time_until_read(), None);
}

#[test]
fn tapbacks_name_their_target_part() {
    // A custom emoji tapback aimed at part two of another message.
    let mut m = Message::blank();
    m.associated_message_type = Some(2006);
    m.associated_message_emoji = Some("🎉".to_string());
    m.associated_message_guid = Some("p:2/A44CE9D7-AAAA-BBBB-CCCC-23C54E1A9B6A".to_string());

    assert!(matches!(
        m.variant(),
        Variant::Tapback(2, TapbackAction::Added, Tapback::Emoji(Some("🎉")))
    ));
    assert!(m.is_tapback());
}
