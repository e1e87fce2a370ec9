//! Scenario tests: the typedstream decoder, the archive walker, the edit
//! records, the snapshot differ and the schema fallback.
use imessage_undeleter::dates::readable_diff;
use imessage_undeleter::differ::{
    Differ, TrackedMessage, deletion_alert_line, find_min_attachment_number, is_deletion_event,
    record_header, record_image_line, record_text_line, relative_path, tmp_attachment_path,
    untracked_line, who,
};
use imessage_undeleter::edited::{EditStatus, EditedMessage, EditedParseError};
use imessage_undeleter::message::Message;
use imessage_undeleter::plist::{PlistValue, parse_ns_keyed_archiver};
use imessage_undeleter::queries::{ios_14_15_query, ios_16_newer_query};
use imessage_undeleter::streamtyped;
use imessage_undeleter::typedstream::{Archivable, Class, OutputData, TypedStreamReader};

/// The header of a typedstream archive.
fn stream_header() -> Vec<u8> {
    let mut bytes: Vec<u8> = vec![0x04, 0x0b];
    bytes.extend_from_slice(b"streamtyped");
    bytes.extend_from_slice(&[0x81, 0xe8, 0x03]);
    bytes
}

/// A typedstream archive carrying one string object and one data run.
fn fixture_stream(text: &str) -> Vec<u8> {
    let mut bytes = stream_header();
    // One object: the body string.
    bytes.extend_from_slice(&[0x84, 0x01, 0x40]);
    bytes.push(0x84);
    bytes.extend_from_slice(&[0x84, 0x08]);
    bytes.extend_from_slice(b"NSString");
    bytes.push(0x01);
    bytes.push(0x85);
    bytes.extend_from_slice(&[0x84, 0x01, 0x2b]);
    bytes.push(text.len() as u8);
    bytes.extend_from_slice(text.as_bytes());
    // One attribute run: a part index and a length.
    bytes.extend_from_slice(&[0x86, 0x84, 0x02, 0x69, 0x69, 0x01, 0x05]);
    bytes
}

#[test]
fn decodes_a_string_object_and_a_data_run() {
    let bytes = fixture_stream("Hello");
    let mut reader = TypedStreamReader::from(&bytes);
    let result = reader.parse().unwrap();

    let expected = vec![
        Archivable::Object(
            Class { name: "NSString".to_string(), version: 1 },
            vec![OutputData::String("Hello".to_string())],
        ),
        Archivable::Data(vec![OutputData::SignedInteger(1), OutputData::SignedInteger(5)]),
    ];
    assert_eq!(result, expected);
    assert_eq!(result[0].as_nsstring(), Some("Hello"));
}

#[test]
fn resolves_object_back_references() {
    let mut bytes = fixture_stream("Hi");
    // The same object again: a type-table reference and an object-table
    // reference.
    bytes.extend_from_slice(&[0x92, 0x92]);
    let mut reader = TypedStreamReader::from(&bytes);
    let result = reader.parse().unwrap();
    assert_eq!(result.len(), 3);
    assert_eq!(result[2].as_nsstring(), Some("Hi"));
}

#[test]
fn rejects_a_bad_header() {
    let bytes: Vec<u8> = vec![0x05, 0x0b];
    let mut reader = TypedStreamReader::from(&bytes);
    assert!(reader.parse().is_err());
}

#[test]
fn rejects_a_dangling_reference() {
    let mut bytes = stream_header();
    bytes.extend_from_slice(&[0x84, 0x01, 0x40, 0x9f]);
    let mut reader = TypedStreamReader::from(&bytes);
    assert!(reader.parse().is_err());
}

#[test]
fn decodes_integer_widths_at_their_boundaries() {
    let mut bytes = stream_header();
    // A run of four signed integers across the width tags.
    bytes.extend_from_slice(&[0x84, 0x04, 0x69, 0x69, 0x69, 0x69]);
    bytes.push(0x7f);
    bytes.extend_from_slice(&[0x81, 0x00, 0x80]);
    bytes.extend_from_slice(&[0x82, 0x00, 0x00, 0x00, 0x80]);
    bytes.extend_from_slice(&[0x83, 0x00, 0x00, 0x00, 0x00, 0x00, 0x00, 0x00, 0x80]);
    let mut reader = TypedStreamReader::from(&bytes);
    let result = reader.parse().unwrap();
    assert_eq!(
        result,
        vec![Archivable::Data(vec![
            OutputData::SignedInteger(127),
            OutputData::SignedInteger(-32768),
            OutputData::SignedInteger(-2147483648),
            OutputData::SignedInteger(i64::MIN),
        ])]
    );
}

#[test]
fn body_text_agrees_with_the_fallback_parser() {
    // The archive embeds the fallback parser's start marker in its type run
    // and its end marker after the text, so both parsers see the body.
    let bytes = fixture_stream("Hello");
    let mut reader = TypedStreamReader::from(&bytes);
    let decoded = reader.parse().unwrap();
    let typed_text = decoded[0].as_nsstring().unwrap().to_string();

    let fallback_text = streamtyped::parse(bytes).unwrap();
    assert_eq!(typed_text, fallback_text);
}

/// An archive with `$objects`, a `$top.root` UID, and a keyed dictionary.
fn fixture_archive() -> PlistValue {
    PlistValue::Dictionary(vec![
        ("$archiver".to_string(), PlistValue::String("NSKeyedArchiver".to_string())),
        (
            "$objects".to_string(),
            PlistValue::Array(vec![
                PlistValue::String("$null".to_string()),
                PlistValue::Dictionary(vec![
                    ("$class".to_string(), PlistValue::Uid(5)),
                    ("NS.keys".to_string(), PlistValue::Array(vec![PlistValue::Uid(2)])),
                    ("NS.objects".to_string(), PlistValue::Array(vec![PlistValue::Uid(3)])),
                ]),
                PlistValue::String("link".to_string()),
                PlistValue::Dictionary(vec![
                    ("$class".to_string(), PlistValue::Uid(5)),
                    ("NS.relative".to_string(), PlistValue::Uid(4)),
                ]),
                PlistValue::String("https://example.com".to_string()),
                PlistValue::String("NSDictionary".to_string()),
            ]),
        ),
        (
            "$top".to_string(),
            PlistValue::Dictionary(vec![("root".to_string(), PlistValue::Uid(1))]),
        ),
    ])
}

/// No UID and no `$class` key survives anywhere in a walked tree.
fn fully_resolved(v: &PlistValue) -> bool {
    match v {
        PlistValue::Uid(_) => false,
        PlistValue::Array(items) => items.iter().all(fully_resolved),
        PlistValue::Dictionary(entries) => entries
            .iter()
            .all(|(k, val)| k != "$class" && fully_resolved(val)),
        _ => true,
    }
}

#[test]
fn walks_an_archive_to_a_plain_tree() {
    let walked = parse_ns_keyed_archiver(&fixture_archive()).unwrap();
    assert!(fully_resolved(&walked));
    match &walked {
        PlistValue::Dictionary(entries) => {
            assert_eq!(entries.len(), 1);
            assert_eq!(entries[0].0, "link");
            match &entries[0].1 {
                PlistValue::Dictionary(inner) => {
                    assert_eq!(
                        inner[0],
                        ("link".to_string(), PlistValue::String("https://example.com".to_string()))
                    );
                }
                other => panic!("expected a dictionary, got {other:?}"),
            }
        }
        other => panic!("expected a dictionary, got {other:?}"),
    }
}

#[test]
fn walking_fails_without_a_root() {
    let archive = PlistValue::Dictionary(vec![(
        "$objects".to_string(),
        PlistValue::Array(vec![]),
    )]);
    assert!(parse_ns_keyed_archiver(&archive).is_err());
}

#[test]
fn walking_stops_on_a_reference_cycle() {
    let archive = PlistValue::Dictionary(vec![
        (
            "$objects".to_string(),
            PlistValue::Array(vec![
                PlistValue::Uid(1),
                PlistValue::Uid(0),
            ]),
        ),
        (
            "$top".to_string(),
            PlistValue::Dictionary(vec![("root".to_string(), PlistValue::Uid(0))]),
        ),
    ]);
    assert!(parse_ns_keyed_archiver(&archive).is_err());
}

/// The summary of a message whose only part was unsent.
fn deleted_summary() -> PlistValue {
    PlistValue::Dictionary(vec![
        (
            "otr".to_string(),
            PlistValue::Dictionary(vec![("0".to_string(), PlistValue::Boolean(true))]),
        ),
        ("rp".to_string(), PlistValue::Array(vec![PlistValue::Integer(0)])),
    ])
}

/// The summary of a three-part message: the last part was edited once and
/// every part was then unsent.
fn edited_then_unsent_summary(edited_text: &str) -> PlistValue {
    PlistValue::Dictionary(vec![
        (
            "otr".to_string(),
            PlistValue::Dictionary(vec![
                ("0".to_string(), PlistValue::Boolean(true)),
                ("1".to_string(), PlistValue::Boolean(true)),
                ("2".to_string(), PlistValue::Boolean(true)),
            ]),
        ),
        (
            "ec".to_string(),
            PlistValue::Dictionary(vec![(
                "2".to_string(),
                PlistValue::Array(vec![PlistValue::Dictionary(vec![
                    ("d".to_string(), PlistValue::Real(743907448)),
                    ("t".to_string(), PlistValue::Data(fixture_stream(edited_text))),
                ])]),
            )]),
        ),
        (
            "rp".to_string(),
            PlistValue::Array(vec![
                PlistValue::Integer(0),
                PlistValue::Integer(1),
                PlistValue::Integer(2),
            ]),
        ),
    ])
}

#[test]
fn parses_a_deleted_summary() {
    let parsed = EditedMessage::from_map(&deleted_summary()).unwrap();
    assert_eq!(parsed.parts.len(), 1);
    assert!(matches!(parsed.parts[0].status, EditStatus::Unsent));
    assert!(parsed.is_fully_unsent());
}

#[test]
fn parses_an_edited_summary() {
    let parsed = EditedMessage::from_map(&edited_then_unsent_summary("Second test was edited!"))
        .unwrap();
    assert_eq!(parsed.parts.len(), 3);
    assert!(parsed.is_fully_unsent());
    assert_eq!(parsed.parts[2].edit_history.len(), 1);
    assert_eq!(
        parsed.parts[2].edit_history[0].text.as_deref(),
        Some("Second test was edited!")
    );
    assert_eq!(parsed.parts[2].edit_history[0].date, 743907448000000000);
}

#[test]
fn ignores_out_of_range_unsent_indexes() {
    let summary = PlistValue::Dictionary(vec![
        (
            "otr".to_string(),
            PlistValue::Dictionary(vec![("0".to_string(), PlistValue::Boolean(true))]),
        ),
        (
            "rp".to_string(),
            PlistValue::Array(vec![PlistValue::Integer(7), PlistValue::Integer(-1)]),
        ),
    ]);
    let parsed = EditedMessage::from_map(&summary).unwrap();
    assert_eq!(parsed.parts.len(), 1);
    assert!(matches!(parsed.parts[0].status, EditStatus::Original));
}

#[test]
fn an_empty_summary_is_not_fully_unsent() {
    let summary = PlistValue::Dictionary(vec![(
        "otr".to_string(),
        PlistValue::Dictionary(vec![]),
    )]);
    let parsed = EditedMessage::from_map(&summary).unwrap();
    assert_eq!(parsed.parts.len(), 0);
    assert!(!parsed.is_fully_unsent());
}

#[test]
fn deletion_fires_on_the_unsent_transition() {
    // Seed the tracked window with one kept message, then observe it fully
    // unsent: exactly one deletion, preserving the tracked text.
    let mut old_message = Message::blank();
    old_message.rowid = 101;
    old_message.guid = "G1".to_string();
    old_message.text = Some("Hello".to_string());

    let mut differ = Differ::new();
    let next = vec![(
        101,
        TrackedMessage { message: old_message, staged_paths: vec![] },
    )];
    let untracked = differ.end_cycle(next);
    assert!(untracked.is_empty());

    // The second snapshot: the same row, now fully unsent.
    let mut new_message = Message::blank();
    new_message.rowid = 101;
    new_message.guid = "G1".to_string();
    new_message.edited_parts = Some(EditedMessage::from_map(&deleted_summary()).unwrap());

    let prior = differ.remove_row(101).unwrap();
    assert!(is_deletion_event(&prior.message, &new_message));

    let alert = deletion_alert_line(&prior.message.text, prior.message.num_attachments);
    assert!(alert.contains("Hello"));
    assert!(alert.contains("0 attachment(s)"));

    let header = record_header("Me", "May 17");
    assert_eq!(header, "<h2>===Me:May 17</h2>");
    assert_eq!(
        record_text_line(&prior.message.text),
        Some("<p>Text: Hello</p><br>".to_string())
    );
    assert_eq!(record_text_line(&Some(" ".to_string())), None);
}

#[test]
fn no_deletion_fires_while_parts_remain() {
    // A message with one part unsent and others kept has not been deleted.
    let mut old_message = Message::blank();
    old_message.rowid = 202;
    let mut new_message = Message::blank();
    new_message.rowid = 202;
    let summary = PlistValue::Dictionary(vec![
        (
            "otr".to_string(),
            PlistValue::Dictionary(vec![
                ("0".to_string(), PlistValue::Boolean(true)),
                ("1".to_string(), PlistValue::Boolean(true)),
            ]),
        ),
        ("rp".to_string(), PlistValue::Array(vec![PlistValue::Integer(1)])),
    ]);
    new_message.edited_parts = Some(EditedMessage::from_map(&summary).unwrap());
    assert!(!is_deletion_event(&old_message, &new_message));
}

#[test]
fn deletion_preserves_the_last_edited_text() {
    // An edit, then a full unsend: the tracked snapshot still carries the
    // edited text when the deletion is archived.
    let mut old_message = Message::blank();
    old_message.rowid = 202;
    old_message.text = Some("Second test was edited!".to_string());

    let mut new_message = Message::blank();
    new_message.rowid = 202;
    new_message.edited_parts = Some(
        EditedMessage::from_map(&edited_then_unsent_summary("Second test was edited!")).unwrap(),
    );

    assert!(is_deletion_event(&old_message, &new_message));
    assert_eq!(
        record_text_line(&old_message.text),
        Some("<p>Text: Second test was edited!</p><br>".to_string())
    );
}

#[test]
fn untracked_messages_keep_their_staged_files_for_cleanup() {
    // A tracked message with a staged attachment disappears from the
    // window: it is handed back so its staged copy can be discarded.
    let mut message = Message::blank();
    message.rowid = 7;
    message.num_attachments = 1;
    let mut differ = Differ::new();
    let _ = differ.end_cycle(vec![(
        7,
        TrackedMessage {
            message,
            staged_paths: vec!["out/attachments/tmp/0.jpg".to_string()],
        },
    )]);

    let untracked = differ.end_cycle(vec![]);
    assert_eq!(untracked.len(), 1);
    assert_eq!(untracked[0].0, 7);
    assert_eq!(untracked[0].1.staged_paths, vec!["out/attachments/tmp/0.jpg".to_string()]);
    assert_eq!(untracked_line(7), "New message was sent with ID: 7");
}

#[test]
fn staging_starts_at_the_first_free_number() {
    assert_eq!(find_min_attachment_number(&vec![], 0), Some(0));
    assert_eq!(find_min_attachment_number(&vec![0, 1, 3], 0), Some(2));
    assert_eq!(find_min_attachment_number(&vec![0, 1, 2], 1), Some(3));
    assert_eq!(tmp_attachment_path("out"), "out/attachments/tmp");
    assert_eq!(
        record_image_line("out/attachments/0.jpg"),
        "<img src=\"out/attachments/0.jpg\" style='width:300px'><br>"
    );
    assert_eq!(relative_path("out/attachments/0.jpg", "out"), "attachments/0.jpg");
    assert_eq!(relative_path("elsewhere/0.jpg", "out"), "elsewhere/0.jpg");
}

#[test]
fn senders_resolve_through_the_participant_table() {
    let participants = vec![(3, "tester@example.com".to_string())];
    assert_eq!(who(&participants, Some(3), false, &None, false, &None), "tester@example.com");
    assert_eq!(who(&participants, Some(9), false, &None, false, &None), "Unknown");
    assert_eq!(who(&participants, None, false, &None, false, &None), "Unknown");
    assert_eq!(who(&participants, Some(3), true, &None, false, &None), "Me");
    assert_eq!(
        who(&participants, Some(3), true, &Some("+15558675309".to_string()), true, &None),
        "+15558675309"
    );
    assert_eq!(
        who(&participants, Some(3), true, &None, false, &Some("Tester".to_string())),
        "Tester"
    );
}

#[test]
fn read_latency_reads_naturally() {
    assert_eq!(
        readable_diff(674526582885055488, 674530231992568192),
        Some("1 hour, 49 seconds".to_string())
    );
    assert_eq!(readable_diff(674530231992568192, 674526582885055488), None);
    assert_eq!(
        readable_diff(0, 90061000000000),
        Some("1 day, 1 hour, 1 minute, 1 second".to_string())
    );
    assert_eq!(readable_diff(0, 0), Some(String::new()));
}

#[test]
fn the_recent_query_needs_the_recoverable_table() {
    // A legacy database accepts the intermediate shape but not the recent
    // one, and reports no deleted-from chat for any row.
    let conn = rusqlite::Connection::open_in_memory().unwrap();
    conn.execute_batch(
        "CREATE TABLE message (
            ROWID INTEGER PRIMARY KEY,
            guid TEXT,
            text TEXT,
            service TEXT,
            handle_id INTEGER,
            destination_caller_id TEXT,
            subject TEXT,
            date INTEGER,
            date_read INTEGER,
            date_delivered INTEGER,
            is_from_me INTEGER,
            is_read INTEGER,
            item_type INTEGER,
            other_handle INTEGER,
            share_status INTEGER,
            share_direction INTEGER,
            group_title TEXT,
            group_action_type INTEGER,
            associated_message_guid TEXT,
            associated_message_type INTEGER,
            balloon_bundle_id TEXT,
            expressive_send_style_id TEXT,
            thread_originator_guid TEXT,
            thread_originator_part TEXT,
            date_edited INTEGER,
            associated_message_emoji TEXT
        );
        CREATE TABLE chat_message_join (chat_id INTEGER, message_id INTEGER);
        CREATE TABLE message_attachment_join (attachment_id INTEGER, message_id INTEGER);
        INSERT INTO message (ROWID, guid, text, date, is_from_me) VALUES (1, 'G1', 'Hello', 5, 0);",
    )
    .unwrap();

    let recent = ios_16_newer_query(None, None);
    assert!(conn.prepare(&recent).is_err());

    let intermediate = ios_14_15_query(None, None);
    let mut statement = conn.prepare(&intermediate).unwrap();
    let deleted_from: Vec<Option<i64>> = statement
        .query_map([], |row| row.get("deleted_from"))
        .unwrap()
        .map(|r| r.unwrap())
        .collect();
    assert_eq!(deleted_from, vec![None]);
}

#[test]
fn empty_and_tiny_bodies_fail_both_parsers() {
    // An empty body has no header and no markers; a two-byte body fails
    // the header but passes the fallback's marker stages with nothing left
    // to decode.
    let empty: Vec<u8> = vec![];
    let mut reader = TypedStreamReader::from(&empty);
    assert!(reader.parse().is_err());
    assert!(streamtyped::parse(vec![]).is_err());

    let tiny: Vec<u8> = vec![0x01, 0x2b];
    let mut tiny_reader = TypedStreamReader::from(&tiny);
    assert!(tiny_reader.parse().is_err());
    assert!(streamtyped::parse(vec![0x01, 0x2b]).is_err());
}

#[test]
fn duplicate_edit_timestamps_are_kept_in_order() {
    // Two events with the same date both survive, in their stored order.
    let summary = PlistValue::Dictionary(vec![
        (
            "otr".to_string(),
            PlistValue::Dictionary(vec![("0".to_string(), PlistValue::Boolean(true))]),
        ),
        (
            "ec".to_string(),
            PlistValue::Dictionary(vec![(
                "0".to_string(),
                PlistValue::Array(vec![
                    PlistValue::Dictionary(vec![
                        ("d".to_string(), PlistValue::Real(100)),
                        ("t".to_string(), PlistValue::Data(fixture_stream("first"))),
                    ]),
                    PlistValue::Dictionary(vec![
                        ("d".to_string(), PlistValue::Real(100)),
                        ("t".to_string(), PlistValue::Data(fixture_stream("second"))),
                    ]),
                ]),
            )]),
        ),
    ]);
    let parsed = EditedMessage::from_map(&summary).unwrap();
    assert!(matches!(parsed.parts[0].status, EditStatus::Edited));
    assert_eq!(parsed.parts[0].edit_history.len(), 2);
    assert_eq!(parsed.parts[0].edit_history[0].text.as_deref(), Some("first"));
    assert_eq!(parsed.parts[0].edit_history[1].text.as_deref(), Some("second"));
}

#[test]
fn chat_filenames_stay_within_budget_rules() {
    let chat = imessage_undeleter::chat::Chat {
        rowid: 44,
        chat_identifier: "chat4444".to_string(),
        service_name: Some("iMessage".to_string()),
        display_name: Some("Weekend: Plans?".to_string()),
    };
    assert_eq!(
        imessage_undeleter::differ::chat_filename(&chat, None),
        "Weekend_ Plans_ - 44"
    );

    let unnamed = imessage_undeleter::chat::Chat {
        rowid: 45,
        chat_identifier: "chat4545".to_string(),
        service_name: None,
        display_name: None,
    };
    let labels = vec!["alice@example.com".to_string(), "bob@example.com".to_string()];
    assert_eq!(
        imessage_undeleter::differ::chat_filename(&unnamed, Some(&labels)),
        "alice@example.com, bob@example.com"
    );
    assert_eq!(
        imessage_undeleter::differ::chat_filename(&unnamed, None),
        "chat4545"
    );

    // A long roster overflows into a count of the rest.
    let many: Vec<String> = (0..40).map(|i| format!("participant-number-{i:04}")).collect();
    let joined = imessage_undeleter::differ::filename_from_participants(&many);
    assert!(joined.chars().count() <= 235 + 2);
    assert!(joined.contains(" others"));
}

#[test]
fn record_paths_prefer_the_staged_copy() {
    let mut attachment = imessage_undeleter::attachment::Attachment {
        rowid: 1,
        filename: Some("~/Library/Messages/Attachments/a/b/photo.jpg".to_string()),
        uti: None,
        mime_type: Some("image/jpeg".to_string()),
        transfer_name: Some("photo.jpg".to_string()),
        total_bytes: 10,
        is_sticker: false,
        hide_attachment: 0,
        emoji_description: None,
        copied_path: Some("out/attachments/tmp/0.jpg".to_string()),
    };
    let macos = imessage_undeleter::platform::Platform::macOS;
    assert_eq!(
        imessage_undeleter::differ::message_attachment_path(
            &attachment, "out", &macos, "db", "/home/tester", None
        ),
        "attachments/tmp/0.jpg"
    );

    attachment.copied_path = None;
    assert_eq!(
        imessage_undeleter::differ::message_attachment_path(
            &attachment, "out", &macos, "db", "/home/tester", None
        ),
        "/home/tester/Library/Messages/Attachments/a/b/photo.jpg"
    );

    attachment.filename = None;
    assert_eq!(
        imessage_undeleter::differ::message_attachment_path(
            &attachment, "out", &macos, "db", "/home/tester", None
        ),
        "photo.jpg"
    );
}

#[test]
fn negative_row_ids_render_with_their_sign() {
    assert_eq!(
        untracked_line(i32::MIN),
        "New message was sent with ID: -2147483648"
    );
    assert_eq!(untracked_line(-7), "New message was sent with ID: -7");
}

#[test]
fn tapbacks_group_by_their_target() {
    let mut loved = Message::blank();
    loved.rowid = 1;
    loved.associated_message_type = Some(2000);
    loved.associated_message_guid =
        Some("p:2/A44CE9D7-AAAA-BBBB-CCCC-23C54E1A9B6A".to_string());

    let mut liked = Message::blank();
    liked.rowid = 2;
    liked.associated_message_type = Some(2001);
    liked.associated_message_guid =
        Some("p:2/A44CE9D7-AAAA-BBBB-CCCC-23C54E1A9B6A".to_string());

    let mut elsewhere = Message::blank();
    elsewhere.rowid = 3;
    elsewhere.associated_message_type = Some(2000);
    elsewhere.associated_message_guid =
        Some("bp:B44CE9D7-AAAA-BBBB-CCCC-23C54E1A9B6A".to_string());

    let mut not_a_tapback = Message::blank();
    not_a_tapback.rowid = 4;

    let groups = imessage_undeleter::differ::group_tapbacks(vec![
        loved,
        liked,
        elsewhere,
        not_a_tapback,
    ]);
    assert_eq!(groups.len(), 2);
    assert_eq!(groups[0].target_guid, "A44CE9D7-AAAA-BBBB-CCCC-23C54E1A9B6A");
    assert_eq!(groups[0].target_part, 2);
    assert_eq!(groups[0].tapbacks.len(), 2);
    assert_eq!(groups[1].target_guid, "B44CE9D7-AAAA-BBBB-CCCC-23C54E1A9B6A");
    assert_eq!(groups[1].target_part, 0);
    assert_eq!(groups[1].tapbacks.len(), 1);
}

#[test]
fn a_non_numeric_part_key_is_an_invalid_part_index() {
    let summary = PlistValue::Dictionary(vec![
        (
            "otr".to_string(),
            PlistValue::Dictionary(vec![("0".to_string(), PlistValue::Boolean(true))]),
        ),
        (
            "ec".to_string(),
            PlistValue::Dictionary(vec![(
                "first".to_string(),
                PlistValue::Array(vec![PlistValue::Dictionary(vec![
                    ("d".to_string(), PlistValue::Real(743907448)),
                    ("t".to_string(), PlistValue::Data(fixture_stream("x"))),
                ])]),
            )]),
        ),
    ]);
    match EditedMessage::from_map(&summary) {
        Err(EditedParseError::InvalidPartIndex(key)) => assert_eq!(key, "first"),
        other => panic!("expected an invalid part index, got {other:?}"),
    }
}

#[test]
fn an_integer_event_date_is_accepted() {
    let summary = PlistValue::Dictionary(vec![
        (
            "otr".to_string(),
            PlistValue::Dictionary(vec![("0".to_string(), PlistValue::Boolean(true))]),
        ),
        (
            "ec".to_string(),
            PlistValue::Dictionary(vec![(
                "0".to_string(),
                PlistValue::Array(vec![PlistValue::Dictionary(vec![
                    ("d".to_string(), PlistValue::Integer(743907448)),
                    ("t".to_string(), PlistValue::Data(fixture_stream("Hi"))),
                ])]),
            )]),
        ),
    ]);
    let parsed = EditedMessage::from_map(&summary).unwrap();
    let part = parsed.part(0).unwrap();
    assert_eq!(part.edit_history.len(), 1);
    assert_eq!(part.edit_history[0].date, 743907448000000000);
    assert_eq!(part.edit_history[0].text.as_deref(), Some("Hi"));
}
