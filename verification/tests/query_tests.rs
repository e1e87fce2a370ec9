//! Tests for the query builders and the filter context.
use imessage_undeleter::message::Message;
use imessage_undeleter::queries::{ios_13_older_query, ios_14_15_query, ios_16_newer_query};
use imessage_undeleter::querycontext::{QueryContext, id_contained, matching_chat_ids, matching_handle_ids};

#[test]
fn can_generate_filter_statement_empty() {
    let context = QueryContext::default();

    let statement = Message::generate_filter_statement(&context, false);
    assert_eq!(statement, "");
}

#[test]
fn can_generate_filter_statement_limit() {
    let mut context = QueryContext::default();
    context.set_limit(10);

    let statement = Message::generate_filter_statement(&context, false);
    assert_eq!(statement, "");
}

#[test]
fn can_generate_filter_statement_chat_ids() {
    let mut context = QueryContext::default();
    context.set_selected_chat_ids(vec![1, 2, 3]);

    let statement = Message::generate_filter_statement(&context, false);
    assert_eq!(statement, "WHERE c.chat_id IN (1, 2, 3)");
}

#[test]
fn can_generate_filter_statement_start_end_chat_ids() {
    let mut context = QueryContext::default();
    context.set_limit(10);
    context.set_selected_chat_ids(vec![1, 2, 3]);

    let statement = Message::generate_filter_statement(&context, false);
    assert_eq!(statement, "WHERE c.chat_id IN (1, 2, 3)");
}

#[test]
fn can_generate_filter_statement_with_empty_chat_ids() {
    let mut context = QueryContext::default();
    context.set_selected_chat_ids(vec![]);

    let statement = Message::generate_filter_statement(&context, false);
    assert_eq!(statement, "");
}

#[test]
fn query_tests_can_generate_filter_statement_empty() {
    let context = QueryContext::default();

    let statement = Message::generate_filter_statement(&context, true);
    assert_eq!(statement, "");
}

#[test]
fn query_tests_can_generate_filter_statement_limit() {
    let mut context = QueryContext::default();
    context.set_limit(10);

    let statement = Message::generate_filter_statement(&context, true);
    assert_eq!(statement, "");
}

#[test]
fn query_tests_can_generate_filter_statement_chat_ids() {
    let mut context = QueryContext::default();
    context.set_selected_chat_ids(vec![1, 2, 3]);

    let statement = Message::generate_filter_statement(&context, true);
    assert_eq!(statement, "WHERE (c.chat_id IN (1, 2, 3) OR d.chat_id IN (1, 2, 3))");
}

#[test]
fn can_generate_filter_statement_limit_chat_ids() {
    let mut context = QueryContext::default();
    context.set_limit(10);
    context.set_selected_chat_ids(vec![1, 2, 3]);

    let statement = Message::generate_filter_statement(&context, true);
    assert_eq!(statement, "WHERE (c.chat_id IN (1, 2, 3) OR d.chat_id IN (1, 2, 3))");
}

#[test]
fn can_generate_no_filters_16() {
    let query_string = ios_16_newer_query(None, Some("LIMIT 10"));
    let expected = "\nSELECT
    rowid, guid, text, service, handle_id, destination_caller_id, subject, date, date_read, date_delivered, is_from_me, is_read, item_type, other_handle, share_status, share_direction, group_title, group_action_type, associated_message_guid, associated_message_type, balloon_bundle_id, expressive_send_style_id, thread_originator_guid, thread_originator_part, date_edited, associated_message_emoji,
    c.chat_id,
    (SELECT COUNT(*) FROM message_attachment_join a WHERE m.ROWID = a.message_id) as num_attachments,
    d.chat_id as deleted_from,
    (SELECT COUNT(*) FROM message m2 WHERE m2.thread_originator_guid = m.guid) as num_replies
FROM
    message as m
LEFT JOIN chat_message_join as c ON m.ROWID = c.message_id
LEFT JOIN chat_recoverable_message_join as d ON m.ROWID = d.message_id

ORDER BY
    m.date DESC
LIMIT 10;";
    assert_eq!(query_string, expected);
}

#[test]
fn can_generate_filters_16() {
    let query_string = ios_16_newer_query(Some("WHERE m.guid = \"fake\""), Some("LIMIT 10"));
    let expected = "\nSELECT
    rowid, guid, text, service, handle_id, destination_caller_id, subject, date, date_read, date_delivered, is_from_me, is_read, item_type, other_handle, share_status, share_direction, group_title, group_action_type, associated_message_guid, associated_message_type, balloon_bundle_id, expressive_send_style_id, thread_originator_guid, thread_originator_part, date_edited, associated_message_emoji,
    c.chat_id,
    (SELECT COUNT(*) FROM message_attachment_join a WHERE m.ROWID = a.message_id) as num_attachments,
    d.chat_id as deleted_from,
    (SELECT COUNT(*) FROM message m2 WHERE m2.thread_originator_guid = m.guid) as num_replies
FROM
    message as m
LEFT JOIN chat_message_join as c ON m.ROWID = c.message_id
LEFT JOIN chat_recoverable_message_join as d ON m.ROWID = d.message_id
WHERE m.guid = \"fake\"
ORDER BY
    m.date DESC
LIMIT 10;";
    assert_eq!(query_string, expected);
}

#[test]
fn can_generate_no_filters_14_15() {
    let query_string = ios_14_15_query(None, None);
    let expected = "\nSELECT
    *,
    c.chat_id,
    (SELECT COUNT(*) FROM message_attachment_join a WHERE m.ROWID = a.message_id) as num_attachments,
    NULL as deleted_from,
    (SELECT COUNT(*) FROM message m2 WHERE m2.thread_originator_guid = m.guid) as num_replies
FROM
    message as m
LEFT JOIN chat_message_join as c ON m.ROWID = c.message_id

ORDER BY
    m.date DESC
;";
    println!("{query_string}");
    assert_eq!(query_string, expected);
}

#[test]
fn can_generate_filters_14_15() {
    let query_string = ios_14_15_query(Some("WHERE m.guid = \"fake\""), Some("LIMIT 10"));
    let expected = "\nSELECT
    *,
    c.chat_id,
    (SELECT COUNT(*) FROM message_attachment_join a WHERE m.ROWID = a.message_id) as num_attachments,
    NULL as deleted_from,
    (SELECT COUNT(*) FROM message m2 WHERE m2.thread_originator_guid = m.guid) as num_replies
FROM
    message as m
LEFT JOIN chat_message_join as c ON m.ROWID = c.message_id
WHERE m.guid = \"fake\"
ORDER BY
    m.date DESC
LIMIT 10;";
    assert_eq!(query_string, expected);
}

#[test]
fn can_generate_no_filters_13() {
    let query_string = ios_13_older_query(None, Some("LIMIT 10"));
    let expected = "\nSELECT
    *,
    c.chat_id,
    (SELECT COUNT(*) FROM message_attachment_join a WHERE m.ROWID = a.message_id) as num_attachments,
    NULL as deleted_from,
    0 as num_replies
FROM
    message as m
LEFT JOIN chat_message_join as c ON m.ROWID = c.message_id

ORDER BY
    m.date DESC
LIMIT 10;";
    println!("{query_string}");
    assert_eq!(query_string, expected);
}

#[test]
fn can_generate_filters_13() {
    let query_string = ios_13_older_query(Some("WHERE m.guid = \"fake\""), Some("LIMIT 10"));
    let expected = "\nSELECT
    *,
    c.chat_id,
    (SELECT COUNT(*) FROM message_attachment_join a WHERE m.ROWID = a.message_id) as num_attachments,
    NULL as deleted_from,
    0 as num_replies
FROM
    message as m
LEFT JOIN chat_message_join as c ON m.ROWID = c.message_id
WHERE m.guid = \"fake\"
ORDER BY
    m.date DESC
LIMIT 10;";
    assert_eq!(query_string, expected);
}

#[test]
fn can_create() {
    let context = QueryContext::default();
    assert!(context.limit.is_none());
    assert!(!context.has_filters());
}

#[test]
fn can_create_limit() {
    let mut context = QueryContext::default();
    context.set_limit(1);

    assert_eq!(context.limit, Some(1));
    assert!(context.limit.is_some());
    assert!(context.has_filters());
}

#[test]
fn test_can_set_selected_chat_ids() {
    let mut qc = QueryContext::default();
    qc.set_selected_chat_ids(vec![1, 2, 3]);

    assert_eq!(qc.selected_chat_ids, Some(vec![1, 2, 3]));
    assert!(qc.has_filters());
}

#[test]
fn test_can_set_selected_chat_ids_empty() {
    let mut qc = QueryContext::default();
    qc.set_selected_chat_ids(vec![]);

    assert_eq!(qc.selected_chat_ids, None);
    assert!(!qc.has_filters());
}

#[test]
fn test_can_overwrite_selected_chat_ids_empty() {
    let mut qc = QueryContext::default();
    qc.set_selected_chat_ids(vec![1, 2, 3]);
    qc.set_selected_chat_ids(vec![]);

    assert_eq!(qc.selected_chat_ids, None);
    assert!(!qc.has_filters());
}

#[test]
fn test_can_set_selected_handle_ids() {
    let mut qc = QueryContext::default();
    qc.set_selected_handle_ids(vec![1, 2, 3]);

    assert_eq!(qc.selected_handle_ids, Some(vec![1, 2, 3]));
    assert!(qc.has_filters());
}

#[test]
fn test_can_set_selected_handle_ids_empty() {
    let mut qc = QueryContext::default();
    qc.set_selected_handle_ids(vec![]);

    assert_eq!(qc.selected_handle_ids, None);
    assert!(!qc.has_filters());
}

#[test]
fn test_can_overwrite_selected_handle_ids_empty() {
    let mut qc = QueryContext::default();
    qc.set_selected_handle_ids(vec![1, 2, 3]);
    qc.set_selected_handle_ids(vec![]);

    assert_eq!(qc.selected_handle_ids, None);
    assert!(!qc.has_filters());
}

#[test]
fn a_filter_selects_handles_whose_address_contains_a_term() {
    let participants = vec![
        (1, "+15558675309".to_string()),
        (2, "sousa@example.com".to_string()),
        (3, "+15551234567".to_string()),
    ];
    let handles = matching_handle_ids("8675309,sousa", &participants);
    assert_eq!(handles, vec![1, 2]);
    let joins = vec![(10, 3), (11, 1), (12, 2), (13, 1)];
    assert_eq!(matching_chat_ids(&joins, &handles), vec![11, 12, 13]);
    assert!(matching_handle_ids("nobody", &participants).is_empty());
}

#[test]
fn id_membership_is_exact() {
    let ids = vec![4, 8, 15];
    assert!(id_contained(&ids, 8));
    assert!(!id_contained(&ids, 16));
    assert!(!id_contained(&Vec::new(), 0));
}
