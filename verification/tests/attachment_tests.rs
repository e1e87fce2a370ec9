//! Tests for attachment rows, MIME classification and path resolution.
use imessage_undeleter::attachment::{Attachment, MediaType, DEFAULT_ATTACHMENT_ROOT};
use imessage_undeleter::platform::Platform;

fn sample_attachment() -> Attachment {
    Attachment {
        rowid: 1,
        filename: Some("a/b/c.png".to_string()),
        uti: Some("public.png".to_string()),
        mime_type: Some("image/png".to_string()),
        transfer_name: Some("c.png".to_string()),
        total_bytes: 100,
        is_sticker: false,
        hide_attachment: 0,
        emoji_description: None,
        copied_path: None,
    }
}

const HOME: &str = "/home/tester";

#[test]
fn can_get_path() {
    let attachment = sample_attachment();
    assert_eq!(attachment.path(), Some("a/b/c.png"));
}

#[test]
fn cant_get_path_missing() {
    let mut attachment = sample_attachment();
    attachment.filename = None;
    assert_eq!(attachment.path(), None);
}

#[test]
fn can_get_extension() {
    let attachment = sample_attachment();
    assert_eq!(attachment.extension(), Some("png"));
}

#[test]
fn cant_get_extension_missing() {
    let mut attachment = sample_attachment();
    attachment.filename = None;
    assert_eq!(attachment.extension(), None);
}

#[test]
fn can_get_mime_type_png() {
    let attachment = sample_attachment();
    assert_eq!(attachment.mime_type(), MediaType::Image("png"));
}

#[test]
fn can_get_mime_type_heic() {
    let mut attachment = sample_attachment();
    attachment.mime_type = Some("image/heic".to_string());
    assert_eq!(attachment.mime_type(), MediaType::Image("heic"));
}

#[test]
fn can_get_mime_type_fake() {
    let mut attachment = sample_attachment();
    attachment.mime_type = Some("fake/bloop".to_string());
    assert_eq!(attachment.mime_type(), MediaType::Other("fake/bloop"));
}

#[test]
fn can_get_mime_type_missing() {
    let mut attachment = sample_attachment();
    attachment.mime_type = None;
    assert_eq!(attachment.mime_type(), MediaType::Unknown);
}

#[test]
fn can_get_filename() {
    let attachment = sample_attachment();
    assert_eq!(attachment.filename(), Some("c.png"));
}

#[test]
fn can_get_filename_no_transfer_name() {
    let mut attachment = sample_attachment();
    attachment.transfer_name = None;
    assert_eq!(attachment.filename(), Some("a/b/c.png"));
}

#[test]
fn can_get_filename_no_filename() {
    let mut attachment = sample_attachment();
    attachment.filename = None;
    assert_eq!(attachment.filename(), Some("c.png"));
}

#[test]
fn can_get_filename_no_meta() {
    let mut attachment = sample_attachment();
    attachment.transfer_name = None;
    attachment.filename = None;
    assert_eq!(attachment.filename(), None);
}

#[test]
fn can_get_resolved_path_macos() {
    let attachment = sample_attachment();

    assert_eq!(
        attachment.resolved_attachment_path(&Platform::macOS, "fake_root", HOME, None),
        Some("a/b/c.png".to_string())
    );
}

#[test]
fn can_get_resolved_path_macos_custom() {
    let mut attachment = sample_attachment();
    attachment.filename = Some(format!("{DEFAULT_ATTACHMENT_ROOT}/a/b/c.png"));

    assert_eq!(
        attachment.resolved_attachment_path(
            &Platform::macOS,
            "fake_root",
            HOME,
            Some("custom/root")
        ),
        Some("custom/root/a/b/c.png".to_string())
    );
}

#[test]
fn can_get_resolved_path_macos_raw() {
    let mut attachment = sample_attachment();
    attachment.filename = Some("~/a/b/c.png".to_string());

    assert!(
        attachment
            .resolved_attachment_path(&Platform::macOS, "fake_root", HOME, None)
            .unwrap()
            .len()
            > attachment.filename.unwrap().len()
    );
}

#[test]
fn can_get_resolved_path_macos_raw_tilde() {
    let mut attachment = sample_attachment();
    attachment.filename = Some("~/a/b/c~d.png".to_string());

    assert!(
        attachment
            .resolved_attachment_path(&Platform::macOS, "fake_root", HOME, None)
            .unwrap()
            .ends_with("c~d.png")
    );
}

#[test]
fn can_get_resolved_path_ios() {
    let attachment = sample_attachment();

    assert_eq!(
        attachment.resolved_attachment_path(&Platform::iOS, "fake_root", HOME, None),
        Some("fake_root/41/41746ffc65924078eae42725c979305626f57cca".to_string())
    );
}

#[test]
fn can_get_resolved_path_ios_custom() {
    let attachment = sample_attachment();

    // Backups store attachments beside the database, so a custom root that
    // does not occur in the stored path changes nothing.
    assert_eq!(
        attachment.resolved_attachment_path(&Platform::iOS, "fake_root", HOME, Some("custom/root")),
        Some("fake_root/41/41746ffc65924078eae42725c979305626f57cca".to_string())
    );
}

#[test]
fn cant_get_missing_resolved_path_macos() {
    let mut attachment = sample_attachment();
    attachment.filename = None;

    assert_eq!(
        attachment.resolved_attachment_path(&Platform::macOS, "fake_root", HOME, None),
        None
    );
}

#[test]
fn cant_get_missing_resolved_path_ios() {
    let mut attachment = sample_attachment();
    attachment.filename = None;

    assert_eq!(
        attachment.resolved_attachment_path(&Platform::iOS, "fake_root", HOME, None),
        None
    );
}

#[test]
fn can_get_file_size_bytes() {
    let attachment = sample_attachment();

    assert_eq!(attachment.file_size(), String::from("100.00 B"));
}

#[test]
fn can_get_file_size_kb() {
    let mut attachment = sample_attachment();
    attachment.total_bytes = 2300;

    assert_eq!(attachment.file_size(), String::from("2.25 KB"));
}

#[test]
fn can_get_file_size_mb() {
    let mut attachment = sample_attachment();
    attachment.total_bytes = 5612000;

    assert_eq!(attachment.file_size(), String::from("5.35 MB"));
}

#[test]
fn can_get_file_size_gb() {
    let mut attachment: Attachment = sample_attachment();
    attachment.total_bytes = 9234712394;

    assert_eq!(attachment.file_size(), String::from("8.60 GB"));
}

#[test]
fn can_get_file_size_cap() {
    let mut attachment: Attachment = sample_attachment();
    attachment.total_bytes = i64::MAX;

    assert_eq!(attachment.file_size(), String::from("8388608.00 TB"));
}

#[test]
fn ios_paths_follow_the_domain_digest() {
    // The stored path loses its first two characters, and the digest of
    // the media domain and the remainder names the backup entry.
    let mut attachment = sample_attachment();
    attachment.filename = Some("~/Library/Messages/Attachments/a/b/c.png".to_string());

    let resolved = attachment
        .resolved_attachment_path(&Platform::iOS, "/fake_root", HOME, None)
        .unwrap();
    let raw = <sha1::Sha1 as sha1::Digest>::digest(
        "MediaDomain-Library/Messages/Attachments/a/b/c.png",
    );
    let mut digest = String::new();
    for byte in raw.iter() {
        digest.push_str(&format!("{byte:02x}"));
    }
    assert_eq!(resolved, format!("/fake_root/{}/{}", &digest[0..2], digest));
}
