//! Tests for bundle ids, platforms, converters and the fallback parser.
use imessage_undeleter::converters::{
    AttachmentManagerMode, AudioConverter, HardwareEncoder, ImageConverter, ImageType, VideoType,
    build_audio_args, build_encode_args, build_image_args, build_remux_args,
};
use imessage_undeleter::platform::Platform;
use imessage_undeleter::streamtyped::{drop_chars, parse};
use imessage_undeleter::table::DEFAULT_PATH_IOS;
use imessage_undeleter::variants::parse_balloon_bundle_id;

#[test]
fn can_get_no_balloon_bundle_id() {
    assert_eq!(parse_balloon_bundle_id(None), None);
}

#[test]
fn can_get_balloon_bundle_id_os() {
    assert_eq!(
        parse_balloon_bundle_id(Some("com.apple.Handwriting.HandwritingProvider")),
        Some("com.apple.Handwriting.HandwritingProvider")
    );
}

#[test]
fn can_get_balloon_bundle_id_url() {
    assert_eq!(
        parse_balloon_bundle_id(Some("com.apple.messages.URLBalloonProvider")),
        Some("com.apple.messages.URLBalloonProvider")
    );
}

#[test]
fn can_get_balloon_bundle_id_apple() {
    assert_eq!(
        parse_balloon_bundle_id(Some(
            "com.apple.messages.MSMessageExtensionBalloonPlugin:0000000000:com.apple.PassbookUIService.PeerPaymentMessagesExtension"
        )),
        Some("com.apple.PassbookUIService.PeerPaymentMessagesExtension")
    );
}

#[test]
fn can_get_balloon_bundle_id_third_party() {
    assert_eq!(
        parse_balloon_bundle_id(Some(
            "com.apple.messages.MSMessageExtensionBalloonPlugin:QPU8QS3E62:com.contextoptional.OpenTable.Messages"
        )),
        Some("com.contextoptional.OpenTable.Messages")
    );
}

#[test]
fn can_parse_macos_any_case() {
    assert!(matches!(Platform::from_cli("macos"), Some(Platform::macOS)));
    assert!(matches!(Platform::from_cli("MACOS"), Some(Platform::macOS)));
    assert!(matches!(Platform::from_cli("MacOS"), Some(Platform::macOS)));
}

#[test]
fn can_parse_ios_any_case() {
    assert!(matches!(Platform::from_cli("ios"), Some(Platform::iOS)));
    assert!(matches!(Platform::from_cli("IOS"), Some(Platform::iOS)));
    assert!(matches!(Platform::from_cli("iOS"), Some(Platform::iOS)));
}

#[test]
fn cant_parse_invalid() {
    assert!(Platform::from_cli("mac").is_none());
    assert!(Platform::from_cli("iphone").is_none());
    assert!(Platform::from_cli("").is_none());
}

#[test]
fn cant_build_ends_with_ios_backup() {
    // A source path that is itself the backup's inner database path is the
    // caller's mistake.
    let path = DEFAULT_PATH_IOS;
    let points_at_inner = path.ends_with(DEFAULT_PATH_IOS);
    assert!(Platform::determine(points_at_inner, false, false).is_err());
}

#[test]
fn test_build_remux_args() {
    let from = "input.mov";
    let to = "output.mp4";
    let args = build_remux_args(from, to);
    let expected: Vec<&str> = vec!["-i", from, "-c", "copy", "-f", VideoType::Mp4.to_str(), to];
    assert_eq!(args, expected);
}

#[test]
fn test_build_encode_args_hw() {
    let from = "in.mov";
    let to = "out.mp4";
    let args = build_encode_args(from, to, Some(&HardwareEncoder::Nvenc));
    let expected: Vec<&str> = vec![
        "-i",
        from,
        "-c:v",
        "h264_nvenc",
        "-preset",
        "fast",
        "-c:a",
        "copy",
        "-movflags",
        "+faststart",
        to,
    ];
    assert_eq!(args, expected);
}

#[test]
fn test_build_encode_args_sw() {
    let from = "in.mov";
    let to = "out.mp4";
    let args = build_encode_args(from, to, None);
    let expected: Vec<&str> = vec![
        "-i",
        from,
        "-c:v",
        "libx264",
        "-preset",
        "fast",
        "-c:a",
        "copy",
        "-movflags",
        "+faststart",
        to,
    ];
    assert_eq!(args, expected);
}

#[test]
fn test_attachment_manager_mode() {
    assert_eq!(
        AttachmentManagerMode::from_cli("disabled"),
        Some(AttachmentManagerMode::Disabled)
    );
    assert_eq!(
        AttachmentManagerMode::from_cli("basic"),
        Some(AttachmentManagerMode::Basic)
    );
    assert_eq!(
        AttachmentManagerMode::from_cli("clone"),
        Some(AttachmentManagerMode::Clone)
    );
    assert_eq!(
        AttachmentManagerMode::from_cli("full"),
        Some(AttachmentManagerMode::Full)
    );
    assert_eq!(AttachmentManagerMode::from_cli("invalid"), None);
}

#[test]
fn test_can_drop_chars() {
    assert_eq!(
        drop_chars(1, String::from("Hello world")).unwrap(),
        String::from("ello world")
    );
}

#[test]
fn test_can_drop_chars_none() {
    assert_eq!(
        drop_chars(0, String::from("Hello world")).unwrap(),
        String::from("Hello world")
    );
}

#[test]
fn test_cant_drop_all() {
    assert!(drop_chars(1000, String::from("Hello world")).is_err());
}

#[test]
fn recovers_text_between_the_markers() {
    let mut bytes: Vec<u8> = vec![0x00, 0x01, 0x2b, 0x06];
    bytes.extend_from_slice(b"Hello");
    bytes.extend_from_slice(&[0x86, 0x84, 0x00, 0x00]);
    assert_eq!(parse(bytes).unwrap(), "Hello");
}

#[test]
fn rejects_a_stream_without_a_start_marker() {
    assert!(parse(vec![0x00, 0x02, 0x03]).is_err());
}

#[test]
fn rejects_a_stream_without_an_end_marker() {
    let mut bytes: Vec<u8> = vec![0x01, 0x2b, 0x06];
    bytes.extend_from_slice(b"Hello");
    assert!(parse(bytes).is_err());
}

#[test]
fn drops_three_characters_from_lossy_text() {
    // An invalid byte forces the lossy path, which carries three prefix
    // characters instead of one.
    let mut bytes: Vec<u8> = vec![0x01, 0x2b, 0xff, 0x06, 0x06];
    bytes.extend_from_slice(b"Hi");
    bytes.extend_from_slice(&[0x86, 0x84, 0x00, 0x00]);
    assert_eq!(parse(bytes).unwrap(), "Hi");
}

#[test]
fn audio_and_image_conversions_take_their_programs_arguments() {
    assert_eq!(
        build_audio_args(&AudioConverter::AfConvert, "in.caf", "out.mp4"),
        vec!["-f", "mp4f", "-d", "aac", "-v", "in.caf", "out.mp4"]
    );
    assert_eq!(
        build_audio_args(&AudioConverter::Ffmpeg, "in.caf", "out.mp4"),
        vec!["-i", "in.caf", "out.mp4"]
    );
    assert_eq!(
        build_image_args(&ImageConverter::Sips, &ImageType::Jpeg, "in.heic", "out.jpeg"),
        vec!["-s", "format", "jpeg", "in.heic", "-o", "out.jpeg"]
    );
    assert_eq!(
        build_image_args(&ImageConverter::Imagemagick, &ImageType::Jpeg, "in.heic", "out.jpeg"),
        vec!["in.heic", "out.jpeg"]
    );
}
