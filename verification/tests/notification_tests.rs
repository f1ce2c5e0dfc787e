//! Building notifications: content sniffing and attachment-source choice.

use pop::notification::{
    attachment_from_content, select_source, AttachmentSource, BuildError, Notification,
};

const PNG: [u8; 12] = [0x89, 0x50, 0x4e, 0x47, 0x0d, 0x0a, 0x1a, 0x0a, 0, 0, 0, 0];

#[test]
fn png_bytes_are_sniffed_as_png() {
    let a = attachment_from_content(PNG.to_vec(), None).unwrap();
    assert_eq!("image/png", a.mime_type);
    assert_eq!("file.png", a.filename);
    assert_eq!(PNG.to_vec(), a.content);
}

#[test]
fn sniffing_ignores_the_supplied_filename() {
    // The caller claims a GIF; the bytes say PNG, and the bytes win.
    let a = attachment_from_content(PNG.to_vec(), Some("shot.gif".to_string())).unwrap();
    assert_eq!("image/png", a.mime_type);
    assert_eq!("shot.gif", a.filename);
}

#[test]
fn jpeg_bytes_are_sniffed_as_jpeg() {
    let a = attachment_from_content(vec![0xff, 0xd8, 0xff, 0xaa], None).unwrap();
    assert_eq!("image/jpeg", a.mime_type);
    assert_eq!("file.jpg", a.filename);
}

#[test]
fn undetectable_content_is_fatal() {
    let r = attachment_from_content(b"plain words".to_vec(), None);
    assert_eq!(Err(BuildError::UnknownMime), r.map(|_| ()));
}

#[test]
fn both_sources_are_rejected_before_any_access() {
    let r = select_source(
        false,
        Some("cat.png".to_string()),
        Some("http://example.org/cat.png".to_string()),
    );
    assert_eq!(Err(BuildError::ConflictingSources), r.map(|_| ()));
    // Rejected even when piped input would otherwise win.
    let r = select_source(
        true,
        Some("cat.png".to_string()),
        Some("http://example.org/cat.png".to_string()),
    );
    assert_eq!(Err(BuildError::ConflictingSources), r.map(|_| ()));
}

#[test]
fn piped_input_wins_over_a_file() {
    let r = select_source(true, Some("cat.png".to_string()), None).unwrap();
    assert!(matches!(r, AttachmentSource::Piped));
}

#[test]
fn file_wins_over_nothing() {
    let r = select_source(false, Some("cat.png".to_string()), None).unwrap();
    match r {
        AttachmentSource::LocalFile(f) => assert_eq!("cat.png", f),
        _ => panic!("expected the file source"),
    }
}

#[test]
fn url_is_used_when_nothing_else_is_given() {
    let r = select_source(false, None, Some("http://example.org/a".to_string())).unwrap();
    match r {
        AttachmentSource::RemoteUrl(u) => assert_eq!("http://example.org/a", u),
        _ => panic!("expected the remote source"),
    }
}

#[test]
fn no_source_means_no_attachment() {
    let r = select_source(false, None, None).unwrap();
    assert!(matches!(r, AttachmentSource::NoSource));
}

#[test]
fn builder_sets_credentials_and_message() {
    let n = Notification::new("token", "user", "message");
    assert_eq!("token", n.request.token);
    assert_eq!("user", n.request.user);
    assert_eq!("message", n.request.message);
    assert!(n.attachment.is_none());
}

#[test]
fn attach_content_synthesizes_the_filename() {
    let n = Notification::new("t", "u", "m")
        .attach_content(PNG.to_vec())
        .unwrap();
    let a = n.attachment.unwrap();
    assert_eq!("file.png", a.filename);
    assert_eq!("image/png", a.mime_type);
}

#[test]
fn attach_content_with_unknown_bytes_fails() {
    let r = Notification::new("t", "u", "m").attach_content(b"words".to_vec());
    assert!(matches!(r, Err(BuildError::UnknownMime)));
}
