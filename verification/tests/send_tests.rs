//! The dispatcher's two computing halves, exercised together: the request
//! is encoded as a multipart form, and the provider's canned reply is
//! parsed back. The network hop between them is plain HTTP transport.

use pop::form::{Form, TextPart};
use pop::notification::Notification;
use pop::pushover::{Request, Response};
use pop::response::parse_response;
use pop::wrapped::Wrapped;

const REPLY: &str = r#"{"status":1,"request":"647d2300-702c-4b38-8b2f-d56326ae460b"}"#;

fn has_part(texts: &[TextPart], name: &str, value: &str) -> bool {
    texts.iter().any(|p| p.name == name && p.value == value)
}

fn dispatch(form: Form) -> Response {
    assert!(has_part(&form.texts, "token", "token"));
    assert!(has_part(&form.texts, "user", "user"));
    assert!(has_part(&form.texts, "message", "message"));
    parse_response(&REPLY.as_bytes().to_vec()).unwrap()
}

#[test]
fn test_send() {
    let request = Notification::new("token", "user", "message");
    let res = dispatch(request.encode());
    assert_eq!(1, res.status);
    assert_eq!("647d2300-702c-4b38-8b2f-d56326ae460b", res.request);
}

#[test]
fn wrapped_test_send() {
    let inner = Request::new("token", "user", "message");
    let request = Wrapped {
        request: inner,
        ..Default::default()
    };
    let res = dispatch(request.encode());
    assert_eq!(1, res.status);
    assert_eq!("647d2300-702c-4b38-8b2f-d56326ae460b", res.request);
}

#[test]
fn request_test_send() {
    let inner = Request::new("token", "user", "message");
    let request = Wrapped {
        request: inner,
        attachment: None,
    };
    let res = dispatch(request.encode());
    assert_eq!(1, res.status);
    assert_eq!("647d2300-702c-4b38-8b2f-d56326ae460b", res.request);
}

fn test_with_request(request: Request) {
    let notification = Notification {
        request,
        attachment: None,
    };
    let res = dispatch(notification.encode());
    assert_eq!(1, res.status);
    assert_eq!("647d2300-702c-4b38-8b2f-d56326ae460b", res.request);
}

#[test]
fn test_device() {
    let mut request = Request::new("token", "user", "message");
    request.device = Some("device".to_string());
    test_with_request(request);
}

#[test]
fn test_title() {
    let mut request = Request::new("token", "user", "message");
    request.title = Some("title".to_string());
    test_with_request(request);
}

#[test]
fn test_html() {
    let mut request = Request::new("token", "user", "message");
    request.html = Some(1);
    test_with_request(request);
}

#[test]
fn test_timestamp() {
    let mut request = Request::new("token", "user", "message");
    request.timestamp = Some(1);
    test_with_request(request);
}

#[test]
fn test_priority() {
    let mut request = Request::new("token", "user", "message");
    request.priority = Some(1);
    test_with_request(request);
}

#[test]
fn test_url() {
    let mut request = Request::new("token", "user", "message");
    request.url = Some("rust-lang.org".to_string());
    test_with_request(request);
}

#[test]
fn test_url_title() {
    let mut request = Request::new("token", "user", "message");
    request.url_title = Some("url title".to_string());
    test_with_request(request);
}
