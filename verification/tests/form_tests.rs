//! The encoded multipart form: which text parts appear, with which values.

use pop::form::{Form, TextPart};
use pop::notification::Notification;
use pop::numeric::u64_to_string;
use pop::pushover::{endpoint_url, Request};
use pop::wrapped::Wrapped;

fn value_of<'a>(texts: &'a [TextPart], name: &str) -> Option<&'a str> {
    let mut found: Option<&'a str> = None;
    for p in texts {
        if p.name == name {
            assert!(found.is_none(), "two parts under one name");
            found = Some(&p.value);
        }
    }
    found
}

fn encode(request: Request) -> Form {
    Notification {
        request,
        attachment: None,
    }
    .encode()
}

#[test]
fn required_fields_give_exactly_three_parts() {
    let form = encode(Request::new("token", "user", "message"));
    assert_eq!(3, form.texts.len());
    assert_eq!(Some("token"), value_of(&form.texts, "token"));
    assert_eq!(Some("user"), value_of(&form.texts, "user"));
    assert_eq!(Some("message"), value_of(&form.texts, "message"));
    assert!(form.attachment.is_none());
}

#[test]
fn each_optional_field_becomes_one_part() {
    let mut request = Request::new("t", "u", "m");
    request.device = Some("phone".to_string());
    request.title = Some("hi".to_string());
    request.html = Some(1);
    request.timestamp = Some(1700000000);
    request.priority = Some(2);
    request.url = Some("https://example.org".to_string());
    request.url_title = Some("example".to_string());
    request.sound = Some("bike".to_string());
    let form = encode(request);
    assert_eq!(11, form.texts.len());
    assert_eq!(Some("phone"), value_of(&form.texts, "device"));
    assert_eq!(Some("hi"), value_of(&form.texts, "title"));
    assert_eq!(Some("1"), value_of(&form.texts, "html"));
    assert_eq!(Some("1700000000"), value_of(&form.texts, "timestamp"));
    assert_eq!(Some("2"), value_of(&form.texts, "priority"));
    assert_eq!(Some("https://example.org"), value_of(&form.texts, "url"));
    assert_eq!(Some("example"), value_of(&form.texts, "url_title"));
    assert_eq!(Some("bike"), value_of(&form.texts, "sound"));
}

#[test]
fn unset_optional_fields_give_no_part() {
    let mut request = Request::new("t", "u", "m");
    request.title = Some("only this".to_string());
    let form = encode(request);
    assert_eq!(4, form.texts.len());
    assert_eq!(Some("only this"), value_of(&form.texts, "title"));
    assert_eq!(None, value_of(&form.texts, "device"));
    assert_eq!(None, value_of(&form.texts, "html"));
    assert_eq!(None, value_of(&form.texts, "timestamp"));
    assert_eq!(None, value_of(&form.texts, "priority"));
    assert_eq!(None, value_of(&form.texts, "url"));
    assert_eq!(None, value_of(&form.texts, "url_title"));
    assert_eq!(None, value_of(&form.texts, "sound"));
}

#[test]
fn wrapped_encodes_every_populated_field() {
    let mut request = Request::new("t", "u", "m");
    request.device = Some("phone".to_string());
    request.sound = Some("bike".to_string());
    let form = Wrapped {
        request,
        attachment: None,
    }
    .encode();
    assert_eq!(5, form.texts.len());
    assert_eq!(Some("phone"), value_of(&form.texts, "device"));
    assert_eq!(Some("bike"), value_of(&form.texts, "sound"));
}

#[test]
fn attachment_part_carries_name_type_and_bytes() {
    let n = Notification::new("t", "u", "m").attach("cat.png", "image/png", vec![1, 2, 3]);
    let form = n.encode();
    let a = form.attachment.expect("attachment part");
    assert_eq!("cat.png", a.filename);
    assert_eq!("image/png", a.mime_type);
    assert_eq!(vec![1, 2, 3], a.content);
}

#[test]
fn numeric_fields_are_rendered_in_decimal() {
    assert_eq!("0", u64_to_string(0));
    assert_eq!("7", u64_to_string(7));
    assert_eq!("1234567890", u64_to_string(1234567890));
    assert_eq!("18446744073709551615", u64_to_string(u64::MAX));
}

#[test]
fn endpoint_is_the_provider() {
    assert_eq!("https://api.pushover.net", endpoint_url());
}
