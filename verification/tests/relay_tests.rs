//! The relay server's decisions: size ceiling, authorization, forwarding.

use pop::relay::{handle_relay, parse_payload, RelayOutcome, MAX_BODY_BYTES};

fn decide(secret: Option<&str>, auth: Option<&str>, body: &str) -> RelayOutcome {
    handle_relay(
        &secret.map(|s| s.to_string()),
        &auth.map(|s| s.to_string()),
        &body.as_bytes().to_vec(),
        "server-token",
        "server-user",
    )
}

#[test]
fn no_header_is_rejected_when_secret_is_set() {
    let r = decide(Some("s3cret"), None, r#"{"message":"hi"}"#);
    assert!(matches!(r, RelayOutcome::Unauthorized));
}

#[test]
fn no_header_is_accepted_when_no_secret_is_set() {
    let r = decide(None, None, r#"{"message":"hi"}"#);
    assert!(matches!(r, RelayOutcome::Forward(_, _)));
}

#[test]
fn mismatched_value_is_rejected() {
    let r = decide(Some("s3cret"), Some("other"), r#"{"message":"hi"}"#);
    assert!(matches!(r, RelayOutcome::Unauthorized));
}

#[test]
fn matching_value_is_accepted() {
    let r = decide(Some("s3cret"), Some("s3cret"), r#"{"message":"hi"}"#);
    assert!(matches!(r, RelayOutcome::Forward(_, _)));
}

#[test]
fn oversized_body_is_rejected_before_parsing() {
    // Not valid JSON at all: the decision must come from the length alone.
    let big = "x".repeat(MAX_BODY_BYTES + 1);
    let r = decide(None, None, &big);
    assert!(matches!(r, RelayOutcome::TooLarge));
}

#[test]
fn body_at_the_ceiling_is_still_parsed() {
    let pad = " ".repeat(MAX_BODY_BYTES - r#"{"message":"hi"}"#.len());
    let body = format!("{}{}", r#"{"message":"hi"}"#, pad);
    assert_eq!(MAX_BODY_BYTES, body.len());
    let r = decide(None, None, &body);
    assert!(matches!(r, RelayOutcome::Forward(_, _)));
}

#[test]
fn malformed_body_is_rejected() {
    let r = decide(None, None, "not json");
    assert!(matches!(r, RelayOutcome::Malformed));
    let r = decide(None, None, r#"{"no_message":1}"#);
    assert!(matches!(r, RelayOutcome::Malformed));
}

#[test]
fn forwarded_request_carries_server_credentials() {
    let body = r#"{"message":"hello","device":"phone","html":true,"priority":2,"image_url":"http://example.org/cat.png"}"#;
    match decide(Some("s"), Some("s"), body) {
        RelayOutcome::Forward(req, image_url) => {
            assert_eq!("server-token", req.token);
            assert_eq!("server-user", req.user);
            assert_eq!("hello", req.message);
            assert_eq!(Some("phone".to_string()), req.device);
            assert_eq!(Some(1), req.html);
            assert_eq!(Some(2), req.priority);
            assert_eq!(Some("http://example.org/cat.png".to_string()), image_url);
        }
        _ => panic!("expected a forwarded request"),
    }
}

#[test]
fn payload_fields_are_bound_exactly() {
    let body =
        r#"{"message":"m","timestamp":1700000000,"sound":"bike","title":null,"html":false}"#;
    let p = parse_payload(&body.as_bytes().to_vec()).unwrap();
    assert_eq!("m", p.message);
    assert_eq!(Some(1700000000), p.timestamp);
    assert_eq!(Some("bike".to_string()), p.sound);
    assert_eq!(None, p.title);
    assert_eq!(Some(false), p.html);
    assert_eq!(None, p.image_url);
}

#[test]
fn payload_priority_out_of_range_is_malformed() {
    assert!(parse_payload(&br#"{"message":"m","priority":256}"#.to_vec()).is_none());
}

#[test]
fn payload_duplicate_field_is_malformed() {
    assert!(parse_payload(&br#"{"message":"a","message":"b"}"#.to_vec()).is_none());
}

#[test]
fn payload_unknown_fields_are_ignored() {
    let p = parse_payload(&br#"{"message":"m","extra":true}"#.to_vec()).unwrap();
    assert_eq!("m", p.message);
    let p = parse_payload(&br#"{"message":"m","meta":{"tags":["a",1],"score":0.5}}"#.to_vec())
        .unwrap();
    assert_eq!("m", p.message);
}
