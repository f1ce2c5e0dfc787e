//! Parsing the provider's JSON reply.

use pop::response::parse_response;

fn parse(s: &str) -> Option<pop::pushover::Response> {
    parse_response(&s.as_bytes().to_vec())
}

#[test]
fn success_reply_is_parsed_exactly() {
    let res = parse(r#"{"status":1,"request":"647d2300-702c-4b38-8b2f-d56326ae460b"}"#).unwrap();
    assert_eq!(1, res.status);
    assert_eq!("647d2300-702c-4b38-8b2f-d56326ae460b", res.request);
    assert!(res.errors.is_none());
}

#[test]
fn reply_fields_may_come_in_any_order_with_whitespace() {
    let res = parse(" { \"request\" : \"abc\" ,\n\t\"status\" : 0 } ").unwrap();
    assert_eq!(0, res.status);
    assert_eq!("abc", res.request);
}

#[test]
fn error_list_is_surfaced() {
    let res =
        parse(r#"{"status":0,"request":"x","errors":["user identifier is invalid","too long"]}"#)
            .unwrap();
    assert_eq!(0, res.status);
    assert_eq!(
        vec!["user identifier is invalid".to_string(), "too long".to_string()],
        res.errors.unwrap()
    );
}

#[test]
fn null_error_list_counts_as_absent() {
    let res = parse(r#"{"status":1,"request":"x","errors":null}"#).unwrap();
    assert!(res.errors.is_none());
}

#[test]
fn empty_error_list_is_kept() {
    let res = parse(r#"{"status":1,"request":"x","errors":[]}"#).unwrap();
    assert_eq!(Vec::<String>::new(), res.errors.unwrap());
}

#[test]
fn unknown_members_are_ignored() {
    let res = parse(r#"{"status":1,"request":"x","receipt":"r","secret":"SECRET-REDACTED"}"#)
        .unwrap();
    assert_eq!(1, res.status);
}

#[test]
fn string_escapes_are_decoded() {
    let res = parse(r#"{"status":1,"request":"a\"b\\c\/d\ne\tf"}"#).unwrap();
    assert_eq!("a\"b\\c/d\ne\tf", res.request);
}

#[test]
fn missing_status_is_malformed() {
    assert!(parse(r#"{"request":"x"}"#).is_none());
}

#[test]
fn missing_request_is_malformed() {
    assert!(parse(r#"{"status":1}"#).is_none());
}

#[test]
fn duplicate_member_is_malformed() {
    assert!(parse(r#"{"status":1,"status":2,"request":"x"}"#).is_none());
}

#[test]
fn wrong_member_type_is_malformed() {
    assert!(parse(r#"{"status":"1","request":"x"}"#).is_none());
    assert!(parse(r#"{"status":1,"request":7}"#).is_none());
    assert!(parse(r#"{"status":1,"request":"x","errors":"no"}"#).is_none());
}

#[test]
fn trailing_bytes_are_malformed() {
    assert!(parse(r#"{"status":1,"request":"x"} tail"#).is_none());
}

#[test]
fn number_out_of_range_is_malformed() {
    assert!(parse(r#"{"status":18446744073709551616,"request":"x"}"#).is_none());
}

#[test]
fn unsupported_escape_is_malformed() {
    assert!(parse(r#"{"status":1,"request":"\x"}"#).is_none());
}

#[test]
fn unicode_escapes_are_decoded() {
    let res = parse(r#"{"status":1,"request":"\u0041\u00e9\u2713"}"#).unwrap();
    assert_eq!("A\u{e9}\u{2713}", res.request);
}

#[test]
fn surrogate_pairs_are_combined() {
    let res = parse(r#"{"status":1,"request":"\uD83D\uDE00"}"#).unwrap();
    assert_eq!("\u{1F600}", res.request);
}

#[test]
fn lone_surrogate_is_malformed() {
    assert!(parse(r#"{"status":1,"request":"\uD800"}"#).is_none());
    assert!(parse(r#"{"status":1,"request":"\uDC00"}"#).is_none());
    assert!(parse(r#"{"status":1,"request":"\uD800\u0041"}"#).is_none());
}

#[test]
fn unknown_members_of_any_shape_are_ignored() {
    let res = parse(
        r#"{"status":1,"request":"x","info":{"a":[1,2.5],"b":{"c":null}},"rate":-3.5e2,"tags":[1,"two"]}"#,
    )
    .unwrap();
    assert_eq!(1, res.status);
    assert_eq!("x", res.request);
}

#[test]
fn unbalanced_unknown_member_is_malformed() {
    assert!(parse(r#"{"status":1,"request":"x","info":{"a":[1,2}}"#).is_none());
}

#[test]
fn wrong_shape_under_known_member_is_malformed() {
    assert!(parse(r#"{"status":1.5,"request":"x"}"#).is_none());
    assert!(parse(r#"{"status":{"n":1},"request":"x"}"#).is_none());
    assert!(parse(r#"{"status":-1,"request":"x"}"#).is_none());
}

#[test]
fn raw_control_byte_is_malformed() {
    assert!(parse("{\"status\":1,\"request\":\"a\u{1}b\"}").is_none());
}

#[test]
fn invalid_utf8_is_malformed() {
    let mut body = br#"{"status":1,"request":""#.to_vec();
    body.push(0xff);
    body.extend_from_slice(br#""}"#);
    assert!(parse_response(&body).is_none());
}

#[test]
fn non_object_document_is_malformed() {
    assert!(parse("7").is_none());
    assert!(parse("[\"a\"]").is_none());
    assert!(parse("").is_none());
    assert!(parse("{\"status\":1,\"request\":\"x\"").is_none());
}

#[test]
fn empty_object_is_missing_both_fields() {
    assert!(parse("{}").is_none());
    assert!(parse("{ }").is_none());
}

#[test]
fn utf8_text_in_strings_is_kept() {
    let res = parse("{\"status\":1,\"request\":\"na\u{ef}ve \u{2713}\"}").unwrap();
    assert_eq!("na\u{ef}ve \u{2713}", res.request);
}
