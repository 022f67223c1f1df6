use screensnap::json::{body_valid, escape_bytes, extract_response, string_member, tag_names,
    tags_lists_model};

#[test]
fn tag_names_are_gathered_in_order() {
    let body = br#"{"models":[{"name":"llama3:8b","size":1},{"size":2},{"name":"llava:latest"}]}"#;
    assert_eq!(
        tag_names(body),
        Some(vec![b"llama3:8b".to_vec(), b"llava:latest".to_vec()])
    );
    assert_eq!(tag_names(b"{}"), Some(vec![]));
    assert_eq!(tag_names(b"broken"), None);
}

#[test]
fn response_member_is_extracted_exactly() {
    let body = br#"{"response":"X"}"#;
    assert_eq!(extract_response(body), Some(b"X".to_vec()));
}

#[test]
fn response_member_found_among_other_members() {
    let body = br#"{"model":"llava:latest","created_at":"2024-01-01T00:00:00Z","response":"A blue desktop.","done":true,"context":[1,2,3],"eval_count":42}"#;
    assert_eq!(extract_response(body), Some(b"A blue desktop.".to_vec()));
}

#[test]
fn whitespace_around_tokens_is_insignificant() {
    let body = b" { \"done\" : true , \"response\" : \"ok\" } ";
    assert_eq!(extract_response(body), Some(b"ok".to_vec()));
}

#[test]
fn escapes_in_the_response_are_decoded() {
    let body = br#"{"response":"line1\nline2 \"quoted\" back\\slash A"}"#;
    assert_eq!(
        extract_response(body),
        Some(b"line1\nline2 \"quoted\" back\\slash A".to_vec())
    );
}

#[test]
fn surrogate_pairs_decode_to_utf8() {
    let mut body = b"{\"response\":\"".to_vec();
    body.extend_from_slice("\u{1F600}".as_bytes());
    body.extend_from_slice(b"\"}");
    let expected = "\u{1F600}".as_bytes().to_vec();
    assert_eq!(extract_response(&body), Some(expected.clone()));
    // The same character written as an escaped surrogate pair.
    let escaped = br#"{"response":"\ud83d\ude00"}"#;
    assert_eq!(extract_response(escaped), Some(expected));
}

#[test]
fn lone_surrogate_is_rejected() {
    let body = br#"{"response":"\ud83d"}"#;
    assert_eq!(extract_response(body), None);
}

#[test]
fn malformed_bodies_yield_nothing() {
    assert_eq!(extract_response(b"{\"response\":\"X\""), None);
    assert_eq!(extract_response(b"not json"), None);
    assert_eq!(extract_response(b"{\"response\":17}"), None);
    assert_eq!(extract_response(b"{}"), None);
    assert_eq!(extract_response(b""), None);
    // Trailing garbage after a well-formed object is malformed too.
    assert_eq!(extract_response(b"{\"response\":\"X\"} extra"), None);
}

#[test]
fn body_validation_accepts_any_single_value() {
    assert!(body_valid(b"true"));
    assert!(body_valid(b"[1, 2.5, -3e8, \"s\", null, {}]"));
    assert!(body_valid(b"  -12.75e-2  "));
    assert!(!body_valid(b"01"));
    assert!(!body_valid(b"[1,]"));
    assert!(!body_valid(b"{\"a\":}"));
    assert!(!body_valid(b"\"\x01\""));
}

#[test]
fn string_member_takes_the_first_match() {
    let body = br#"{"a":"first","a":"second"}"#;
    assert_eq!(string_member(body, b"a"), Some(b"first".to_vec()));
    assert_eq!(string_member(body, b"b"), None);
}

#[test]
fn tags_listing_is_searched_by_name() {
    let body = br#"{"models":[{"name":"llama3:8b","size":123},{"name":"llava:latest","size":456}]}"#;
    assert_eq!(tags_lists_model(body, b"llava:latest"), Some(true));
    assert_eq!(tags_lists_model(body, b"llava:13b"), Some(false));
}

#[test]
fn tags_listing_without_models_lists_nothing() {
    assert_eq!(tags_lists_model(b"{}", b"llava:latest"), Some(false));
    assert_eq!(tags_lists_model(b"{\"models\":[]}", b"llava:latest"), Some(false));
    assert_eq!(tags_lists_model(b"{\"models\":17}", b"llava:latest"), Some(false));
    assert_eq!(tags_lists_model(b"[]", b"llava:latest"), Some(false));
}

#[test]
fn tags_listing_that_is_not_json_is_an_error() {
    assert_eq!(tags_lists_model(b"oops", b"llava:latest"), None);
}

#[test]
fn escaping_quotes_and_controls() {
    assert_eq!(escape_bytes(b"plain"), b"plain".to_vec());
    assert_eq!(escape_bytes(b"a\"b"), b"a\\\"b".to_vec());
    assert_eq!(escape_bytes(b"a\\b"), b"a\\\\b".to_vec());
    assert_eq!(escape_bytes(b"a\nb\tc"), b"a\\nb\\tc".to_vec());
    assert_eq!(escape_bytes(&[0x01u8]), b"\\u0001".to_vec());
    assert_eq!(escape_bytes(&[0x1fu8]), b"\\u001f".to_vec());
}

#[test]
fn escaped_text_survives_the_round_trip() {
    let text: &[u8] = b"a \"b\"\nc\\d\te\x08\x0c\r";
    let escaped = escape_bytes(text);
    let mut body = b"{\"response\":\"".to_vec();
    body.extend_from_slice(&escaped);
    body.extend_from_slice(b"\"}");
    assert_eq!(extract_response(&body), Some(text.to_vec()));
}
