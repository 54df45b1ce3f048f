//! The AJAX decoder and the response deciders, on concrete replies.

use libtabun::ajax::{ajax_id_field, decode_ajax};
use libtabun::comments::comment_response;
use libtabun::session::{favourite_response, subscribe_response, upload_image_response};
use libtabun::TabunError;

#[test]
fn decode_success_object_passes_through() {
    let r = decode_ajax(r#"{"bStateError": false, "sCommentId": "42"}"#);
    let payload = r.expect("success payload should decode");
    assert_eq!(payload, r#"{"bStateError": false, "sCommentId": "42"}"#);
    assert_eq!(ajax_id_field(&payload, "/sCommentId"), Some(42));
}

#[test]
fn decode_error_envelope_yields_structured_error() {
    let r = decode_ajax(r#"{"bStateError": true, "sMsgTitle": "T", "sMsg": "M"}"#);
    match r {
        Err(TabunError::Error(title, msg)) => {
            assert_eq!(title, "T");
            assert_eq!(msg, "M");
        },
        other => panic!("expected the structured error, got {:?}", other),
    }
}

#[test]
fn decode_error_envelope_with_missing_fields_defaults_empty() {
    let r = decode_ajax(r#"{"bStateError": true}"#);
    match r {
        Err(TabunError::Error(title, msg)) => {
            assert_eq!(title, "");
            assert_eq!(msg, "");
        },
        other => panic!("expected the structured error, got {:?}", other),
    }
}

#[test]
fn decode_is_deterministic_on_same_bytes() {
    let raw = r#"  {"bStateError": false, "sCommentId": "42"}  "#;
    let r1 = decode_ajax(raw);
    let r2 = decode_ajax(raw);
    assert_eq!(r1, r2);
    let raw_err = r#"{"bStateError": true, "sMsgTitle": "a", "sMsg": "b"}"#;
    assert_eq!(decode_ajax(raw_err), decode_ajax(raw_err));
}

#[test]
fn hacking_sentinel_wins_before_any_json() {
    assert_eq!(decode_ajax("Hacking attempt!"), Err(TabunError::HackingAttempt));
    // Even when everything after the sentinel is well-formed JSON.
    assert_eq!(
        decode_ajax("Hacking {\"bStateError\": false}"),
        Err(TabunError::HackingAttempt)
    );
    // And when whitespace precedes it.
    assert_eq!(decode_ajax("   Hacking attempt!"), Err(TabunError::HackingAttempt));
}

#[test]
fn textarea_wrapped_json_is_unwrapped() {
    let raw = "<textarea>{\"bStateError\": false, \"sCommentId\": 7}</textarea>";
    let payload = decode_ajax(raw).expect("wrapped payload should decode");
    assert_eq!(payload, "{\"bStateError\": false, \"sCommentId\": 7}");
    assert_eq!(ajax_id_field(&payload, "/sCommentId"), Some(7));
}

#[test]
fn malformed_json_is_a_parse_error() {
    match decode_ajax("{not json") {
        Err(TabunError::ParseError(_, _)) => {},
        other => panic!("expected a parse error, got {:?}", other),
    }
    // A JSON value that is not an object is refused too.
    match decode_ajax("[1, 2, 3]") {
        Err(TabunError::ParseError(_, _)) => {},
        other => panic!("expected a parse error, got {:?}", other),
    }
}

#[test]
fn comment_response_reads_string_and_number_ids() {
    assert_eq!(
        comment_response(r#"{"bStateError": false, "sCommentId": "555"}"#),
        Ok(555)
    );
    assert_eq!(
        comment_response(r#"{"bStateError": false, "sCommentId": 556}"#),
        Ok(556)
    );
    match comment_response(r#"{"bStateError": false}"#) {
        Err(TabunError::ParseError(_, _)) => {},
        other => panic!("expected a parse error, got {:?}", other),
    }
}

#[test]
fn favourite_response_reads_the_count() {
    assert_eq!(favourite_response(r#"{"bStateError": false, "iCount": 3}"#), Ok(3));
    match favourite_response(r#"{"bStateError": false}"#) {
        Err(TabunError::ParseError(_, _)) => {},
        other => panic!("expected a parse error, got {:?}", other),
    }
}

#[test]
fn subscribe_response_accepts_any_success_payload() {
    assert_eq!(subscribe_response(r#"{"bStateError": false}"#), Ok(()));
    assert_eq!(
        subscribe_response("Hacking attempt!"),
        Err(TabunError::HackingAttempt)
    );
}

#[test]
fn upload_image_response_recovers_the_address() {
    let raw = r#"{"bStateError": false, "sText": "<img src=\"https://cdn.example/i.png\">"}"#;
    assert_eq!(
        upload_image_response(raw),
        Ok(String::from("https://cdn.example/i.png"))
    );
    match upload_image_response(r#"{"bStateError": false}"#) {
        Err(TabunError::ParseError(_, _)) => {},
        other => panic!("expected a parse error, got {:?}", other),
    }
}
