//! Tests for the wire-frame decoder and the JSON parser beneath it.

use kiosk_native::json::{parse_json, Json};
use kiosk_native::state::KioskEvent;
use kiosk_native::wire::{parse_create_session_response, parse_message, WsEvent};

#[test]
fn test_parse_phone_connected() {
    let ev = parse_message(r#"{"type":"phone_connected"}"#);
    assert!(matches!(ev, Some(WsEvent::PhoneConnected)));
}

#[test]
fn test_parse_phone_disconnected() {
    let ev = parse_message(r#"{"type":"phone_disconnected","data":null}"#);
    assert!(matches!(ev, Some(WsEvent::PhoneDisconnected)));
}

#[test]
fn test_parse_countdown() {
    let ev = parse_message(r#"{"type":"countdown","data":{"value":3}}"#);
    assert!(matches!(ev, Some(WsEvent::Countdown(3))));
}

#[test]
fn test_parse_countdown_defaults_to_zero() {
    // Absent data
    let ev = parse_message(r#"{"type":"countdown"}"#);
    assert!(matches!(ev, Some(WsEvent::Countdown(0))));
    // Absent value
    let ev = parse_message(r#"{"type":"countdown","data":{}}"#);
    assert!(matches!(ev, Some(WsEvent::Countdown(0))));
    // Unparseable value
    let ev = parse_message(r#"{"type":"countdown","data":{"value":"three"}}"#);
    assert!(matches!(ev, Some(WsEvent::Countdown(0))));
    // Fractional value
    let ev = parse_message(r#"{"type":"countdown","data":{"value":2.5}}"#);
    assert!(matches!(ev, Some(WsEvent::Countdown(0))));
    // Negative value
    let ev = parse_message(r#"{"type":"countdown","data":{"value":-2}}"#);
    assert!(matches!(ev, Some(WsEvent::Countdown(0))));
}

#[test]
fn test_parse_photo_ready() {
    let ev = parse_message(
        r#"{"type":"photo_ready","data":{"id":"p7","thumbnailUrl":"/thumb7.jpg","webUrl":"/photo7.jpg"}}"#,
    );
    match ev {
        Some(WsEvent::PhotoReady(photo)) => {
            assert_eq!(photo.id, "p7");
            assert_eq!(photo.thumbnail_url, "/thumb7.jpg");
            assert_eq!(photo.web_url, "/photo7.jpg");
        }
        other => panic!("expected PhotoReady, got {:?}", other),
    }
}

#[test]
fn test_parse_photo_ready_missing_field_dropped() {
    let ev = parse_message(r#"{"type":"photo_ready","data":{"id":"p7"}}"#);
    assert!(ev.is_none());
    let ev = parse_message(r#"{"type":"photo_ready"}"#);
    assert!(ev.is_none());
}

#[test]
fn test_parse_capture_complete_and_processing() {
    assert!(matches!(
        parse_message(r#"{"type":"capture_complete"}"#),
        Some(WsEvent::CaptureComplete)
    ));
    assert!(matches!(
        parse_message(r#"{"type":"processing"}"#),
        Some(WsEvent::Processing)
    ));
    assert!(matches!(
        parse_message(r#"{"type":"session_ended"}"#),
        Some(WsEvent::SessionEnded)
    ));
}

#[test]
fn test_parse_capture_failed() {
    match parse_message(r#"{"type":"capture_failed","data":{"error":"lens cap on"}}"#) {
        Some(WsEvent::CaptureFailed(e)) => assert_eq!(e, "lens cap on"),
        other => panic!("expected CaptureFailed, got {:?}", other),
    }
    match parse_message(r#"{"type":"capture_failed"}"#) {
        Some(WsEvent::CaptureFailed(e)) => assert_eq!(e, "Unknown error"),
        other => panic!("expected CaptureFailed, got {:?}", other),
    }
}

#[test]
fn test_unknown_type_dropped() {
    assert!(parse_message(r#"{"type":"surprise"}"#).is_none());
    assert!(parse_message(r#"{"type":42}"#).is_none());
    assert!(parse_message(r#"{}"#).is_none());
}

#[test]
fn test_malformed_frames_dropped() {
    assert!(parse_message("").is_none());
    assert!(parse_message("not json").is_none());
    assert!(parse_message(r#"{"type":"countdown""#).is_none());
    assert!(parse_message(r#"["type","countdown"]"#).is_none());
    assert!(parse_message("42").is_none());
}

#[test]
fn test_parse_message_with_whitespace_and_escapes() {
    let ev = parse_message(" { \"type\" : \"capture_failed\" , \"data\" : { \"error\" : \"a\\nb \\u0041\" } } ");
    match ev {
        Some(WsEvent::CaptureFailed(e)) => assert_eq!(e, "a\nb A"),
        other => panic!("expected CaptureFailed, got {:?}", other),
    }
}

#[test]
fn test_parse_create_session_response() {
    let r = parse_create_session_response(r#"{"id":"abc-123","extra":true}"#).unwrap();
    assert_eq!(r.id, "abc-123");
    assert!(parse_create_session_response(r#"{"id":7}"#).is_none());
    assert!(parse_create_session_response("oops").is_none());
}

#[test]
fn test_json_numbers() {
    match parse_json("18446744073709551615") {
        Some(Json::Num(n)) => assert_eq!(n, Some(u64::MAX)),
        other => panic!("unexpected {:?}", other),
    }
    // One past the largest u64 still parses, but carries no value.
    match parse_json("18446744073709551616") {
        Some(Json::Num(n)) => assert_eq!(n, None),
        other => panic!("unexpected {:?}", other),
    }
    match parse_json("-0") {
        Some(Json::Num(n)) => assert_eq!(n, Some(0)),
        other => panic!("unexpected {:?}", other),
    }
    match parse_json("1e3") {
        Some(Json::Num(n)) => assert_eq!(n, None),
        other => panic!("unexpected {:?}", other),
    }
    // Leading zeros are not a number.
    assert!(parse_json("01").is_none());
    assert!(parse_json("1.").is_none());
    assert!(parse_json("+1").is_none());
}

#[test]
fn test_json_strings() {
    match parse_json(r#""a\"b\\c\/d\b\f\n\r\t""#) {
        Some(Json::Str(s)) => assert_eq!(s, "a\"b\\c/d\u{8}\u{c}\n\r\t"),
        other => panic!("unexpected {:?}", other),
    }
    match parse_json(r#""\u00e9\uD83D\uDE00""#) {
        Some(Json::Str(s)) => assert_eq!(s, "\u{e9}\u{1F600}"),
        other => panic!("unexpected {:?}", other),
    }
    // A lone surrogate is malformed.
    assert!(parse_json(r#""\uD83D""#).is_none());
    // A raw control character is malformed.
    assert!(parse_json("\"a\nb\"").is_none());
    assert!(parse_json(r#""unterminated"#).is_none());
}

#[test]
fn test_json_structures() {
    match parse_json(r#"[1, "two", null, true, {"k": []}]"#) {
        Some(Json::Arr(items)) => {
            assert_eq!(items.len(), 5);
            assert!(matches!(items[0], Json::Num(Some(1))));
            assert!(matches!(&items[1], Json::Str(s) if s == "two"));
            assert!(matches!(items[2], Json::Null));
            assert!(matches!(items[3], Json::Bool(true)));
            assert!(matches!(&items[4], Json::Obj(ms) if ms.len() == 1));
        }
        other => panic!("unexpected {:?}", other),
    }
    assert!(parse_json("[1,]").is_none());
    assert!(parse_json(r#"{"a":1,}"#).is_none());
    assert!(parse_json("[1] trailing").is_none());
}

#[test]
fn test_json_duplicate_keys_last_wins() {
    let v = parse_json(r#"{"a":1,"a":2}"#).unwrap();
    match v.get("a") {
        Some(Json::Num(n)) => assert_eq!(*n, Some(2)),
        other => panic!("unexpected {:?}", other),
    }
}

#[test]
fn test_json_depth_limit() {
    let deep_ok = format!("{}0{}", "[".repeat(128), "]".repeat(128));
    assert!(parse_json(&deep_ok).is_some());
    let too_deep = format!("{}0{}", "[".repeat(129), "]".repeat(129));
    assert!(parse_json(&too_deep).is_none());
}

/// The decoder agrees with an independent JSON implementation on the
/// fields the kiosk reads.
#[test]
fn test_frames_agree_with_serde_json() {
    let frames = [
        r#"{"type":"countdown","data":{"value":7}}"#,
        r#"{"type":"countdown","data":{"value":4294967296}}"#,
        r#"{"type":"capture_failed","data":{"error":"x"}}"#,
        r#"{"type":"photo_ready","data":{"id":"a","thumbnailUrl":"b","webUrl":"c"}}"#,
    ];
    for text in frames {
        let doc: serde_json::Value = serde_json::from_str(text).unwrap();
        let msg_type = doc.get("type").and_then(|t| t.as_str()).unwrap();
        let data = doc.get("data");
        let mine = parse_message(text);
        match msg_type {
            "countdown" => {
                let expect =
                    data.and_then(|d| d.get("value")).and_then(|v| v.as_u64()).unwrap_or(0) as u32;
                assert!(matches!(mine, Some(WsEvent::Countdown(v)) if v == expect));
            }
            "capture_failed" => {
                let expect = data
                    .and_then(|d| d.get("error"))
                    .and_then(|v| v.as_str())
                    .unwrap_or("Unknown error");
                assert!(matches!(&mine, Some(WsEvent::CaptureFailed(e)) if e == expect));
            }
            "photo_ready" => {
                let d = data.unwrap();
                match &mine {
                    Some(WsEvent::PhotoReady(p)) => {
                        assert_eq!(p.id, d.get("id").unwrap().as_str().unwrap());
                        assert_eq!(p.thumbnail_url, d.get("thumbnailUrl").unwrap().as_str().unwrap());
                        assert_eq!(p.web_url, d.get("webUrl").unwrap().as_str().unwrap());
                    }
                    other => panic!("unexpected {:?}", other),
                }
            }
            _ => unreachable!(),
        }
    }
}

#[test]
fn test_ws_event_to_kiosk_event() {
    let ev = parse_message(r#"{"type":"countdown","data":{"value":5}}"#).unwrap();
    assert!(matches!(
        ev.into_kiosk_event(),
        KioskEvent::CountdownTick { value: 5 }
    ));
    assert!(matches!(
        WsEvent::Connected.into_kiosk_event(),
        KioskEvent::WebSocketConnected
    ));
    assert!(matches!(
        WsEvent::Disconnected.into_kiosk_event(),
        KioskEvent::WebSocketDisconnected
    ));
    match WsEvent::CaptureFailed("e1".into()).into_kiosk_event() {
        KioskEvent::CaptureFailed { error } => assert_eq!(error, "e1"),
        other => panic!("unexpected {:?}", other),
    }
    let photo = match parse_message(
        r#"{"type":"photo_ready","data":{"id":"a","thumbnailUrl":"b","webUrl":"c"}}"#,
    )
    .unwrap()
    .into_kiosk_event()
    {
        KioskEvent::PhotoReady { photo } => photo,
        other => panic!("unexpected {:?}", other),
    };
    assert_eq!(photo.id, "a");
}
