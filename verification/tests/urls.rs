//! Tests for the URL builders.

use kiosk_native::config::{
    capture_url, decimal_string, photo_url, session_end_url, session_qr_url, sessions_url,
    wifi_qr_url, ws_url, QR_SIZE_LARGE, QR_SIZE_SMALL,
};

#[test]
fn test_sessions_url() {
    assert_eq!(sessions_url(), "http://localhost:8000/api/v1/sessions");
}

#[test]
fn test_session_end_url() {
    assert_eq!(
        session_end_url("abc-123"),
        "http://localhost:8000/api/v1/sessions/abc-123/end"
    );
}

#[test]
fn test_capture_url() {
    assert_eq!(
        capture_url("abc-123"),
        "http://localhost:8000/api/v1/sessions/abc-123/capture"
    );
}

#[test]
fn test_wifi_qr_url() {
    assert_eq!(
        wifi_qr_url(QR_SIZE_SMALL),
        "http://localhost:8000/api/v1/sessions/wifi-qr?size=150"
    );
}

#[test]
fn test_session_qr_url() {
    assert_eq!(
        session_qr_url("s9", QR_SIZE_LARGE),
        "http://localhost:8000/api/v1/sessions/s9/qr?size=280"
    );
}

#[test]
fn test_ws_url() {
    assert_eq!(ws_url("s9"), "ws://localhost:8000/api/v1/ws/kiosk/s9");
}

#[test]
fn test_photo_url() {
    assert_eq!(photo_url("http://elsewhere/p.jpg"), "http://elsewhere/p.jpg");
    assert_eq!(photo_url("https://elsewhere/p.jpg"), "https://elsewhere/p.jpg");
    assert_eq!(photo_url("/p.jpg"), "http://localhost:8000/p.jpg");
    assert_eq!(photo_url(""), "http://localhost:8000");
}

#[test]
fn test_decimal_string() {
    assert_eq!(decimal_string(0), "0");
    assert_eq!(decimal_string(7), "7");
    assert_eq!(decimal_string(150), "150");
    assert_eq!(decimal_string(4294967295), "4294967295");
}
