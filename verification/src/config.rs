//! Configuration constants and the URL builders for the backend API.

use vstd::prelude::*;

use crate::json::push_char;

verus! {

/// Base URL for HTTP API calls
pub const API_BASE: &'static str = "http://localhost:8000";

/// Base URL for event-stream connections
pub const WS_BASE: &'static str = "ws://localhost:8000";

/// Camera preview endpoint
pub const CAMERA_PREVIEW_URL: &'static str = "http://localhost:8000/api/v1/camera/preview";

/// QR code size in pixels (small, for collapsed view)
pub const QR_SIZE_SMALL: u32 = 150;

/// QR code size in pixels (large, for expanded view)
pub const QR_SIZE_LARGE: u32 = 280;

/// Event-stream reconnection delay in milliseconds
pub const WS_RECONNECT_DELAY_MS: u64 = 2000;

/// Error message display duration in milliseconds
pub const ERROR_DISPLAY_DURATION_MS: u64 = 5000;

/// The character for one decimal digit.
pub open spec fn decimal_digit(d: u32) -> char {
    if d == 0 {
        '0'
    } else if d == 1 {
        '1'
    } else if d == 2 {
        '2'
    } else if d == 3 {
        '3'
    } else if d == 4 {
        '4'
    } else if d == 5 {
        '5'
    } else if d == 6 {
        '6'
    } else if d == 7 {
        '7'
    } else if d == 8 {
        '8'
    } else {
        '9'
    }
}

/// The decimal digits of `n`, most significant first, no sign and no
/// leading zero.
pub open spec fn spec_decimal(n: u32) -> Seq<char>
    decreases n,
{
    if n < 10 {
        seq![decimal_digit(n)]
    } else {
        spec_decimal(n / 10).push(decimal_digit(n % 10))
    }
}

/// The character for one decimal digit.
fn decimal_digit_char(d: u32) -> (c: char)
    requires
        d < 10,
    ensures
        c == decimal_digit(d),
{
    if d == 0 {
        '0'
    } else if d == 1 {
        '1'
    } else if d == 2 {
        '2'
    } else if d == 3 {
        '3'
    } else if d == 4 {
        '4'
    } else if d == 5 {
        '5'
    } else if d == 6 {
        '6'
    } else if d == 7 {
        '7'
    } else if d == 8 {
        '8'
    } else {
        '9'
    }
}

/// Format a number in decimal.
pub fn decimal_string(n: u32) -> (r: String)
    ensures
        r@ == spec_decimal(n),
    decreases n,
{
    if n < 10 {
        let mut s = String::new();
        push_char(&mut s, decimal_digit_char(n));
        proof {
            assert(Seq::<char>::empty().push(decimal_digit(n)) =~= seq![decimal_digit(n)]);
        }
        s
    } else {
        let mut s = decimal_string(n / 10);
        push_char(&mut s, decimal_digit_char(n % 10));
        s
    }
}

/// Append one string slice to another, as a fresh string.
fn concat_str(a: &str, b: &str) -> (r: String)
    ensures
        r@ == a@ + b@,
{
    let mut s = String::from_str(a);
    s.append(b);
    s
}

/// Build the sessions API URL
pub fn sessions_url() -> (r: String)
    ensures
        r@ == "http://localhost:8000/api/v1/sessions"@,
{
    String::from_str("http://localhost:8000/api/v1/sessions")
}

/// Build the session end URL
pub fn session_end_url(session_id: &str) -> (r: String)
    ensures
        r@ == "http://localhost:8000/api/v1/sessions/"@ + session_id@ + "/end"@,
{
    let mut s = String::from_str("http://localhost:8000/api/v1/sessions/");
    s.append(session_id);
    s.append("/end");
    s
}

/// Build the capture URL
pub fn capture_url(session_id: &str) -> (r: String)
    ensures
        r@ == "http://localhost:8000/api/v1/sessions/"@ + session_id@ + "/capture"@,
{
    let mut s = String::from_str("http://localhost:8000/api/v1/sessions/");
    s.append(session_id);
    s.append("/capture");
    s
}

/// Build the WiFi QR URL
pub fn wifi_qr_url(size: u32) -> (r: String)
    ensures
        r@ == "http://localhost:8000/api/v1/sessions/wifi-qr?size="@ + spec_decimal(size),
{
    let mut s = String::from_str("http://localhost:8000/api/v1/sessions/wifi-qr?size=");
    let digits = decimal_string(size);
    s.append(digits.as_str());
    s
}

/// Build the session QR URL
pub fn session_qr_url(session_id: &str, size: u32) -> (r: String)
    ensures
        r@ == "http://localhost:8000/api/v1/sessions/"@ + session_id@ + "/qr?size="@
            + spec_decimal(size),
{
    let mut s = String::from_str("http://localhost:8000/api/v1/sessions/");
    s.append(session_id);
    s.append("/qr?size=");
    let digits = decimal_string(size);
    s.append(digits.as_str());
    s
}

/// Build the event-stream URL for a session
pub fn ws_url(session_id: &str) -> (r: String)
    ensures
        r@ == "ws://localhost:8000/api/v1/ws/kiosk/"@ + session_id@,
{
    concat_str("ws://localhost:8000/api/v1/ws/kiosk/", session_id)
}

/// The full URL for a photo path: an absolute URL is kept, any other
/// path is resolved against the API base.
pub open spec fn spec_photo_url(path: Seq<char>) -> Seq<char> {
    if path.len() >= 4 && path.subrange(0, 4) == "http"@ {
        path
    } else {
        "http://localhost:8000"@ + path
    }
}

/// Build the full URL for a photo path
pub fn photo_url(path: &str) -> (r: String)
    ensures
        r@ == spec_photo_url(path@),
{
    proof {
        reveal_strlit("http");
    }
    let absolute = path.unicode_len() >= 4 && path.get_char(0) == 'h' && path.get_char(1) == 't'
        && path.get_char(2) == 't' && path.get_char(3) == 'p';
    if absolute {
        proof {
            assert(path@.subrange(0, 4) =~= "http"@);
        }
        String::from_str(path)
    } else {
        proof {
            if path@.len() >= 4 && path@.subrange(0, 4) == "http"@ {
                assert(path@.subrange(0, 4)[0] == path@[0]);
                assert(path@.subrange(0, 4)[1] == path@[1]);
                assert(path@.subrange(0, 4)[2] == path@[2]);
                assert(path@.subrange(0, 4)[3] == path@[3]);
            }
        }
        concat_str("http://localhost:8000", path)
    }
}

} // verus!
