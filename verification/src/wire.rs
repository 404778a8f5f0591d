//! The kiosk's wire vocabulary: the frames the event stream delivers
//! and the bodies the HTTP backend returns, decoded into a closed set
//! of domain events.
//!
//! A frame is a JSON object `{"type": <string>, "data": <object>}`;
//! [`parse_message`] maps its `type` discriminator to exactly one
//! [`WsEvent`]. Unknown types and malformed frames decode to `None`:
//! the caller drops them, so a single corrupt frame can never interrupt
//! live event delivery.

use vstd::prelude::*;

use crate::json::{parse_json, sp_json, jv_get, Json, JsonView};
use crate::state::{KioskEvent, EventView, PhotoInfo, PhotoView};

verus! {

/// Events received over the session's event stream.
#[derive(Debug, Clone)]
pub enum WsEvent {
    /// A phone connected to the session
    PhoneConnected,
    /// A phone disconnected from the session
    PhoneDisconnected,
    /// Countdown tick (value is seconds remaining)
    Countdown(u32),
    /// A photo is ready
    PhotoReady(PhotoInfo),
    /// The backend is processing a capture
    Processing,
    /// Capture sequence completed
    CaptureComplete,
    /// Capture failed with error message
    CaptureFailed(String),
    /// Session was ended
    SessionEnded,
    /// Connection established
    Connected,
    /// Connection lost (a reconnect will be attempted)
    Disconnected,
}

/// Mathematical model of a [`WsEvent`].
#[verifier::ext_equal]
pub ghost enum WsEventView {
    PhoneConnected,
    PhoneDisconnected,
    Countdown(u32),
    PhotoReady(PhotoView),
    Processing,
    CaptureComplete,
    CaptureFailed(Seq<char>),
    SessionEnded,
    Connected,
    Disconnected,
}

impl View for WsEvent {
    type V = WsEventView;

    open spec fn view(&self) -> WsEventView {
        match self {
            WsEvent::PhoneConnected => WsEventView::PhoneConnected,
            WsEvent::PhoneDisconnected => WsEventView::PhoneDisconnected,
            WsEvent::Countdown(v) => WsEventView::Countdown(*v),
            WsEvent::PhotoReady(p) => WsEventView::PhotoReady(p@),
            WsEvent::Processing => WsEventView::Processing,
            WsEvent::CaptureComplete => WsEventView::CaptureComplete,
            WsEvent::CaptureFailed(e) => WsEventView::CaptureFailed(e@),
            WsEvent::SessionEnded => WsEventView::SessionEnded,
            WsEvent::Connected => WsEventView::Connected,
            WsEvent::Disconnected => WsEventView::Disconnected,
        }
    }
}

/// The countdown value carried by a frame's data: its `value` member
/// when that is an unsigned integer (taken modulo 2^32), zero when the
/// member or the data is absent or of another shape.
pub open spec fn spec_countdown_value(data: Option<JsonView>) -> u32 {
    match data {
        Some(d) => match jv_get(d, "value"@) {
            Some(JsonView::Num(Some(v))) => v as u32,
            _ => 0,
        },
        None => 0,
    }
}

/// The error text carried by a frame's data, or a fixed fallback when
/// none is present.
pub open spec fn spec_error_text(data: Option<JsonView>) -> Seq<char> {
    match data {
        Some(d) => match jv_get(d, "error"@) {
            Some(JsonView::Str(e)) => e,
            _ => "Unknown error"@,
        },
        None => "Unknown error"@,
    }
}

/// The photo described by a frame's data: present exactly when the
/// data is an object whose `id`, `thumbnailUrl` and `webUrl` members
/// are all strings.
pub open spec fn spec_photo(data: Option<JsonView>) -> Option<PhotoView> {
    match data {
        Some(d) => match (jv_get(d, "id"@), jv_get(d, "thumbnailUrl"@), jv_get(d, "webUrl"@)) {
            (
                Some(JsonView::Str(id)),
                Some(JsonView::Str(tu)),
                Some(JsonView::Str(wu)),
            ) => Some(PhotoView { id: id, thumbnail_url: tu, web_url: wu }),
            _ => None,
        },
        None => None,
    }
}

/// The event a frame announces, given its `type` discriminator and its
/// data. An unknown discriminator announces nothing.
pub open spec fn spec_event_of(t: Seq<char>, data: Option<JsonView>) -> Option<WsEventView> {
    if t == "phone_connected"@ {
        Some(WsEventView::PhoneConnected)
    } else if t == "phone_disconnected"@ {
        Some(WsEventView::PhoneDisconnected)
    } else if t == "countdown"@ {
        Some(WsEventView::Countdown(spec_countdown_value(data)))
    } else if t == "photo_ready"@ {
        match spec_photo(data) {
            Some(p) => Some(WsEventView::PhotoReady(p)),
            None => None,
        }
    } else if t == "capture_complete"@ {
        Some(WsEventView::CaptureComplete)
    } else if t == "capture_failed"@ {
        Some(WsEventView::CaptureFailed(spec_error_text(data)))
    } else if t == "session_ended"@ {
        Some(WsEventView::SessionEnded)
    } else if t == "processing"@ {
        Some(WsEventView::Processing)
    } else {
        None
    }
}

/// The event an inbound frame text announces: the text must be a JSON
/// object whose `type` member is a string; anything else, and any
/// unknown type, announces nothing.
pub open spec fn spec_parse_message(s: Seq<char>) -> Option<WsEventView> {
    match sp_json(s) {
        Some(doc) => match jv_get(doc, "type"@) {
            Some(JsonView::Str(t)) => spec_event_of(t, jv_get(doc, "data"@)),
            _ => None,
        },
        None => None,
    }
}

/// Whether a string equals a literal.
fn str_is(a: &String, lit: &str) -> (b: bool)
    ensures
        b == (a@ == lit@),
{
    let other = String::from_str(lit);
    a.eq(&other)
}

/// Decode one inbound frame into its domain event, exactly as
/// [`spec_parse_message`] describes. `None` means the frame is
/// malformed or of an unknown type and must be dropped.
pub fn parse_message(text: &str) -> (r: Option<WsEvent>)
    ensures
        (match r {
            Some(e) => spec_parse_message(text@) == Some(e@),
            None => spec_parse_message(text@) is None,
        }),
{
    let doc = match parse_json(text) {
        Some(doc) => doc,
        None => {
            return None;
        },
    };
    let t = match doc.get("type") {
        Some(Json::Str(t)) => t,
        _ => {
            return None;
        },
    };
    let data = doc.get("data");
    if str_is(t, "phone_connected") {
        Some(WsEvent::PhoneConnected)
    } else if str_is(t, "phone_disconnected") {
        Some(WsEvent::PhoneDisconnected)
    } else if str_is(t, "countdown") {
        let value: u32 = match data {
            Some(d) => match d.get("value") {
                Some(Json::Num(Some(v))) => #[verifier::truncate] (*v as u32),
                _ => 0,
            },
            None => 0,
        };
        Some(WsEvent::Countdown(value))
    } else if str_is(t, "photo_ready") {
        let d = match data {
            Some(d) => d,
            None => {
                return None;
            },
        };
        let id = match d.get("id") {
            Some(Json::Str(s)) => s,
            _ => {
                return None;
            },
        };
        let tu = match d.get("thumbnailUrl") {
            Some(Json::Str(s)) => s,
            _ => {
                return None;
            },
        };
        let wu = match d.get("webUrl") {
            Some(Json::Str(s)) => s,
            _ => {
                return None;
            },
        };
        Some(
            WsEvent::PhotoReady(
                PhotoInfo { id: id.clone(), thumbnail_url: tu.clone(), web_url: wu.clone() },
            ),
        )
    } else if str_is(t, "capture_complete") {
        Some(WsEvent::CaptureComplete)
    } else if str_is(t, "capture_failed") {
        let error = match data {
            Some(d) => match d.get("error") {
                Some(Json::Str(s)) => s.clone(),
                _ => String::from_str("Unknown error"),
            },
            None => String::from_str("Unknown error"),
        };
        Some(WsEvent::CaptureFailed(error))
    } else if str_is(t, "session_ended") {
        Some(WsEvent::SessionEnded)
    } else if str_is(t, "processing") {
        Some(WsEvent::Processing)
    } else {
        None
    }
}

/// The kiosk event a stream event feeds into the session controller.
pub open spec fn spec_kiosk_event_of(e: WsEventView) -> EventView {
    match e {
        WsEventView::Connected => EventView::WebSocketConnected,
        WsEventView::Disconnected => EventView::WebSocketDisconnected,
        WsEventView::PhoneConnected => EventView::PhoneConnected,
        WsEventView::PhoneDisconnected => EventView::PhoneDisconnected,
        WsEventView::Countdown(value) => EventView::CountdownTick { value },
        WsEventView::PhotoReady(photo) => EventView::PhotoReady { photo },
        WsEventView::Processing => EventView::Processing,
        WsEventView::CaptureComplete => EventView::CaptureComplete,
        WsEventView::CaptureFailed(error) => EventView::CaptureFailed { error },
        WsEventView::SessionEnded => EventView::SessionEnded,
    }
}

impl WsEvent {
    /// Translate a stream event into the controller's event vocabulary.
    pub fn into_kiosk_event(self) -> (r: KioskEvent)
        ensures
            r@ == spec_kiosk_event_of(self@),
    {
        match self {
            WsEvent::Connected => KioskEvent::WebSocketConnected,
            WsEvent::Disconnected => KioskEvent::WebSocketDisconnected,
            WsEvent::PhoneConnected => KioskEvent::PhoneConnected,
            WsEvent::PhoneDisconnected => KioskEvent::PhoneDisconnected,
            WsEvent::Countdown(value) => KioskEvent::CountdownTick { value },
            WsEvent::PhotoReady(photo) => KioskEvent::PhotoReady { photo },
            WsEvent::Processing => KioskEvent::Processing,
            WsEvent::CaptureComplete => KioskEvent::CaptureComplete,
            WsEvent::CaptureFailed(error) => KioskEvent::CaptureFailed { error },
            WsEvent::SessionEnded => KioskEvent::SessionEnded,
        }
    }
}

/// The body of a successful session-creation call.
#[derive(Debug, Clone)]
pub struct CreateSessionResponse {
    pub id: String,
}

/// The session id in a session-creation response body: present exactly
/// when the body is a JSON object whose `id` member is a string.
pub open spec fn spec_parse_create_session_response(s: Seq<char>) -> Option<Seq<char>> {
    match sp_json(s) {
        Some(doc) => match jv_get(doc, "id"@) {
            Some(JsonView::Str(id)) => Some(id),
            _ => None,
        },
        None => None,
    }
}

/// Decode a session-creation response body.
pub fn parse_create_session_response(text: &str) -> (r: Option<CreateSessionResponse>)
    ensures
        (match r {
            Some(resp) => spec_parse_create_session_response(text@) == Some(resp.id@),
            None => spec_parse_create_session_response(text@) is None,
        }),
{
    let doc = match parse_json(text) {
        Some(doc) => doc,
        None => {
            return None;
        },
    };
    match doc.get("id") {
        Some(Json::Str(id)) => Some(CreateSessionResponse { id: id.clone() }),
        _ => None,
    }
}

} // verus!
