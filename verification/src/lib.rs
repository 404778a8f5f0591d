//! Core logic of a photo-booth kiosk terminal.
//!
//! The crate holds the deterministic heart of the kiosk: the session
//! controller that turns external events into state and side-effect
//! commands, the decoder for the event-stream wire frames, the
//! reconnect state machines for the event stream and the live-video
//! pipeline, and the URL builders for the backend API. All I/O lives
//! outside this crate; the logic here is pure and proved against the
//! contracts it states, resting only on two thin trusted wrappers
//! around standard string and character primitives.

pub mod config;
pub mod json;
pub mod state;
pub mod stream;
pub mod supervisor;
pub mod wire;
