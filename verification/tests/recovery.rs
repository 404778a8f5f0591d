//! Tests for the media pipeline supervisor and the event-stream client.

use kiosk_native::stream::{EventStreamClient, StreamInput, StreamOutput, StreamPhase};
use kiosk_native::supervisor::{
    PipelineAction, PipelineEvent, PipelineSupervisor, SupervisorPhase, MAX_RESTART_ATTEMPTS,
    STALE_THRESHOLD_MS,
};
use kiosk_native::wire::WsEvent;

/// Drive the supervisor against a fake graph that never reaches its
/// playing state, counting how often it is asked to start.
fn run_always_failing(sup: &mut PipelineSupervisor, first: Vec<PipelineAction>) -> (u32, u32) {
    let mut starts = 0u32;
    let mut failures = 0u32;
    let mut all = first;
    let mut i = 0usize;
    while i < all.len() {
        let next = match all[i] {
            PipelineAction::ScheduleRestart => Some(sup.step(PipelineEvent::RestartDelayElapsed)),
            PipelineAction::StartPlaying => {
                starts += 1;
                Some(sup.step(PipelineEvent::PlayResult { ok: false }))
            }
            PipelineAction::ReportFailure => {
                failures += 1;
                None
            }
            _ => None,
        };
        if let Some(more) = next {
            all.extend(more);
        }
        i += 1;
    }
    (starts, failures)
}

#[test]
fn test_reconnect_attempts_are_bounded() {
    let mut sup = PipelineSupervisor::new();
    let first = sup.step(PipelineEvent::BusError);
    assert_eq!(
        first,
        vec![PipelineAction::TearDown, PipelineAction::ScheduleRestart]
    );

    let (starts, failures) = run_always_failing(&mut sup, first);
    assert_eq!(starts, MAX_RESTART_ATTEMPTS);
    assert_eq!(failures, 1);
    assert_eq!(sup.phase, SupervisorPhase::Failed);

    // Terminal: nothing is ever attempted again.
    assert!(sup.step(PipelineEvent::RestartDelayElapsed).is_empty());
    assert!(sup.step(PipelineEvent::BusError).is_empty());
    assert!(sup.step(PipelineEvent::StaleCheck { now_ms: 1_000_000 }).is_empty());
}

#[test]
fn test_successful_reconnect_clears_the_guard() {
    let mut sup = PipelineSupervisor::new();
    sup.step(PipelineEvent::EndOfStream);
    sup.step(PipelineEvent::RestartDelayElapsed);
    let acts = sup.step(PipelineEvent::PlayResult { ok: true });
    assert_eq!(acts, vec![PipelineAction::ScheduleVerify]);
    let acts = sup.step(PipelineEvent::VerifyElapsed { playing: true });
    assert!(acts.is_empty());
    assert_eq!(sup.phase, SupervisorPhase::Streaming);

    // A later fault starts a fresh bounded sequence.
    let first = sup.step(PipelineEvent::BusError);
    let (starts, failures) = run_always_failing(&mut sup, first);
    assert_eq!(starts, MAX_RESTART_ATTEMPTS);
    assert_eq!(failures, 1);
}

#[test]
fn test_stale_stream_forces_reconnect() {
    let mut sup = PipelineSupervisor::new();

    // Before any frame, silence is not staleness.
    assert!(sup.step(PipelineEvent::StaleCheck { now_ms: 50_000 }).is_empty());

    sup.step(PipelineEvent::StreamDiscovered { now_ms: 1_000 });
    sup.step(PipelineEvent::FrameDecoded { now_ms: 1_100 });
    assert_eq!(sup.frame_count, 1);

    // Fresh frames: no action.
    assert!(sup.step(PipelineEvent::StaleCheck { now_ms: 1_200 }).is_empty());

    // Silence past the threshold: tear down and schedule a restart.
    let acts = sup.step(PipelineEvent::StaleCheck {
        now_ms: 1_100 + STALE_THRESHOLD_MS + 1,
    });
    assert_eq!(
        acts,
        vec![PipelineAction::TearDown, PipelineAction::ScheduleRestart]
    );
    assert_eq!(sup.phase, SupervisorPhase::Reconnecting);

    // The watchdog never starts a second sequence while one is in flight.
    assert!(sup
        .step(PipelineEvent::StaleCheck { now_ms: 1_000_000 })
        .is_empty());
    assert!(sup.step(PipelineEvent::BusError).is_empty());
}

#[test]
fn test_stream_loss_tolerance() {
    let mut client = EventStreamClient::new();
    let out = client.step(StreamInput::ConnectSucceeded);
    assert_eq!(out.len(), 1);
    assert!(matches!(out[0], StreamOutput::Deliver(WsEvent::Connected)));

    // The connection drops.
    let out = client.step(StreamInput::ReadError);
    assert_eq!(out.len(), 2);
    assert!(matches!(out[0], StreamOutput::Deliver(WsEvent::Disconnected)));
    assert!(matches!(out[1], StreamOutput::StartRetryDelay));

    // A frame sent during the outage never reaches the sink.
    let out = client.step(StreamInput::TextFrame(
        r#"{"type":"phone_connected"}"#.into(),
    ));
    assert!(out.is_empty());

    // Reconnect.
    let out = client.step(StreamInput::RetryDelayElapsed);
    assert_eq!(out.len(), 1);
    assert!(matches!(out[0], StreamOutput::StartConnect));
    let out = client.step(StreamInput::ConnectSucceeded);
    assert_eq!(out.len(), 1);
    assert!(matches!(out[0], StreamOutput::Deliver(WsEvent::Connected)));

    // Frames sent after reconnection are delivered in order.
    let out = client.step(StreamInput::TextFrame(
        r#"{"type":"phone_connected"}"#.into(),
    ));
    assert_eq!(out.len(), 1);
    assert!(matches!(out[0], StreamOutput::Deliver(WsEvent::PhoneConnected)));
    let out = client.step(StreamInput::TextFrame(
        r#"{"type":"countdown","data":{"value":2}}"#.into(),
    ));
    assert_eq!(out.len(), 1);
    assert!(matches!(out[0], StreamOutput::Deliver(WsEvent::Countdown(2))));

    // A malformed frame is dropped without interrupting delivery.
    let out = client.step(StreamInput::TextFrame("garbage".into()));
    assert!(out.is_empty());
    let out = client.step(StreamInput::TextFrame(
        r#"{"type":"session_ended"}"#.into(),
    ));
    assert_eq!(out.len(), 1);
    assert!(matches!(out[0], StreamOutput::Deliver(WsEvent::SessionEnded)));
}

#[test]
fn test_connect_failure_retries() {
    let mut client = EventStreamClient::new();
    let out = client.step(StreamInput::ConnectFailed);
    assert_eq!(out.len(), 2);
    assert!(matches!(out[0], StreamOutput::Deliver(WsEvent::Disconnected)));
    assert!(matches!(out[1], StreamOutput::StartRetryDelay));
    let out = client.step(StreamInput::RetryDelayElapsed);
    assert!(matches!(out[0], StreamOutput::StartConnect));
}

#[test]
fn test_ping_answered_transparently() {
    let mut client = EventStreamClient::new();
    client.step(StreamInput::ConnectSucceeded);
    let out = client.step(StreamInput::PingFrame(vec![1, 2, 3]));
    assert_eq!(out.len(), 1);
    match &out[0] {
        StreamOutput::SendPong(d) => assert_eq!(d, &vec![1, 2, 3]),
        other => panic!("unexpected {:?}", other),
    }
}

#[test]
fn test_close_stops_delivery() {
    let mut client = EventStreamClient::new();
    client.step(StreamInput::ConnectSucceeded);
    let out = client.step(StreamInput::ShutdownRequested);
    assert_eq!(out.len(), 1);
    assert!(matches!(out[0], StreamOutput::CloseConnection));
    assert_eq!(client.phase, StreamPhase::Closed);

    // Nothing is ever delivered again.
    assert!(client
        .step(StreamInput::TextFrame(r#"{"type":"phone_connected"}"#.into()))
        .is_empty());
    assert!(client.step(StreamInput::ConnectSucceeded).is_empty());
    assert!(client.step(StreamInput::RetryDelayElapsed).is_empty());
}
