//! The event-stream client: the decision core that maintains one
//! logical subscription to a session's event stream across physical
//! reconnects.
//!
//! The client is a pure state machine. The executor owns the socket,
//! the retry timer and the sink; it feeds every observation in as a
//! [`StreamInput`] and performs the returned [`StreamOutput`]s, in
//! order. On any loss of the connection the sink sees `Disconnected`,
//! then a fixed delay passes, and on the next successful connection it
//! sees `Connected` before any domain event. Frames sent while the
//! connection was down are never seen here at all — delivery is lossy
//! across an outage by design, since event loss only affects transient
//! state that corrects itself. Once the client is closed, nothing is
//! ever delivered again.

use vstd::prelude::*;

use crate::wire::{parse_message, spec_parse_message, WsEvent, WsEventView};

verus! {

/// The client's phase.
#[derive(Debug, Clone, Copy, PartialEq, Eq, Structural)]
pub enum StreamPhase {
    /// A connection attempt is in flight.
    Connecting,
    /// The connection is open and frames are flowing.
    Open,
    /// Waiting out the fixed delay before the next attempt.
    RetryWait,
    /// Closed for good; the sink is never invoked again.
    Closed,
}

/// An observation fed to the client by the executor.
#[derive(Debug, Clone)]
pub enum StreamInput {
    /// The connection attempt succeeded.
    ConnectSucceeded,
    /// The connection attempt failed.
    ConnectFailed,
    /// A text frame arrived.
    TextFrame(String),
    /// A keep-alive ping arrived with this payload.
    PingFrame(Vec<u8>),
    /// The server closed the connection gracefully.
    CloseFrame,
    /// The connection broke.
    ReadError,
    /// The stream ended.
    StreamEnded,
    /// The handle was closed.
    ShutdownRequested,
    /// The retry delay elapsed.
    RetryDelayElapsed,
}

/// Mathematical model of a [`StreamInput`].
#[verifier::ext_equal]
pub ghost enum StreamInputView {
    ConnectSucceeded,
    ConnectFailed,
    TextFrame(Seq<char>),
    PingFrame(Seq<u8>),
    CloseFrame,
    ReadError,
    StreamEnded,
    ShutdownRequested,
    RetryDelayElapsed,
}

impl View for StreamInput {
    type V = StreamInputView;

    open spec fn view(&self) -> StreamInputView {
        match self {
            StreamInput::ConnectSucceeded => StreamInputView::ConnectSucceeded,
            StreamInput::ConnectFailed => StreamInputView::ConnectFailed,
            StreamInput::TextFrame(t) => StreamInputView::TextFrame(t@),
            StreamInput::PingFrame(d) => StreamInputView::PingFrame(d@),
            StreamInput::CloseFrame => StreamInputView::CloseFrame,
            StreamInput::ReadError => StreamInputView::ReadError,
            StreamInput::StreamEnded => StreamInputView::StreamEnded,
            StreamInput::ShutdownRequested => StreamInputView::ShutdownRequested,
            StreamInput::RetryDelayElapsed => StreamInputView::RetryDelayElapsed,
        }
    }
}

/// An instruction for the executor.
#[derive(Debug, Clone)]
pub enum StreamOutput {
    /// Invoke the sink with this event.
    Deliver(WsEvent),
    /// Answer a keep-alive ping with this payload.
    SendPong(Vec<u8>),
    /// Begin a connection attempt.
    StartConnect,
    /// Start the fixed retry delay.
    StartRetryDelay,
    /// Close the underlying connection.
    CloseConnection,
}

/// Mathematical model of a [`StreamOutput`].
#[verifier::ext_equal]
pub ghost enum StreamOutputView {
    Deliver(WsEventView),
    SendPong(Seq<u8>),
    StartConnect,
    StartRetryDelay,
    CloseConnection,
}

impl View for StreamOutput {
    type V = StreamOutputView;

    open spec fn view(&self) -> StreamOutputView {
        match self {
            StreamOutput::Deliver(e) => StreamOutputView::Deliver(e@),
            StreamOutput::SendPong(d) => StreamOutputView::SendPong(d@),
            StreamOutput::StartConnect => StreamOutputView::StartConnect,
            StreamOutput::StartRetryDelay => StreamOutputView::StartRetryDelay,
            StreamOutput::CloseConnection => StreamOutputView::CloseConnection,
        }
    }
}

/// One step of the client: the phase after the observation and the
/// outputs to perform, in order.
pub open spec fn spec_stream_step(p: StreamPhase, e: StreamInputView) -> (
    StreamPhase,
    Seq<StreamOutputView>,
) {
    match e {
        StreamInputView::ShutdownRequested => if p == StreamPhase::Closed {
            (p, Seq::empty())
        } else {
            (StreamPhase::Closed, seq![StreamOutputView::CloseConnection])
        },
        StreamInputView::ConnectSucceeded => if p == StreamPhase::Connecting {
            (
                StreamPhase::Open,
                seq![StreamOutputView::Deliver(WsEventView::Connected)],
            )
        } else {
            (p, Seq::empty())
        },
        StreamInputView::ConnectFailed => if p == StreamPhase::Connecting {
            (
                StreamPhase::RetryWait,
                seq![
                    StreamOutputView::Deliver(WsEventView::Disconnected),
                    StreamOutputView::StartRetryDelay,
                ],
            )
        } else {
            (p, Seq::empty())
        },
        StreamInputView::TextFrame(t) => if p == StreamPhase::Open {
            match spec_parse_message(t) {
                Some(ev) => (p, seq![StreamOutputView::Deliver(ev)]),
                None => (p, Seq::empty()),
            }
        } else {
            (p, Seq::empty())
        },
        StreamInputView::PingFrame(d) => if p == StreamPhase::Open {
            (p, seq![StreamOutputView::SendPong(d)])
        } else {
            (p, Seq::empty())
        },
        StreamInputView::CloseFrame | StreamInputView::ReadError
            | StreamInputView::StreamEnded => if p == StreamPhase::Open {
            (
                StreamPhase::RetryWait,
                seq![
                    StreamOutputView::Deliver(WsEventView::Disconnected),
                    StreamOutputView::StartRetryDelay,
                ],
            )
        } else {
            (p, Seq::empty())
        },
        StreamInputView::RetryDelayElapsed => if p == StreamPhase::RetryWait {
            (StreamPhase::Connecting, seq![StreamOutputView::StartConnect])
        } else {
            (p, Seq::empty())
        },
    }
}

/// The reconnecting event-stream client for one session.
#[derive(Debug)]
pub struct EventStreamClient {
    pub phase: StreamPhase,
}

impl EventStreamClient {
    /// A fresh client. It starts in the connecting phase: the executor
    /// begins the first connection attempt at once and reports its
    /// outcome.
    pub fn new() -> (c: Self)
        ensures
            c.phase == StreamPhase::Connecting,
    {
        EventStreamClient { phase: StreamPhase::Connecting }
    }

    /// Feed one observation in and get the outputs to perform, exactly
    /// as [`spec_stream_step`] describes.
    pub fn step(&mut self, input: StreamInput) -> (outputs: Vec<StreamOutput>)
        ensures
            final(self).phase == spec_stream_step(old(self).phase, input@).0,
            outputs@.map_values(|o: StreamOutput| o@) == spec_stream_step(
                old(self).phase,
                input@,
            ).1,
    {
        let ghost p = self.phase;
        let ghost iv = input@;
        let mut outputs: Vec<StreamOutput> = Vec::new();
        match input {
            StreamInput::ShutdownRequested => {
                if !(self.phase == StreamPhase::Closed) {
                    self.phase = StreamPhase::Closed;
                    outputs.push(StreamOutput::CloseConnection);
                }
            },
            StreamInput::ConnectSucceeded => {
                if self.phase == StreamPhase::Connecting {
                    self.phase = StreamPhase::Open;
                    outputs.push(StreamOutput::Deliver(WsEvent::Connected));
                }
            },
            StreamInput::ConnectFailed => {
                if self.phase == StreamPhase::Connecting {
                    self.phase = StreamPhase::RetryWait;
                    outputs.push(StreamOutput::Deliver(WsEvent::Disconnected));
                    outputs.push(StreamOutput::StartRetryDelay);
                }
            },
            StreamInput::TextFrame(t) => {
                if self.phase == StreamPhase::Open {
                    match parse_message(t.as_str()) {
                        Some(ev) => {
                            outputs.push(StreamOutput::Deliver(ev));
                        },
                        None => {},
                    }
                }
            },
            StreamInput::PingFrame(d) => {
                if self.phase == StreamPhase::Open {
                    outputs.push(StreamOutput::SendPong(d));
                }
            },
            StreamInput::CloseFrame | StreamInput::ReadError | StreamInput::StreamEnded => {
                if self.phase == StreamPhase::Open {
                    self.phase = StreamPhase::RetryWait;
                    outputs.push(StreamOutput::Deliver(WsEvent::Disconnected));
                    outputs.push(StreamOutput::StartRetryDelay);
                }
            },
            StreamInput::RetryDelayElapsed => {
                if self.phase == StreamPhase::RetryWait {
                    self.phase = StreamPhase::Connecting;
                    outputs.push(StreamOutput::StartConnect);
                }
            },
        }
        proof {
            assert(outputs@.map_values(|o: StreamOutput| o@) =~~= spec_stream_step(p, iv).1);
        }
        outputs
    }
}

/// The client's phase and accumulated outputs after a whole sequence
/// of observations, first observation first.
pub open spec fn stream_run(p: StreamPhase, es: Seq<StreamInputView>) -> (
    StreamPhase,
    Seq<StreamOutputView>,
)
    decreases es.len(),
{
    if es.len() == 0 {
        (p, Seq::empty())
    } else {
        let first = spec_stream_step(p, es[0]);
        let rest = stream_run(first.0, es.drop_first());
        (rest.0, first.1 + rest.1)
    }
}

/// The events a sequence of frame texts delivers while the connection
/// stays open: each decodable frame's event, in arrival order;
/// malformed or unknown frames deliver nothing.
pub open spec fn delivered_events(frames: Seq<Seq<char>>) -> Seq<StreamOutputView>
    decreases frames.len(),
{
    if frames.len() == 0 {
        Seq::empty()
    } else {
        (match spec_parse_message(frames[0]) {
            Some(ev) => seq![StreamOutputView::Deliver(ev)],
            None => Seq::empty(),
        }) + delivered_events(frames.drop_first())
    }
}

/// The frame texts as client observations.
pub open spec fn frame_inputs(frames: Seq<Seq<char>>) -> Seq<StreamInputView> {
    frames.map_values(|t: Seq<char>| StreamInputView::TextFrame(t))
}

/// While the connection stays open, frames are delivered in arrival
/// order, exactly the decodable ones.
pub proof fn lemma_open_delivery(frames: Seq<Seq<char>>)
    ensures
        stream_run(StreamPhase::Open, frame_inputs(frames)) == (
            StreamPhase::Open,
            delivered_events(frames),
        ),
    decreases frames.len(),
{
    if frames.len() == 0 {
        assert(stream_run(StreamPhase::Open, frame_inputs(frames)).1 =~= delivered_events(
            frames,
        ));
    } else {
        let es = frame_inputs(frames);
        assert(es[0] == StreamInputView::TextFrame(frames[0]));
        assert(es.drop_first() =~= frame_inputs(frames.drop_first()));
        lemma_open_delivery(frames.drop_first());
        assert(stream_run(StreamPhase::Open, es).1 =~= delivered_events(frames));
    }
}

/// Stream loss tolerance: when the connection drops and the next
/// attempt succeeds, the sink sees `Disconnected`, then `Connected`,
/// and then exactly the decodable frames sent after the reconnection,
/// in order. Frames lost during the outage never reach the client, so
/// nothing else is ever delivered.
pub proof fn lemma_stream_loss_tolerance(drop_input: StreamInputView, frames: Seq<Seq<char>>)
    requires
        drop_input is CloseFrame || drop_input is ReadError || drop_input is StreamEnded,
    ensures
        stream_run(
            StreamPhase::Open,
            seq![
                drop_input,
                StreamInputView::RetryDelayElapsed,
                StreamInputView::ConnectSucceeded,
            ] + frame_inputs(frames),
        ) == (
            StreamPhase::Open,
            seq![
                StreamOutputView::Deliver(WsEventView::Disconnected),
                StreamOutputView::StartRetryDelay,
                StreamOutputView::StartConnect,
                StreamOutputView::Deliver(WsEventView::Connected),
            ] + delivered_events(frames),
        ),
{
    let es = seq![
        drop_input,
        StreamInputView::RetryDelayElapsed,
        StreamInputView::ConnectSucceeded,
    ] + frame_inputs(frames);
    assert(es[0] == drop_input);
    assert(es.drop_first()[0] == StreamInputView::RetryDelayElapsed);
    assert(es.drop_first().drop_first()[0] == StreamInputView::ConnectSucceeded);
    assert(es.drop_first().drop_first().drop_first() =~= frame_inputs(frames));
    let s1 = spec_stream_step(StreamPhase::Open, es[0]);
    assert(s1.0 == StreamPhase::RetryWait);
    assert(stream_run(StreamPhase::Open, es).1 == s1.1 + stream_run(
        s1.0,
        es.drop_first(),
    ).1);
    let s2 = spec_stream_step(s1.0, es.drop_first()[0]);
    assert(s2.0 == StreamPhase::Connecting);
    assert(stream_run(s1.0, es.drop_first()).1 == s2.1 + stream_run(
        s2.0,
        es.drop_first().drop_first(),
    ).1);
    let s3 = spec_stream_step(s2.0, es.drop_first().drop_first()[0]);
    assert(s3.0 == StreamPhase::Open);
    assert(stream_run(s2.0, es.drop_first().drop_first()).1 == s3.1 + stream_run(
        s3.0,
        es.drop_first().drop_first().drop_first(),
    ).1);
    lemma_open_delivery(frames);
    assert(stream_run(s3.0, es.drop_first().drop_first().drop_first()).1 == delivered_events(
        frames,
    ));
    assert(stream_run(StreamPhase::Open, es).0 == StreamPhase::Open);
    assert(stream_run(StreamPhase::Open, es).1 =~= seq![
        StreamOutputView::Deliver(WsEventView::Disconnected),
        StreamOutputView::StartRetryDelay,
        StreamOutputView::StartConnect,
        StreamOutputView::Deliver(WsEventView::Connected),
    ] + delivered_events(frames));
}

/// Once closed, the client stays closed and never delivers anything:
/// closing the handle deterministically stops all sink invocations.
pub proof fn lemma_closed_is_terminal(es: Seq<StreamInputView>)
    ensures
        stream_run(StreamPhase::Closed, es).0 == StreamPhase::Closed,
        stream_run(StreamPhase::Closed, es).1 =~= Seq::<StreamOutputView>::empty(),
    decreases es.len(),
{
    if es.len() == 0 {
    } else {
        lemma_closed_is_terminal(es.drop_first());
        assert(spec_stream_step(StreamPhase::Closed, es[0]).1 =~= Seq::<
            StreamOutputView,
        >::empty());
    }
}

} // verus!
