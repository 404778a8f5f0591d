//! The media pipeline supervisor: the decision core that keeps one
//! live-video decode graph producing frames, healing from hard errors,
//! end-of-stream, silent stalls and failed restarts.
//!
//! The supervisor is a pure state machine. The executor owns the real
//! graph, its bus, its probes and its timers; it feeds every
//! observation in as a [`PipelineEvent`] and performs the returned
//! [`PipelineAction`]s. Only one reconnection sequence is ever in
//! flight — the `Reconnecting` phase is the reentrancy guard — and
//! after [`MAX_RESTART_ATTEMPTS`] failed attempts the supervisor enters
//! the terminal `Failed` phase and takes no further automatic action.

use vstd::prelude::*;

verus! {

/// Delay before attempting to restart after a failure (in milliseconds)
pub const RECONNECT_DELAY_MS: u64 = 2000;

/// Delay after a restart before checking that it took (in milliseconds)
pub const VERIFY_DELAY_MS: u64 = 2000;

/// How often to check for stale frames (in milliseconds)
pub const STALE_CHECK_INTERVAL_MS: u64 = 3000;

/// If no new frame for this long, consider the stream stale (in milliseconds)
pub const STALE_THRESHOLD_MS: u64 = 5000;

/// Maximum number of restart attempts before giving up
pub const MAX_RESTART_ATTEMPTS: u32 = 10;

/// The supervisor's phase.
#[derive(Debug, Clone, Copy, PartialEq, Eq, Structural)]
pub enum SupervisorPhase {
    /// The graph is believed to be producing frames.
    Streaming,
    /// One reconnection sequence is in flight; no other may start.
    Reconnecting,
    /// All restart attempts are spent; operator attention is needed.
    Failed,
}

/// An observation fed to the supervisor by the executor.
#[derive(Debug, Clone, Copy, PartialEq, Eq, Structural)]
pub enum PipelineEvent {
    /// The graph's bus reported a hard error.
    BusError,
    /// The graph's bus reported end of stream.
    EndOfStream,
    /// The decoder's output probe saw a frame at this wall-clock time.
    FrameDecoded { now_ms: u64 },
    /// The demultiplexer discovered fresh stream structure: only now is
    /// frame tracking reset, so a slow-starting stream is not judged
    /// stale prematurely.
    StreamDiscovered { now_ms: u64 },
    /// The periodic watchdog fired at this wall-clock time.
    StaleCheck { now_ms: u64 },
    /// The reconnect-delay timer elapsed: a restart attempt may begin.
    RestartDelayElapsed,
    /// The graph accepted or refused the request to start playing.
    PlayResult { ok: bool },
    /// The verification timer elapsed; `playing` tells whether the
    /// graph is actually in its playing state now.
    VerifyElapsed { playing: bool },
}

/// An instruction for the executor.
#[derive(Debug, Clone, Copy, PartialEq, Eq, Structural)]
pub enum PipelineAction {
    /// Tear the graph down to its null state, synchronously.
    TearDown,
    /// Ask the graph to go to its playing state.
    StartPlaying,
    /// Start the reconnect-delay timer.
    ScheduleRestart,
    /// Start the verification timer.
    ScheduleVerify,
    /// Surface the terminal failure to the operator layer.
    ReportFailure,
}

/// The supervisor's state: its phase, how many restart attempts the
/// current reconnection sequence has begun, and the liveness data kept
/// by the frame probe — the sole source of truth about liveness,
/// independent of what state the graph reports.
#[derive(Debug, Clone, Copy, PartialEq, Eq, Structural)]
pub struct PipelineSupervisor {
    pub phase: SupervisorPhase,
    /// Restart attempts begun in the current reconnection sequence.
    pub attempts: u32,
    /// Wall-clock time of the last decoded frame; zero before any.
    pub last_frame_ms: u64,
    /// Frames decoded since the last structural discovery.
    pub frame_count: u64,
}

/// Whether a stream with this frame history is stale at `now_ms`: at
/// least one frame has been seen, and none for longer than the
/// threshold.
pub open spec fn spec_stale(last_frame_ms: u64, now_ms: u64) -> bool {
    last_frame_ms > 0 && now_ms >= last_frame_ms && now_ms - last_frame_ms
        > STALE_THRESHOLD_MS
}

/// Begin a reconnection sequence: tear the graph down and schedule the
/// first restart. The attempt counter starts afresh.
pub open spec fn spec_begin_reconnect(m: PipelineSupervisor) -> (
    PipelineSupervisor,
    Seq<PipelineAction>,
) {
    (
        PipelineSupervisor { phase: SupervisorPhase::Reconnecting, attempts: 0, ..m },
        seq![PipelineAction::TearDown, PipelineAction::ScheduleRestart],
    )
}

/// After a failed attempt: schedule another restart while attempts
/// remain, otherwise give up for good.
pub open spec fn spec_retry_or_give_up(m: PipelineSupervisor) -> (
    PipelineSupervisor,
    Seq<PipelineAction>,
) {
    if m.attempts < MAX_RESTART_ATTEMPTS {
        (m, seq![PipelineAction::ScheduleRestart])
    } else {
        (
            PipelineSupervisor { phase: SupervisorPhase::Failed, ..m },
            seq![PipelineAction::ReportFailure],
        )
    }
}

/// One step of the supervisor: the state after the event and the
/// actions the executor must perform, in order. Events that carry no
/// meaning in the current phase change nothing — in particular the
/// `Failed` phase is terminal, and a fault reported while a
/// reconnection is already in flight starts no second one.
pub open spec fn spec_sup_step(m: PipelineSupervisor, e: PipelineEvent) -> (
    PipelineSupervisor,
    Seq<PipelineAction>,
) {
    match e {
        PipelineEvent::BusError | PipelineEvent::EndOfStream => if m.phase
            == SupervisorPhase::Streaming {
            spec_begin_reconnect(m)
        } else {
            (m, Seq::empty())
        },
        PipelineEvent::FrameDecoded { now_ms } => (
            PipelineSupervisor {
                last_frame_ms: now_ms,
                frame_count: if m.frame_count < u64::MAX {
                    (m.frame_count + 1) as u64
                } else {
                    u64::MAX
                },
                ..m
            },
            Seq::empty(),
        ),
        PipelineEvent::StreamDiscovered { now_ms } => (
            PipelineSupervisor { last_frame_ms: now_ms, frame_count: 0, ..m },
            Seq::empty(),
        ),
        PipelineEvent::StaleCheck { now_ms } => if m.phase == SupervisorPhase::Streaming
            && spec_stale(m.last_frame_ms, now_ms) {
            spec_begin_reconnect(m)
        } else {
            (m, Seq::empty())
        },
        PipelineEvent::RestartDelayElapsed => if m.phase == SupervisorPhase::Reconnecting
            && m.attempts < MAX_RESTART_ATTEMPTS {
            (
                PipelineSupervisor { attempts: (m.attempts + 1) as u32, ..m },
                seq![PipelineAction::TearDown, PipelineAction::StartPlaying],
            )
        } else {
            (m, Seq::empty())
        },
        PipelineEvent::PlayResult { ok } => if m.phase == SupervisorPhase::Reconnecting {
            if ok {
                (m, seq![PipelineAction::ScheduleVerify])
            } else {
                spec_retry_or_give_up(m)
            }
        } else {
            (m, Seq::empty())
        },
        PipelineEvent::VerifyElapsed { playing } => if m.phase == SupervisorPhase::Reconnecting {
            if playing {
                (
                    PipelineSupervisor { phase: SupervisorPhase::Streaming, ..m },
                    Seq::empty(),
                )
            } else {
                spec_retry_or_give_up(m)
            }
        } else {
            (m, Seq::empty())
        },
    }
}

impl PipelineSupervisor {
    /// The attempt counter never runs past the retry bound.
    pub open spec fn wf(self) -> bool {
        self.attempts <= MAX_RESTART_ATTEMPTS
    }

    /// A fresh supervisor: streaming, no attempts spent, no frame seen.
    pub fn new() -> (m: Self)
        ensures
            m == (PipelineSupervisor {
                phase: SupervisorPhase::Streaming,
                attempts: 0,
                last_frame_ms: 0,
                frame_count: 0,
            }),
            m.wf(),
    {
        PipelineSupervisor {
            phase: SupervisorPhase::Streaming,
            attempts: 0,
            last_frame_ms: 0,
            frame_count: 0,
        }
    }

    /// Feed one observation in and get the actions to perform, exactly
    /// as [`spec_sup_step`] describes.
    pub fn step(&mut self, event: PipelineEvent) -> (actions: Vec<PipelineAction>)
        requires
            old(self).wf(),
        ensures
            *final(self) == spec_sup_step(*old(self), event).0,
            actions@ == spec_sup_step(*old(self), event).1,
            final(self).wf(),
    {
        let ghost m = *self;
        let mut actions: Vec<PipelineAction> = Vec::new();
        match event {
            PipelineEvent::BusError | PipelineEvent::EndOfStream => {
                if self.phase == SupervisorPhase::Streaming {
                    self.phase = SupervisorPhase::Reconnecting;
                    self.attempts = 0;
                    actions.push(PipelineAction::TearDown);
                    actions.push(PipelineAction::ScheduleRestart);
                }
            },
            PipelineEvent::FrameDecoded { now_ms } => {
                self.last_frame_ms = now_ms;
                self.frame_count = self.frame_count.saturating_add(1);
            },
            PipelineEvent::StreamDiscovered { now_ms } => {
                self.last_frame_ms = now_ms;
                self.frame_count = 0;
            },
            PipelineEvent::StaleCheck { now_ms } => {
                if self.phase == SupervisorPhase::Streaming && self.last_frame_ms > 0
                    && now_ms.saturating_sub(self.last_frame_ms) > STALE_THRESHOLD_MS {
                    self.phase = SupervisorPhase::Reconnecting;
                    self.attempts = 0;
                    actions.push(PipelineAction::TearDown);
                    actions.push(PipelineAction::ScheduleRestart);
                }
            },
            PipelineEvent::RestartDelayElapsed => {
                if self.phase == SupervisorPhase::Reconnecting && self.attempts
                    < MAX_RESTART_ATTEMPTS {
                    self.attempts = self.attempts + 1;
                    actions.push(PipelineAction::TearDown);
                    actions.push(PipelineAction::StartPlaying);
                }
            },
            PipelineEvent::PlayResult { ok } => {
                if self.phase == SupervisorPhase::Reconnecting {
                    if ok {
                        actions.push(PipelineAction::ScheduleVerify);
                    } else if self.attempts < MAX_RESTART_ATTEMPTS {
                        actions.push(PipelineAction::ScheduleRestart);
                    } else {
                        self.phase = SupervisorPhase::Failed;
                        actions.push(PipelineAction::ReportFailure);
                    }
                }
            },
            PipelineEvent::VerifyElapsed { playing } => {
                if self.phase == SupervisorPhase::Reconnecting {
                    if playing {
                        self.phase = SupervisorPhase::Streaming;
                    } else if self.attempts < MAX_RESTART_ATTEMPTS {
                        actions.push(PipelineAction::ScheduleRestart);
                    } else {
                        self.phase = SupervisorPhase::Failed;
                        actions.push(PipelineAction::ReportFailure);
                    }
                }
            },
        }
        proof {
            assert(actions@ =~= spec_sup_step(m, event).1);
        }
        actions
    }
}

/// The supervisor's state and accumulated actions after a whole
/// sequence of events, first event first.
pub open spec fn sup_run(m: PipelineSupervisor, es: Seq<PipelineEvent>) -> (
    PipelineSupervisor,
    Seq<PipelineAction>,
)
    decreases es.len(),
{
    if es.len() == 0 {
        (m, Seq::empty())
    } else {
        let first = spec_sup_step(m, es[0]);
        let rest = sup_run(first.0, es.drop_first());
        (rest.0, first.1 + rest.1)
    }
}

/// How many restart attempts a sequence of actions asks the graph for.
pub open spec fn count_starts(actions: Seq<PipelineAction>) -> int
    decreases actions.len(),
{
    if actions.len() == 0 {
        0int
    } else {
        (if actions[0] == PipelineAction::StartPlaying {
            1int
        } else {
            0int
        }) + count_starts(actions.drop_first())
    }
}

/// Restart-attempt counts of the action lists one step can emit.
proof fn lemma_count_small()
    ensures
        count_starts(Seq::empty()) == 0,
        count_starts(seq![PipelineAction::TearDown, PipelineAction::StartPlaying]) == 1,
        count_starts(seq![PipelineAction::TearDown, PipelineAction::ScheduleRestart]) == 0,
        count_starts(seq![PipelineAction::ScheduleRestart]) == 0,
        count_starts(seq![PipelineAction::ScheduleVerify]) == 0,
        count_starts(seq![PipelineAction::ReportFailure]) == 0,
{
    assert(count_starts(Seq::<PipelineAction>::empty()) == 0);
    assert(seq![PipelineAction::StartPlaying].drop_first() =~= Seq::<PipelineAction>::empty());
    assert(count_starts(seq![PipelineAction::StartPlaying]) == 1);
    assert(seq![PipelineAction::ScheduleRestart].drop_first() =~= Seq::<
        PipelineAction,
    >::empty());
    assert(count_starts(seq![PipelineAction::ScheduleRestart]) == 0);
    assert(seq![PipelineAction::ScheduleVerify].drop_first() =~= Seq::<
        PipelineAction,
    >::empty());
    assert(count_starts(seq![PipelineAction::ScheduleVerify]) == 0);
    assert(seq![PipelineAction::ReportFailure].drop_first() =~= Seq::<
        PipelineAction,
    >::empty());
    assert(count_starts(seq![PipelineAction::ReportFailure]) == 0);
    assert(seq![PipelineAction::TearDown, PipelineAction::StartPlaying].drop_first()
        =~= seq![PipelineAction::StartPlaying]);
    assert(count_starts(seq![PipelineAction::TearDown, PipelineAction::StartPlaying]) == 1);
    assert(seq![PipelineAction::TearDown, PipelineAction::ScheduleRestart].drop_first()
        =~= seq![PipelineAction::ScheduleRestart]);
    assert(count_starts(seq![PipelineAction::TearDown, PipelineAction::ScheduleRestart]) == 0);
}

/// Counting restart attempts distributes over concatenation.
pub proof fn lemma_count_starts_add(a: Seq<PipelineAction>, b: Seq<PipelineAction>)
    ensures
        count_starts(a + b) == count_starts(a) + count_starts(b),
    decreases a.len(),
{
    if a.len() == 0 {
        assert(a + b =~= b);
    } else {
        assert((a + b).drop_first() =~= a.drop_first() + b);
        lemma_count_starts_add(a.drop_first(), b);
    }
}

/// One failed restart attempt as the executor reports it: the delay
/// elapses, and the graph refuses to start playing.
pub open spec fn failing_cycle() -> Seq<PipelineEvent> {
    seq![PipelineEvent::RestartDelayElapsed, PipelineEvent::PlayResult { ok: false }]
}

/// `k` failed restart attempts in a row.
pub open spec fn repeat_failing(k: nat) -> Seq<PipelineEvent>
    decreases k,
{
    if k == 0 {
        Seq::empty()
    } else {
        failing_cycle() + repeat_failing((k - 1) as nat)
    }
}

/// In the terminal phase nothing moves: failed restart cycles change
/// no state and ask for nothing.
pub proof fn lemma_failed_is_terminal(m: PipelineSupervisor, k: nat)
    requires
        m.phase == SupervisorPhase::Failed,
    ensures
        sup_run(m, repeat_failing(k)).0 == m,
        count_starts(sup_run(m, repeat_failing(k)).1) == 0,
    decreases k,
{
    if k == 0 {
    } else {
        let es = repeat_failing(k);
        assert(es[0] == PipelineEvent::RestartDelayElapsed);
        assert(es.drop_first()[0] == PipelineEvent::PlayResult { ok: false });
        assert(es.drop_first().drop_first() =~= repeat_failing((k - 1) as nat));
        lemma_count_small();
        lemma_failed_is_terminal(m, (k - 1) as nat);
        let run = sup_run(m, es);
        lemma_count_starts_add(
            spec_sup_step(m, es[0]).1,
            sup_run(m, es.drop_first()).1,
        );
        lemma_count_starts_add(
            spec_sup_step(m, es.drop_first()[0]).1,
            sup_run(m, es.drop_first().drop_first()).1,
        );
    }
}

/// From an in-flight reconnection with `a` attempts already begun,
/// `k` failing cycles begin exactly `min(k, remaining)` further
/// attempts, and once the bound is reached the supervisor is in its
/// terminal phase.
pub proof fn lemma_failing_from(m: PipelineSupervisor, k: nat)
    requires
        m.phase == SupervisorPhase::Reconnecting,
        m.attempts <= MAX_RESTART_ATTEMPTS,
    ensures
        count_starts(sup_run(m, repeat_failing(k)).1) == if k
            <= (MAX_RESTART_ATTEMPTS - m.attempts) as nat {
            k as int
        } else {
            MAX_RESTART_ATTEMPTS - m.attempts
        },
        k >= (MAX_RESTART_ATTEMPTS - m.attempts) as nat && k > 0 ==> sup_run(
            m,
            repeat_failing(k),
        ).0.phase == SupervisorPhase::Failed,
        sup_run(m, repeat_failing(k)).0.wf(),
    decreases k,
{
    if k == 0 {
    } else {
        let es = repeat_failing(k);
        assert(es[0] == PipelineEvent::RestartDelayElapsed);
        assert(es.drop_first()[0] == PipelineEvent::PlayResult { ok: false });
        assert(es.drop_first().drop_first() =~= repeat_failing((k - 1) as nat));
        lemma_count_small();
        if m.attempts < MAX_RESTART_ATTEMPTS {
            let m1 = spec_sup_step(m, es[0]).0;
            assert(m1.attempts == m.attempts + 1);
            let m2 = spec_sup_step(m1, es.drop_first()[0]).0;
            if m1.attempts < MAX_RESTART_ATTEMPTS {
                assert(m2 == m1);
                lemma_failing_from(m2, (k - 1) as nat);
            } else {
                assert(m2.phase == SupervisorPhase::Failed);
                lemma_failed_is_terminal(m2, (k - 1) as nat);
            }
            lemma_count_starts_add(
                spec_sup_step(m, es[0]).1,
                sup_run(m1, es.drop_first()).1,
            );
            lemma_count_starts_add(
                spec_sup_step(m1, es.drop_first()[0]).1,
                sup_run(m2, es.drop_first().drop_first()).1,
            );
        } else {
            // A stray timer tick with the bound already reached starts
            // nothing; the failure report then makes the phase terminal.
            let m1 = spec_sup_step(m, es[0]).0;
            assert(m1 == m);
            let m2 = spec_sup_step(m1, es.drop_first()[0]).0;
            assert(m2.phase == SupervisorPhase::Failed);
            lemma_failed_is_terminal(m2, (k - 1) as nat);
            lemma_count_starts_add(
                spec_sup_step(m, es[0]).1,
                sup_run(m1, es.drop_first()).1,
            );
            lemma_count_starts_add(
                spec_sup_step(m1, es.drop_first()[0]).1,
                sup_run(m2, es.drop_first().drop_first()).1,
            );
        }
    }
}

/// Reconnect bound: after a fault, a pipeline that always fails to
/// reach its playing state is asked to restart exactly
/// [`MAX_RESTART_ATTEMPTS`] times, and then the supervisor stops
/// attempting for good.
pub proof fn lemma_reconnect_bound(m: PipelineSupervisor, k: nat)
    requires
        m.phase == SupervisorPhase::Streaming,
    ensures
        count_starts(sup_run(m, seq![PipelineEvent::BusError] + repeat_failing(k)).1) == if k
            <= MAX_RESTART_ATTEMPTS as nat {
            k as int
        } else {
            MAX_RESTART_ATTEMPTS as int
        },
        k >= MAX_RESTART_ATTEMPTS as nat && k > 0 ==> sup_run(
            m,
            seq![PipelineEvent::BusError] + repeat_failing(k),
        ).0.phase == SupervisorPhase::Failed,
{
    let es = seq![PipelineEvent::BusError] + repeat_failing(k);
    lemma_count_small();
    assert(es[0] == PipelineEvent::BusError);
    assert(es.drop_first() =~= repeat_failing(k));
    let m1 = spec_sup_step(m, es[0]).0;
    assert(m1.phase == SupervisorPhase::Reconnecting && m1.attempts == 0);
    lemma_failing_from(m1, k);
    lemma_count_starts_add(spec_sup_step(m, es[0]).1, sup_run(m1, es.drop_first()).1);
}

} // verus!
