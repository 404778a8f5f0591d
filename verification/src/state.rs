//! The session controller: a pure state machine that converts external
//! events into the authoritative kiosk state and emits side-effect
//! commands for the surrounding executor to run.
//!
//! Every mutation of the kiosk state goes through
//! [`KioskStateMachine::process`]; the controller never performs I/O,
//! never blocks and never fails. Ill-timed or unrecognized events are
//! silently ignored so that stray duplicate or late events cannot crash
//! the kiosk.

use vstd::prelude::*;

verus! {

/// Application states. Exactly one is active at any time; it is the
/// single source of truth for what the UI must render.
#[derive(Debug, Clone, Copy, PartialEq, Eq, Structural)]
pub enum KioskState {
    /// Welcome screen - waiting for user to start a session
    Welcome,
    /// Active session - user can capture photos and view them
    Session,
    /// Countdown in progress before capture
    Countdown,
    /// Processing photos after capture
    Processing,
}

/// A photo delivered by the backend. Immutable once received.
#[derive(Debug, Clone)]
pub struct PhotoInfo {
    pub id: String,
    pub thumbnail_url: String,
    pub web_url: String,
}

/// Mathematical model of a [`PhotoInfo`].
#[verifier::ext_equal]
pub ghost struct PhotoView {
    pub id: Seq<char>,
    pub thumbnail_url: Seq<char>,
    pub web_url: Seq<char>,
}

impl View for PhotoInfo {
    type V = PhotoView;

    open spec fn view(&self) -> PhotoView {
        PhotoView { id: self.id@, thumbnail_url: self.thumbnail_url@, web_url: self.web_url@ }
    }
}

/// Data of one active session.
#[derive(Debug, Clone)]
pub struct SessionData {
    pub id: String,
    /// Number of phones currently joined; never goes below zero.
    pub phone_count: u32,
    /// Append-only within a session; insertion order is display order.
    pub photos: Vec<PhotoInfo>,
}

/// Mathematical model of a [`SessionData`].
#[verifier::ext_equal]
pub ghost struct SessionView {
    pub id: Seq<char>,
    pub phone_count: u32,
    pub photos: Seq<PhotoView>,
}

impl View for SessionData {
    type V = SessionView;

    open spec fn view(&self) -> SessionView {
        SessionView {
            id: self.id@,
            phone_count: self.phone_count,
            photos: self.photos@.map_values(|p: PhotoInfo| p@),
        }
    }
}

/// Events that trigger state transitions.
#[derive(Debug, Clone)]
pub enum KioskEvent {
    // User actions
    StartSession,
    EndSession,
    TriggerCapture,

    // Photo viewing (in-place, no separate lightbox)
    SelectPhoto(usize),
    SelectLive,

    // Backend responses
    SessionCreated { id: String },
    SessionCreateFailed { error: String },
    SessionEnded,

    // Event-stream deliveries
    PhoneConnected,
    PhoneDisconnected,
    CountdownTick { value: u32 },
    PhotoReady { photo: PhotoInfo },
    Processing,
    CaptureComplete,
    CaptureFailed { error: String },
    WebSocketConnected,
    WebSocketDisconnected,

    // Internal
    ClearError,
}

/// Mathematical model of a [`KioskEvent`].
#[verifier::ext_equal]
pub ghost enum EventView {
    StartSession,
    EndSession,
    TriggerCapture,
    SelectPhoto(usize),
    SelectLive,
    SessionCreated { id: Seq<char> },
    SessionCreateFailed { error: Seq<char> },
    SessionEnded,
    PhoneConnected,
    PhoneDisconnected,
    CountdownTick { value: u32 },
    PhotoReady { photo: PhotoView },
    Processing,
    CaptureComplete,
    CaptureFailed { error: Seq<char> },
    WebSocketConnected,
    WebSocketDisconnected,
    ClearError,
}

impl View for KioskEvent {
    type V = EventView;

    open spec fn view(&self) -> EventView {
        match self {
            KioskEvent::StartSession => EventView::StartSession,
            KioskEvent::EndSession => EventView::EndSession,
            KioskEvent::TriggerCapture => EventView::TriggerCapture,
            KioskEvent::SelectPhoto(i) => EventView::SelectPhoto(*i),
            KioskEvent::SelectLive => EventView::SelectLive,
            KioskEvent::SessionCreated { id } => EventView::SessionCreated { id: id@ },
            KioskEvent::SessionCreateFailed { error } => EventView::SessionCreateFailed {
                error: error@,
            },
            KioskEvent::SessionEnded => EventView::SessionEnded,
            KioskEvent::PhoneConnected => EventView::PhoneConnected,
            KioskEvent::PhoneDisconnected => EventView::PhoneDisconnected,
            KioskEvent::CountdownTick { value } => EventView::CountdownTick { value: *value },
            KioskEvent::PhotoReady { photo } => EventView::PhotoReady { photo: photo@ },
            KioskEvent::Processing => EventView::Processing,
            KioskEvent::CaptureComplete => EventView::CaptureComplete,
            KioskEvent::CaptureFailed { error } => EventView::CaptureFailed { error: error@ },
            KioskEvent::WebSocketConnected => EventView::WebSocketConnected,
            KioskEvent::WebSocketDisconnected => EventView::WebSocketDisconnected,
            KioskEvent::ClearError => EventView::ClearError,
        }
    }
}

/// Commands emitted by the state machine for the executor to run.
/// Commands carry no behavior; they are instructions.
#[derive(Debug, Clone)]
pub enum KioskCommand {
    /// Call the create session API
    CreateSession,
    /// Call the end session API
    EndSession { session_id: String },
    /// Call the capture API
    TriggerCapture { session_id: String },
    /// Connect the event stream for a session
    ConnectWebSocket { session_id: String },
    /// Disconnect the event stream
    DisconnectWebSocket,
    /// Schedule an error clear after the display timeout
    ScheduleErrorClear,
    /// Update the UI to reflect the new state
    UpdateUI,
}

/// Mathematical model of a [`KioskCommand`].
#[verifier::ext_equal]
pub ghost enum CommandView {
    CreateSession,
    EndSession { session_id: Seq<char> },
    TriggerCapture { session_id: Seq<char> },
    ConnectWebSocket { session_id: Seq<char> },
    DisconnectWebSocket,
    ScheduleErrorClear,
    UpdateUI,
}

impl View for KioskCommand {
    type V = CommandView;

    open spec fn view(&self) -> CommandView {
        match self {
            KioskCommand::CreateSession => CommandView::CreateSession,
            KioskCommand::EndSession { session_id } => CommandView::EndSession {
                session_id: session_id@,
            },
            KioskCommand::TriggerCapture { session_id } => CommandView::TriggerCapture {
                session_id: session_id@,
            },
            KioskCommand::ConnectWebSocket { session_id } => CommandView::ConnectWebSocket {
                session_id: session_id@,
            },
            KioskCommand::DisconnectWebSocket => CommandView::DisconnectWebSocket,
            KioskCommand::ScheduleErrorClear => CommandView::ScheduleErrorClear,
            KioskCommand::UpdateUI => CommandView::UpdateUI,
        }
    }
}

/// The kiosk state machine.
#[derive(Debug)]
pub struct KioskStateMachine {
    pub state: KioskState,
    pub session: Option<SessionData>,
    pub countdown_value: Option<u32>,
    /// Which photo is being viewed (None = live video view)
    pub viewing_photo: Option<usize>,
    pub error: Option<String>,
    pub is_loading: bool,
}

/// Mathematical model of a [`KioskStateMachine`].
#[verifier::ext_equal]
pub ghost struct MachineView {
    pub state: KioskState,
    pub session: Option<SessionView>,
    pub countdown_value: Option<u32>,
    pub viewing_photo: Option<usize>,
    pub error: Option<Seq<char>>,
    pub is_loading: bool,
}

impl View for KioskStateMachine {
    type V = MachineView;

    open spec fn view(&self) -> MachineView {
        MachineView {
            state: self.state,
            session: match self.session {
                Some(s) => Some(s@),
                None => None,
            },
            countdown_value: self.countdown_value,
            viewing_photo: self.viewing_photo,
            error: match self.error {
                Some(e) => Some(e@),
                None => None,
            },
            is_loading: self.is_loading,
        }
    }
}

/// The model of a freshly created controller: welcome screen, no
/// session, live view, nothing loading.
pub open spec fn initial_machine() -> MachineView {
    MachineView {
        state: KioskState::Welcome,
        session: None,
        countdown_value: None,
        viewing_photo: None,
        error: None,
        is_loading: false,
    }
}

/// One step of the controller: the state after processing `e` in state
/// `m`, together with the commands emitted for the executor, in order.
///
/// This is the authoritative transition table. Events that arrive in a
/// state where they carry no meaning leave the state unchanged and
/// emit no command.
pub open spec fn spec_process(m: MachineView, e: EventView) -> (MachineView, Seq<CommandView>) {
    match e {
        EventView::StartSession => if m.state == KioskState::Welcome && !m.is_loading {
            (
                MachineView { is_loading: true, error: None, ..m },
                seq![CommandView::CreateSession, CommandView::UpdateUI],
            )
        } else {
            (m, Seq::empty())
        },
        EventView::SessionCreated { id } => (
            MachineView {
                state: KioskState::Session,
                is_loading: false,
                viewing_photo: None,
                session: Some(SessionView { id, phone_count: 0, photos: Seq::empty() }),
                ..m
            },
            seq![CommandView::ConnectWebSocket { session_id: id }, CommandView::UpdateUI],
        ),
        EventView::SessionCreateFailed { error } => (
            MachineView { is_loading: false, error: Some(error), ..m },
            seq![CommandView::ScheduleErrorClear, CommandView::UpdateUI],
        ),
        EventView::EndSession => match m.session {
            Some(s) => (
                m,
                seq![
                    CommandView::DisconnectWebSocket,
                    CommandView::EndSession { session_id: s.id },
                ],
            ),
            None => (m, Seq::empty()),
        },
        EventView::SessionEnded => (
            MachineView {
                state: KioskState::Welcome,
                session: None,
                countdown_value: None,
                viewing_photo: None,
                ..m
            },
            seq![CommandView::UpdateUI],
        ),
        EventView::TriggerCapture => if m.state == KioskState::Session && m.viewing_photo is None
            && m.session is Some {
            (m, seq![CommandView::TriggerCapture { session_id: m.session->0.id }])
        } else {
            (m, Seq::empty())
        },
        EventView::PhoneConnected => match m.session {
            Some(s) => (
                MachineView {
                    session: Some(
                        SessionView { phone_count: sat_add_one(s.phone_count), ..s },
                    ),
                    ..m
                },
                seq![CommandView::UpdateUI],
            ),
            None => (m, Seq::empty()),
        },
        EventView::PhoneDisconnected => match m.session {
            Some(s) => (
                MachineView {
                    session: Some(
                        SessionView { phone_count: sat_sub_one(s.phone_count), ..s },
                    ),
                    ..m
                },
                seq![CommandView::UpdateUI],
            ),
            None => (m, Seq::empty()),
        },
        EventView::CountdownTick { value } => (
            MachineView {
                state: KioskState::Countdown,
                countdown_value: Some(value),
                viewing_photo: None,
                ..m
            },
            seq![CommandView::UpdateUI],
        ),
        EventView::PhotoReady { photo } => match m.session {
            Some(s) => (
                MachineView {
                    session: Some(SessionView { photos: s.photos.push(photo), ..s }),
                    ..m
                },
                seq![CommandView::UpdateUI],
            ),
            None => (m, Seq::empty()),
        },
        EventView::Processing => (
            MachineView { state: KioskState::Processing, countdown_value: None, ..m },
            seq![CommandView::UpdateUI],
        ),
        EventView::CaptureComplete => (
            MachineView { state: KioskState::Session, countdown_value: None, ..m },
            seq![CommandView::UpdateUI],
        ),
        EventView::CaptureFailed { error } => (
            MachineView {
                state: KioskState::Session,
                countdown_value: None,
                error: Some(error),
                ..m
            },
            seq![CommandView::ScheduleErrorClear, CommandView::UpdateUI],
        ),
        EventView::SelectPhoto(index) => if m.state == KioskState::Session && m.session is Some
            && (index as int) < m.session->0.photos.len() {
            (MachineView { viewing_photo: Some(index), ..m }, seq![CommandView::UpdateUI])
        } else {
            (m, Seq::empty())
        },
        EventView::SelectLive => if m.state == KioskState::Session && m.viewing_photo is Some {
            (MachineView { viewing_photo: None, ..m }, seq![CommandView::UpdateUI])
        } else {
            (m, Seq::empty())
        },
        EventView::ClearError => (
            MachineView { error: None, ..m },
            seq![CommandView::UpdateUI],
        ),
        EventView::WebSocketConnected => (m, Seq::empty()),
        EventView::WebSocketDisconnected => (m, Seq::empty()),
    }
}

/// Phone count after one more phone joins; saturates at the top so
/// that the controller can never panic.
pub open spec fn sat_add_one(n: u32) -> u32 {
    if n < u32::MAX {
        (n + 1) as u32
    } else {
        u32::MAX
    }
}

/// Phone count after one phone leaves; clamps at zero, never negative.
pub open spec fn sat_sub_one(n: u32) -> u32 {
    if n > 0 {
        (n - 1) as u32
    } else {
        0
    }
}

/// The commands of a step, seen through their models.
pub open spec fn cmd_views(cmds: Seq<KioskCommand>) -> Seq<CommandView> {
    cmds.map_values(|c: KioskCommand| c@)
}

impl KioskStateMachine {
    /// Create the controller in its initial state.
    pub fn new() -> (sm: Self)
        ensures
            sm@ == initial_machine(),
    {
        Self {
            state: KioskState::Welcome,
            session: None,
            countdown_value: None,
            viewing_photo: None,
            error: None,
            is_loading: false,
        }
    }

    /// Check if currently viewing live video (not a photo).
    pub fn is_live_view(&self) -> (r: bool)
        ensures
            r == (self@.viewing_photo is None),
    {
        self.viewing_photo.is_none()
    }

    /// Process an event and return the commands to execute, exactly as
    /// [`spec_process`] describes. This is the only mutation path of
    /// the controller; it never panics and never performs I/O.
    pub fn process(&mut self, event: KioskEvent) -> (commands: Vec<KioskCommand>)
        ensures
            final(self)@ == spec_process(old(self)@, event@).0,
            cmd_views(commands@) == spec_process(old(self)@, event@).1,
    {
        let ghost m = self@;
        let ghost e = event@;
        let mut commands: Vec<KioskCommand> = Vec::new();

        match event {
            KioskEvent::StartSession => {
                if self.state == KioskState::Welcome && !self.is_loading {
                    self.is_loading = true;
                    self.error = None;
                    commands.push(KioskCommand::CreateSession);
                    commands.push(KioskCommand::UpdateUI);
                }
            },
            KioskEvent::SessionCreated { id } => {
                self.state = KioskState::Session;
                self.is_loading = false;
                self.viewing_photo = None;
                self.session = Some(
                    SessionData { id: id.clone(), phone_count: 0, photos: Vec::new() },
                );
                commands.push(KioskCommand::ConnectWebSocket { session_id: id });
                commands.push(KioskCommand::UpdateUI);
            },
            KioskEvent::SessionCreateFailed { error } => {
                self.is_loading = false;
                self.error = Some(error);
                commands.push(KioskCommand::ScheduleErrorClear);
                commands.push(KioskCommand::UpdateUI);
            },
            KioskEvent::EndSession => {
                if let Some(session) = &self.session {
                    let session_id = session.id.clone();
                    commands.push(KioskCommand::DisconnectWebSocket);
                    commands.push(KioskCommand::EndSession { session_id });
                }
            },
            KioskEvent::SessionEnded => {
                self.state = KioskState::Welcome;
                self.session = None;
                self.countdown_value = None;
                self.viewing_photo = None;
                commands.push(KioskCommand::UpdateUI);
            },
            KioskEvent::TriggerCapture => {
                // Only allow capture from live view in session state
                if self.state == KioskState::Session && self.viewing_photo.is_none() {
                    if let Some(session) = &self.session {
                        commands.push(
                            KioskCommand::TriggerCapture { session_id: session.id.clone() },
                        );
                    }
                }
            },
            KioskEvent::PhoneConnected => {
                if let Some(session) = &mut self.session {
                    session.phone_count = session.phone_count.saturating_add(1);
                    commands.push(KioskCommand::UpdateUI);
                }
            },
            KioskEvent::PhoneDisconnected => {
                if let Some(session) = &mut self.session {
                    session.phone_count = session.phone_count.saturating_sub(1);
                    commands.push(KioskCommand::UpdateUI);
                }
            },
            KioskEvent::CountdownTick { value } => {
                self.state = KioskState::Countdown;
                self.countdown_value = Some(value);
                // Ensure we're on live view during countdown
                self.viewing_photo = None;
                commands.push(KioskCommand::UpdateUI);
            },
            KioskEvent::PhotoReady { photo } => {
                if let Some(session) = &mut self.session {
                    session.photos.push(photo);
                    commands.push(KioskCommand::UpdateUI);
                }
            },
            KioskEvent::Processing => {
                self.state = KioskState::Processing;
                self.countdown_value = None;
                commands.push(KioskCommand::UpdateUI);
            },
            KioskEvent::CaptureComplete => {
                self.state = KioskState::Session;
                self.countdown_value = None;
                // Stay on live view after capture
                commands.push(KioskCommand::UpdateUI);
            },
            KioskEvent::CaptureFailed { error } => {
                self.state = KioskState::Session;
                self.countdown_value = None;
                self.error = Some(error);
                commands.push(KioskCommand::ScheduleErrorClear);
                commands.push(KioskCommand::UpdateUI);
            },
            KioskEvent::SelectPhoto(index) => {
                if self.state == KioskState::Session {
                    if let Some(session) = &self.session {
                        if index < session.photos.len() {
                            self.viewing_photo = Some(index);
                            commands.push(KioskCommand::UpdateUI);
                        }
                    }
                }
            },
            KioskEvent::SelectLive => {
                if self.state == KioskState::Session && self.viewing_photo.is_some() {
                    self.viewing_photo = None;
                    commands.push(KioskCommand::UpdateUI);
                }
            },
            KioskEvent::ClearError => {
                self.error = None;
                commands.push(KioskCommand::UpdateUI);
            },
            KioskEvent::WebSocketConnected | KioskEvent::WebSocketDisconnected => {
                // Informational only, no state change needed
            },
        }

        proof {
            assert(cmd_views(commands@) =~~= spec_process(m, e).1);
            assert(self@ =~~= spec_process(m, e).0);
        }
        commands
    }
}

/// A message sent from a background task into the controller's
/// serialized event loop; processing these one at a time is the only
/// place the controller's state is touched.
#[derive(Debug, Clone)]
pub enum AppMessage {
    /// Process a kiosk event through the state machine
    Event(KioskEvent),
}

/// The controller invariant: a session is present exactly in the three
/// in-session states, and a viewed photo index always points into the
/// session's photo strip.
pub open spec fn inv(m: MachineView) -> bool {
    &&& (m.session is Some <==> (m.state == KioskState::Session || m.state
        == KioskState::Countdown || m.state == KioskState::Processing))
    &&& (m.viewing_photo matches Some(i) ==> m.session matches Some(s) && (i as int)
        < s.photos.len())
}

/// Events that the backend only delivers while a session is active:
/// they arrive over the session's own event stream or as the outcome of
/// a capture request made within a session.
pub open spec fn session_scoped(e: EventView) -> bool {
    ||| e is CountdownTick
    ||| e is Processing
    ||| e is CaptureComplete
    ||| e is CaptureFailed
}

/// The initial controller state satisfies the invariant.
pub proof fn lemma_initial_machine_inv()
    ensures
        inv(initial_machine()),
{
}

/// State/session coupling: `session is Some <==> state` is one of the
/// in-session states, preserved by every step whose event is allowed to
/// occur — the four capture-cycle events are only ever delivered while
/// a session exists.
pub proof fn lemma_state_session_coupling(m: MachineView, e: EventView)
    requires
        inv(m),
        session_scoped(e) ==> m.session is Some,
    ensures
        inv(spec_process(m, e).0),
{
}

/// Capture gating: a `TriggerCapture` event yields a `TriggerCapture`
/// command if and only if the kiosk is in the session state and on live
/// view — and then it yields exactly one.
pub proof fn lemma_capture_gating(m: MachineView)
    requires
        inv(m),
    ensures
        (m.state == KioskState::Session && m.viewing_photo is None) ==> spec_process(
            m,
            EventView::TriggerCapture,
        ).1 =~= seq![CommandView::TriggerCapture { session_id: m.session->0.id }],
        !(m.state == KioskState::Session && m.viewing_photo is None) ==> (forall|i: int|
            0 <= i < spec_process(m, EventView::TriggerCapture).1.len() ==> !(spec_process(
                m,
                EventView::TriggerCapture,
            ).1[i] is TriggerCapture)),
{
}

/// Phone count floor: a `PhoneDisconnected` event on a session whose
/// phone count is already zero leaves the whole controller state
/// unchanged, so the count stays zero no matter how often the event is
/// applied.
pub proof fn lemma_phone_count_floor(m: MachineView)
    requires
        m.session matches Some(s) && s.phone_count == 0,
    ensures
        spec_process(m, EventView::PhoneDisconnected).0 =~~= m,
        spec_process(m, EventView::PhoneDisconnected).0.session->0.phone_count == 0,
{
}

/// The controller state after processing a whole sequence of events,
/// first event first.
pub open spec fn apply_events(m: MachineView, es: Seq<EventView>) -> MachineView
    decreases es.len(),
{
    if es.len() == 0 {
        m
    } else {
        apply_events(spec_process(m, es[0]).0, es.drop_first())
    }
}

/// A sequence of events the surrounding system can actually deliver
/// from state `m`: each capture-cycle event arrives while a session
/// exists in the state it meets.
pub open spec fn deliverable(m: MachineView, es: Seq<EventView>) -> bool
    decreases es.len(),
{
    es.len() == 0 || ((session_scoped(es[0]) ==> m.session is Some) && deliverable(
        spec_process(m, es[0]).0,
        es.drop_first(),
    ))
}

/// State/session coupling along whole runs: starting from any state
/// satisfying the invariant — the initial state does — it still holds
/// after every deliverable event sequence.
pub proof fn lemma_coupling_along_run(m: MachineView, es: Seq<EventView>)
    requires
        inv(m),
        deliverable(m, es),
    ensures
        inv(apply_events(m, es)),
    decreases es.len(),
{
    if es.len() > 0 {
        lemma_state_session_coupling(m, es[0]);
        lemma_coupling_along_run(spec_process(m, es[0]).0, es.drop_first());
    }
}

/// The `PhotoReady` events announcing the given photos, in order.
pub open spec fn photo_ready_events(ps: Seq<PhotoView>) -> Seq<EventView> {
    ps.map_values(|p: PhotoView| EventView::PhotoReady { photo: p })
}

/// Photo append monotonicity: delivering N `PhotoReady` events appends
/// exactly those N photos to the session's strip, in delivery order;
/// nothing else about the controller changes.
pub proof fn lemma_photo_append(m: MachineView, ps: Seq<PhotoView>)
    requires
        (m.session is Some),
    ensures
        apply_events(m, photo_ready_events(ps)) =~~= (MachineView {
            session: Some(
                SessionView { photos: m.session->0.photos + ps, ..m.session->0 },
            ),
            ..m
        }),
    decreases ps.len(),
{
    let s = m.session->0;
    if ps.len() == 0 {
        assert(photo_ready_events(ps).len() == 0);
        assert(s.photos + ps =~= s.photos);
    } else {
        let e0 = EventView::PhotoReady { photo: ps[0] };
        let m1 = spec_process(m, e0).0;
        assert(m1.session->0.photos =~= s.photos.push(ps[0]));
        assert(photo_ready_events(ps).drop_first() =~= photo_ready_events(ps.drop_first()));
        lemma_photo_append(m1, ps.drop_first());
        assert(s.photos.push(ps[0]) + ps.drop_first() =~= s.photos + ps);
    }
}

} // verus!
