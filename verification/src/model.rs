//! The capture task as a state machine over plain mathematical values.
//!
//! The task alternates between decisions and outside work (the capture backend,
//! the connection to the clients, hooks, notifications). Each piece of outside
//! work is an [`Action`]; its outcome comes back as a [`TaskEvent`]. [`next`]
//! is the transition function.

use crate::event::{key_up_event, no_modifiers_event, CaptureEvent, Event};
use crate::position::{facing, Position};
use crate::proto::ProtoEvent;
use crate::switching::{serial_after, HookState};
use vstd::prelude::*;

verus! {

/// Identifies a capture, and the client behind it.
pub type CaptureHandle = u64;

/// How many events are kept back while an entry awaits its acknowledgement.
pub const MAX_BUFFERED: usize = 256;

/// Nanoseconds between two attempts to enter a client.
pub const RETRY_INTERVAL_NANOS: u64 = 75_000_000;

/// Nanoseconds after which an entry without an acknowledgement has failed.
pub const ENTRY_TIMEOUT_NANOS: u128 = 3_000_000_000;

/// Nanoseconds that the cleanup on a client may take altogether.
pub const CLEANUP_TIMEOUT_NANOS: u64 = 200_000_000;

/// What a capture is for.
#[derive(Clone, Copy, Debug, PartialEq, Eq, Structural)]
pub enum CaptureType {
    /// a normal input capture
    Default,
    /// A capture only interested in [`CaptureEvent::Begin`] events. It is
    /// released immediately if there is no default capture at the same position.
    EnterOnly,
}

/// A registered capture.
#[derive(Clone, Copy, Debug, PartialEq, Eq, Structural)]
pub struct CaptureEntry {
    pub handle: CaptureHandle,
    pub pos: Position,
    pub capture_type: CaptureType,
}

/// Whether the client that is entered has acknowledged the entry.
#[derive(Clone, Copy, Debug, PartialEq, Eq, Structural)]
pub enum State {
    WaitingForAck,
    Sending,
}

/// What the task tells its owner.
#[derive(Clone, Copy, Debug, PartialEq, Eq, Structural)]
pub enum ICaptureEvent {
    /// a client's side was entered
    CaptureBegin(CaptureHandle),
    /// the capture backend is gone
    CaptureDisabled,
    /// the capture backend is up
    CaptureEnabled,
    /// the active client was left (capture released for any reason)
    ClientLeft(CaptureHandle),
    /// the active client acknowledged its entry
    ClientReady(CaptureHandle),
    /// a switch failed
    ClientFailed,
    /// a client was entered that was not the active one
    ClientEntered(CaptureHandle),
}

/// What the owner asks of the task.
#[derive(Clone, Debug)]
pub enum CaptureRequest {
    /// give the input back, with the pointer in the middle of the screen if `true`
    Release(bool),
    /// add a capture
    Create(CaptureHandle, Position, CaptureType),
    /// remove a capture
    Destroy(CaptureHandle),
    /// bring the capture backend up again
    Reenable,
    /// set the keys that together release the capture
    SetReleaseBind(Vec<u32>),
    /// enter the given client without a barrier crossing
    Enter(CaptureHandle),
}

/// A piece of outside work.
#[derive(Clone, Copy, Debug, PartialEq, Eq, Structural)]
pub enum Action {
    /// bring up the capture backend, unless cancelled: `Opened` or `Cancelled`
    Open,
    /// tell the backend whether only hotkeys may enter a client: `Done`
    SetHotkeyOnly(bool),
    /// notify the owner: `Done`
    Notify(ICaptureEvent),
    /// create a barrier: `BackendDone`, or, where that is allowed, `Cancelled`
    Create { handle: CaptureHandle, pos: Position, cancellable: bool },
    /// destroy a barrier: `BackendDone`
    Destroy(CaptureHandle),
    /// let the backend enter a client: `BackendDone`
    Enter(CaptureHandle),
    /// take the set of held keys out of the backend: `Keys`
    TakePressedKeys,
    /// let the backend give the input back: `BackendDone`
    Release { center: bool },
    /// run the switch hook: `HookDone`
    Hook(HookState),
    /// send a message to a client: `Sent`
    Send { client: CaptureHandle, message: ProtoEvent },
    /// send a message to a client as long as the cleanup that began at `since`
    /// has time left: `Sent` or `TimedOut`
    Cleanup { client: CaptureHandle, message: ProtoEvent, since: u128 },
    /// wait: `Captured`, `CaptureFailed`, `CaptureEnded`, `Received`, `Request` or
    /// `Cancelled`, and, with a retry timer that fires every `retry` nanoseconds,
    /// `Tick`
    Select { retry: Option<u64> },
    /// shut the backend down: `BackendDone`
    Terminate,
    /// wait without a backend: `Request` or `Cancelled`
    Park,
    /// the task is over
    Stop,
}

/// The outcome of outside work.
#[derive(Clone, Debug)]
pub enum TaskEvent {
    /// the backend is up, or could not be brought up
    Opened(bool),
    /// done; this kind of work does not fail
    Done,
    /// the backend has done its work, or failed
    BackendDone(bool),
    /// the keys that were held
    Keys(Vec<u32>),
    /// the hook has ended, with success or not
    HookDone(bool),
    /// the message was sent, or was not
    Sent(bool),
    /// the time for the cleanup is over
    TimedOut,
    /// the retry timer fired
    Tick,
    /// the backend captured an event; all keys of the release bind are held if `bind_pressed`
    Captured { handle: CaptureHandle, event: CaptureEvent, bind_pressed: bool },
    /// the backend reported an error
    CaptureFailed,
    /// the backend has no further events
    CaptureEnded,
    /// a client sent a message
    Received { handle: CaptureHandle, event: ProtoEvent },
    /// the owner asks for something
    Request(CaptureRequest),
    /// the owner ends the task
    Cancelled,
}

/// What follows on a release.
#[derive(Clone, Copy, Debug, PartialEq, Eq, Structural)]
pub enum After {
    /// nothing
    Resume,
    /// the owner learns that the switch failed
    Fail,
    /// the hook and the owner learn that the switch failed
    FailWithHook,
    /// the capture is destroyed
    Destroy(CaptureHandle),
}

/// Which outside work the task waits for.
#[derive(Clone, Copy, Debug, PartialEq, Eq, Structural)]
pub enum Step {
    /// the backend comes up
    Opening,
    /// the backend is told about hotkey-only mode
    Configuring,
    /// the owner is told that capturing is enabled
    Enabling,
    /// the barrier of the capture with this index is created
    Creating(usize),
    /// anything
    Selecting,
    /// the message that enters the active client is sent once more
    Retrying,
    /// the held keys are taken out of the backend
    TakingKeys { center: bool, after: After },
    /// the backend gives the input back
    Releasing { after: After },
    /// the hook is told that input is local again
    LocalHook { after: After },
    /// the owner is told that the client was left
    Leaving { client: CaptureHandle, serial: u32, after: After },
    /// the first `sent` held keys were let go on the client; the next key, or
    /// the modifiers if none is left, are on their way
    CleaningUp { client: CaptureHandle, serial: u32, sent: usize, since: u128, after: After },
    /// the client is told that the input leaves
    SayingLeave { after: After },
    /// the hook is told of a failed switch, the owner is next
    FailingHook,
    /// the owner is told of a failed switch
    Failing,
    /// the hook is told that the client acknowledged
    RemoteHook { client: CaptureHandle },
    /// the owner is told that the client acknowledged
    Readying { client: CaptureHandle },
    /// an event that was kept back is sent
    Flushing { client: CaptureHandle },
    /// the hook is told of a requested entry
    ConnectingHook { client: CaptureHandle },
    /// the hook is told of a failure that the owner does not hear of
    ErrorHook,
    /// the backend creates, destroys, enters or gives back
    BackendBusy,
    /// the owner is told that the client's side was entered
    Beginning { client: CaptureHandle },
    /// the owner is told that the client was entered
    Entering { client: CaptureHandle },
    /// a message is sent
    Forwarding,
    /// the session is over, the owner is told that the client was left
    EndingLeft { failed: bool },
    /// the session is over, the hook is told
    EndingHook { failed: bool },
    /// the backend shuts down
    Terminating,
    /// the owner is told that capturing is disabled
    Disabling,
    /// a request
    Parked,
    /// there is no backend; the hook is told of a failure, the owner is next
    ParkedHook,
    /// there is no backend; the owner is told of a failure
    ParkedFailing,
    /// nothing any more
    Stopped,
}

impl Step {
    /// The backend comes up or goes away.
    pub open spec fn of_backend(self) -> bool {
        self is Opening || self is Configuring || self is Enabling || self is Creating
            || self is EndingLeft || self is EndingHook || self is Terminating || self is Disabling
    }

    /// The input is given back, or a failed switch reported.
    pub open spec fn of_release(self) -> bool {
        self is TakingKeys || self is Releasing || self is LocalHook || self is Leaving
            || self is CleaningUp || self is SayingLeave || self is FailingHook || self is Failing
    }

    /// A client is entered, or input goes to it.
    pub open spec fn of_entry(self) -> bool {
        self is Retrying || self is RemoteHook || self is Readying || self is Flushing
            || self is ConnectingHook || self is ErrorHook || self is BackendBusy
            || self is Beginning || self is Entering || self is Forwarding
    }
}

/// The state of the capture task.
#[verifier::ext_equal]
pub struct TaskModel {
    /// whether clients are entered by hotkey alone
    pub hotkey_only: bool,
    /// the serial of the current hotkey entry, zero if there is none
    pub serial: u32,
    /// the serial of the latest hotkey entry, zero if there was none
    pub next_serial: u32,
    /// when the entry began that awaits its acknowledgement
    pub started: Option<u128>,
    /// the events kept back during the entry
    pub buffered: Seq<Event>,
    pub active_client: Option<CaptureHandle>,
    pub captures: Seq<CaptureEntry>,
    pub release_bind: Seq<u32>,
    pub state: State,
    /// the keys that a release in progress found held
    pub pressed: Seq<u32>,
    pub step: Step,
}

// ---------------------------------------------------------------- captures

/// The capture that `handle` stands for: the first one registered under it.
pub open spec fn entry_of(captures: Seq<CaptureEntry>, handle: CaptureHandle) -> Option<
    CaptureEntry,
>
    decreases captures.len(),
{
    if captures.len() == 0 {
        None
    } else if captures.first().handle == handle {
        Some(captures.first())
    } else {
        entry_of(captures.drop_first(), handle)
    }
}

/// The captures that are not registered under `handle`.
pub open spec fn without(captures: Seq<CaptureEntry>, handle: CaptureHandle) -> Seq<CaptureEntry> {
    captures.filter(|c: CaptureEntry| c.handle != handle)
}

/// Whether a default capture waits at `pos`.
pub open spec fn default_at(captures: Seq<CaptureEntry>, pos: Position) -> bool {
    exists|i: int|
        0 <= i < captures.len() && (#[trigger] captures[i]).pos == pos && captures[i].capture_type
            == CaptureType::Default
}

/// Whether `handle` has a default capture, so that it can be entered.
pub open spec fn can_enter(captures: Seq<CaptureEntry>, handle: CaptureHandle) -> bool {
    exists|i: int|
        0 <= i < captures.len() && (#[trigger] captures[i]).handle == handle
            && captures[i].capture_type == CaptureType::Default
}

/// Whether the backend has a barrier for a capture of the given type.
pub open spec fn has_barrier(hotkey_only: bool, capture_type: CaptureType) -> bool {
    !hotkey_only || capture_type == CaptureType::Default
}

/// The index of the first capture from index `from` on that has a barrier, or
/// the number of captures if there is none.
pub open spec fn next_barrier(
    captures: Seq<CaptureEntry>,
    hotkey_only: bool,
    from: int,
) -> int
    decreases captures.len() - from,
{
    if from >= captures.len() {
        captures.len() as int
    } else if has_barrier(hotkey_only, captures[from].capture_type) {
        from
    } else {
        next_barrier(captures, hotkey_only, from + 1)
    }
}

// ---------------------------------------------------------------- messages

/// The message that enters `handle`.
pub open spec fn enter_message(s: TaskModel, handle: CaptureHandle) -> ProtoEvent {
    let pos = facing(entry_of(s.captures, handle)->0.pos);
    if s.serial == 0 {
        ProtoEvent::Enter(pos)
    } else {
        ProtoEvent::HotkeyEnter { pos, serial: s.serial }
    }
}

/// The messages by which a client is left on which `keys` are held: each key
/// is let go, then the modifiers are cleared, then the input leaves.
pub open spec fn cleanup_messages(keys: Seq<u32>, serial: u32) -> Seq<ProtoEvent> {
    keys.map_values(|key: u32| ProtoEvent::Input(key_up_event(key))) + seq![
        ProtoEvent::Input(no_modifiers_event()),
        ProtoEvent::Leave(serial),
    ]
}

// ---------------------------------------------------------------- transitions

impl TaskModel {
    /// Whether the retry timer runs.
    pub open spec fn retrying(self) -> bool {
        self.started is Some && self.state == State::WaitingForAck
    }

    /// Whether the entry in progress has lasted too long.
    pub open spec fn timed_out(self, now: u128) -> bool {
        self.started is Some && now - self.started->0 >= ENTRY_TIMEOUT_NANOS
    }

    /// This state at another step.
    pub open spec fn at(self, step: Step) -> TaskModel {
        TaskModel { step, ..self }
    }

    /// This state with no switch going on.
    pub open spec fn at_rest(self) -> TaskModel {
        TaskModel {
            started: None,
            buffered: Seq::empty(),
            state: State::WaitingForAck,
            serial: 0,
            active_client: None,
            ..self
        }
    }
}

/// The state in which a task begins.
pub open spec fn initial(release_bind: Seq<u32>, hotkey_only: bool) -> TaskModel {
    TaskModel {
        hotkey_only,
        serial: 0,
        next_serial: 0,
        started: None,
        buffered: Seq::empty(),
        active_client: None,
        captures: Seq::empty(),
        release_bind,
        state: State::WaitingForAck,
        pressed: Seq::empty(),
        step: Step::Opening,
    }
}

/// Wait for anything.
pub open spec fn select(s: TaskModel) -> (TaskModel, Action) {
    let retry = if s.retrying() {
        Some(RETRY_INTERVAL_NANOS)
    } else {
        None
    };
    (s.at(Step::Selecting), Action::Select { retry })
}

/// Wait without a backend.
pub open spec fn park(s: TaskModel) -> (TaskModel, Action) {
    (s.at(Step::Parked), Action::Park)
}

/// Create the next barrier from the capture with index `from` on; when all
/// barriers are created the session begins.
pub open spec fn create_captures(s: TaskModel, from: int) -> (TaskModel, Action) {
    let i = next_barrier(s.captures, s.hotkey_only, from);
    if i < s.captures.len() {
        (
            s.at(Step::Creating(i as usize)),
            Action::Create {
                handle: s.captures[i].handle,
                pos: s.captures[i].pos,
                cancellable: true,
            },
        )
    } else {
        select(s)
    }
}

/// End the session: the owner hears that the active client was left, then the
/// hook hears how the session ended.
pub open spec fn end_session(s: TaskModel, failed: bool) -> (TaskModel, Action) {
    match s.active_client {
        Some(client) => (
            TaskModel { active_client: None, state: State::WaitingForAck, ..s }.at(
                Step::EndingLeft { failed },
            ),
            Action::Notify(ICaptureEvent::ClientLeft(client)),
        ),
        None => end_hook(s, failed),
    }
}

/// Forget the switch that was going on and tell the hook how the session ended.
pub open spec fn end_hook(s: TaskModel, failed: bool) -> (TaskModel, Action) {
    (
        TaskModel { started: None, buffered: Seq::empty(), serial: 0, ..s }.at(
            Step::EndingHook { failed },
        ),
        Action::Hook(
            if failed {
                HookState::Error
            } else {
                HookState::Reset
            },
        ),
    )
}

/// Begin to give the input back.
pub open spec fn release_capture(s: TaskModel, center: bool, after: After) -> (TaskModel, Action) {
    (s.at(Step::TakingKeys { center, after }), Action::TakePressedKeys)
}

/// The input is given back and the hook knows: the switch is forgotten, and
/// the owner hears which client was left, if one was.
pub open spec fn left_client(s: TaskModel, after: After) -> (TaskModel, Action) {
    match s.active_client {
        Some(client) => (
            s.at_rest().at(Step::Leaving { client, serial: s.serial, after }),
            Action::Notify(ICaptureEvent::ClientLeft(client)),
        ),
        None => released(s.at_rest(), after),
    }
}

/// Go on with the cleanup on a client that began at `since`, of which the first
/// `sent` messages are sent.
pub open spec fn clean_up(
    s: TaskModel,
    client: CaptureHandle,
    serial: u32,
    sent: int,
    since: u128,
    after: After,
) -> (TaskModel, Action) {
    let messages = cleanup_messages(s.pressed, serial);
    let action = Action::Cleanup { client, message: messages[sent], since };
    if sent <= s.pressed.len() {
        (s.at(Step::CleaningUp { client, serial, sent: sent as usize, since, after }), action)
    } else {
        (s.at(Step::SayingLeave { after }), action)
    }
}

/// The release is complete.
pub open spec fn released(s: TaskModel, after: After) -> (TaskModel, Action) {
    let t = TaskModel { pressed: Seq::empty(), ..s };
    match after {
        After::Resume => select(t),
        After::Fail => (t.at(Step::Failing), Action::Notify(ICaptureEvent::ClientFailed)),
        After::FailWithHook => (t.at(Step::FailingHook), Action::Hook(HookState::Error)),
        After::Destroy(handle) => destroy_capture(t, handle),
    }
}

/// Remove a capture, and its barrier if it has one.
pub open spec fn destroy_capture(s: TaskModel, handle: CaptureHandle) -> (TaskModel, Action) {
    let t = TaskModel { captures: without(s.captures, handle), ..s };
    if !s.hotkey_only || has_barrier(
        s.hotkey_only,
        entry_of(s.captures, handle)->0.capture_type,
    ) {
        (t.at(Step::BackendBusy), Action::Destroy(handle))
    } else {
        select(t)
    }
}

/// The retry timer fired.
pub open spec fn on_tick(s: TaskModel, now: u128) -> (TaskModel, Action) {
    if s.timed_out(now) {
        release_capture(s, false, After::FailWithHook)
    } else {
        match s.active_client {
            Some(client) => (
                s.at(Step::Retrying),
                Action::Send { client, message: enter_message(s, client) },
            ),
            None => select(s),
        }
    }
}

/// The backend captured an event.
pub open spec fn on_captured(
    s: TaskModel,
    handle: CaptureHandle,
    event: CaptureEvent,
    bind_pressed: bool,
    now: u128,
) -> (TaskModel, Action) {
    if bind_pressed {
        release_capture(s, true, After::Resume)
    } else if event == CaptureEvent::Begin {
        (
            s.at(Step::Beginning { client: handle }),
            Action::Notify(ICaptureEvent::CaptureBegin(handle)),
        )
    } else {
        handle_capture_event(s, handle, event, now)
    }
}

/// React to an event of a capture. A capture that only waits for the pointer
/// gives the input back where no default capture wants it. On any other one the
/// event enters the client or goes on to it.
pub open spec fn handle_capture_event(
    s: TaskModel,
    handle: CaptureHandle,
    event: CaptureEvent,
    now: u128,
) -> (TaskModel, Action) {
    let entry = entry_of(s.captures, handle)->0;
    if entry.capture_type == CaptureType::EnterOnly {
        if default_at(s.captures, entry.pos) {
            select(s)
        } else {
            (s.at(Step::BackendBusy), Action::Release { center: false })
        }
    } else if event == CaptureEvent::Begin && s.active_client != Some(handle) {
        (
            TaskModel {
                state: State::WaitingForAck,
                started: if s.started is Some {
                    s.started
                } else {
                    Some(now)
                },
                active_client: Some(handle),
                ..s
            }.at(Step::Entering { client: handle }),
            Action::Notify(ICaptureEvent::ClientEntered(handle)),
        )
    } else {
        forward(s, handle, event)
    }
}

/// Pass an event of a default capture on to its client; until the client
/// acknowledges its entry, keep input back as long as there is room.
pub open spec fn forward(s: TaskModel, client: CaptureHandle, event: CaptureEvent) -> (
    TaskModel,
    Action,
) {
    match event {
        CaptureEvent::Begin => (
            s.at(Step::Forwarding),
            Action::Send { client, message: enter_message(s, client) },
        ),
        CaptureEvent::Input(e) => match s.state {
            State::WaitingForAck => if s.buffered.len() >= MAX_BUFFERED {
                release_capture(s, false, After::Fail)
            } else {
                select(TaskModel { buffered: s.buffered.push(e), ..s })
            },
            State::Sending => (
                s.at(Step::Forwarding),
                Action::Send { client, message: ProtoEvent::Input(e) },
            ),
        },
    }
}

/// Whether a message acknowledges the entry in progress.
pub open spec fn completes_entry(
    s: TaskModel,
    handle: CaptureHandle,
    event: ProtoEvent,
) -> bool {
    &&& s.active_client == Some(handle)
    &&& s.state == State::WaitingForAck
    &&& event == ProtoEvent::Ack(s.serial)
}

/// A client sent a message. While a client is active no other one is listened to.
pub open spec fn on_received(s: TaskModel, handle: CaptureHandle, event: ProtoEvent) -> (
    TaskModel,
    Action,
) {
    if s.active_client is Some && s.active_client != Some(handle) {
        select(s)
    } else if completes_entry(s, handle, event) {
        (
            TaskModel { state: State::Sending, started: None, ..s }.at(
                Step::RemoteHook { client: handle },
            ),
            Action::Hook(HookState::Remote),
        )
    } else if event is Leave {
        release_capture(s, false, After::Resume)
    } else {
        select(s)
    }
}

/// Send the first of the events that were kept back.
pub open spec fn flush(s: TaskModel, client: CaptureHandle) -> (TaskModel, Action) {
    if s.buffered.len() == 0 {
        select(s)
    } else {
        (
            TaskModel { buffered: s.buffered.drop_first(), ..s }.at(Step::Flushing { client }),
            Action::Send { client, message: ProtoEvent::Input(s.buffered.first()) },
        )
    }
}

/// The owner asks for something while there is a backend.
pub open spec fn on_request(s: TaskModel, request: CaptureRequest) -> (TaskModel, Action) {
    match request {
        CaptureRequest::Reenable => select(s),
        CaptureRequest::Release(center) => release_capture(s, center, After::Resume),
        CaptureRequest::Enter(handle) => if s.active_client is Some {
            select(s)
        } else if can_enter(s.captures, handle) {
            (s.at(Step::ConnectingHook { client: handle }), Action::Hook(HookState::Connecting))
        } else {
            (s.at(Step::FailingHook), Action::Hook(HookState::Error))
        },
        CaptureRequest::Create(handle, pos, capture_type) => {
            let t = TaskModel {
                captures: s.captures.push(CaptureEntry { handle, pos, capture_type }),
                ..s
            };
            if has_barrier(s.hotkey_only, capture_type) {
                (t.at(Step::BackendBusy), Action::Create { handle, pos, cancellable: false })
            } else {
                select(t)
            }
        },
        CaptureRequest::Destroy(handle) => if s.active_client == Some(handle) {
            release_capture(s, false, After::Destroy(handle))
        } else {
            destroy_capture(s, handle)
        },
        CaptureRequest::SetReleaseBind(bind) => select(TaskModel { release_bind: bind@, ..s }),
    }
}

/// The hook knows of the requested entry; if it agreed, the entry begins.
pub open spec fn on_connecting(s: TaskModel, client: CaptureHandle, ok: bool, now: u128) -> (
    TaskModel,
    Action,
) {
    if ok {
        let serial = serial_after(s.next_serial);
        (
            TaskModel { next_serial: serial, serial, started: Some(now), ..s }.at(
                Step::BackendBusy,
            ),
            Action::Enter(client),
        )
    } else {
        (s.at(Step::ErrorHook), Action::Hook(HookState::Error))
    }
}

/// The owner asks for something while there is no backend.
pub open spec fn on_parked_request(s: TaskModel, request: CaptureRequest) -> (TaskModel, Action) {
    match request {
        CaptureRequest::Reenable => (s.at(Step::Opening), Action::Open),
        CaptureRequest::Create(handle, pos, capture_type) => park(
            TaskModel {
                captures: s.captures.push(CaptureEntry { handle, pos, capture_type }),
                ..s
            },
        ),
        CaptureRequest::Destroy(handle) => park(
            TaskModel { captures: without(s.captures, handle), ..s },
        ),
        CaptureRequest::Release(_) | CaptureRequest::Enter(_) => (
            s.at(Step::ParkedHook),
            Action::Hook(HookState::Error),
        ),
        CaptureRequest::SetReleaseBind(bind) => park(TaskModel { release_bind: bind@, ..s }),
    }
}

/// What the session does when an event reaches it.
pub open spec fn do_capture_session(s: TaskModel, event: TaskEvent, now: u128) -> (
    TaskModel,
    Action,
) {
    match event {
        TaskEvent::Tick => on_tick(s, now),
        TaskEvent::Captured { handle, event, bind_pressed } => on_captured(
            s,
            handle,
            event,
            bind_pressed,
            now,
        ),
        TaskEvent::CaptureFailed => end_session(s, true),
        TaskEvent::Received { handle, event } => on_received(s, handle, event),
        TaskEvent::Request(request) => on_request(s, request),
        // the backend ran dry, or the owner ends the task
        _ => end_session(s, false),
    }
}

/// Whether `event` can be the outcome of the outside work that the task waits
/// for. An event of a capture, and, in hotkey-only mode, a request to destroy
/// one, must name a capture that is registered; there must be room for a new one.
pub open spec fn accepts(s: TaskModel, event: TaskEvent) -> bool {
    match s.step {
        Step::Opening => event is Opened || event is Cancelled,
        Step::Creating(_) => event is BackendDone || event is Cancelled,
        Step::Selecting => match event {
            TaskEvent::Tick => s.retrying(),
            TaskEvent::Captured { handle, event, bind_pressed } => bind_pressed || entry_of(
                s.captures,
                handle,
            ) is Some,
            TaskEvent::Request(CaptureRequest::Destroy(handle)) => s.hotkey_only ==> entry_of(
                s.captures,
                handle,
            ) is Some,
            TaskEvent::Request(CaptureRequest::Create(..)) => s.captures.len() < usize::MAX,
            TaskEvent::CaptureFailed
            | TaskEvent::CaptureEnded
            | TaskEvent::Received { .. }
            | TaskEvent::Request(_)
            | TaskEvent::Cancelled => true,
            _ => false,
        },
        Step::TakingKeys { .. } => event is Keys,
        Step::Releasing { .. } | Step::BackendBusy | Step::Terminating => event is BackendDone,
        Step::LocalHook { .. }
        | Step::FailingHook
        | Step::RemoteHook { .. }
        | Step::ConnectingHook { .. }
        | Step::ErrorHook
        | Step::EndingHook { .. }
        | Step::ParkedHook => event is HookDone,
        Step::CleaningUp { .. } | Step::SayingLeave { .. } => event is Sent || event is TimedOut,
        Step::Retrying | Step::Flushing { .. } | Step::Forwarding => event is Sent,
        Step::Parked => match event {
            TaskEvent::Request(CaptureRequest::Create(..)) => s.captures.len() < usize::MAX,
            TaskEvent::Request(_) | TaskEvent::Cancelled => true,
            _ => false,
        },
        Step::Stopped => false,
        Step::Configuring
        | Step::Enabling
        | Step::Leaving { .. }
        | Step::Failing
        | Step::Readying { .. }
        | Step::Beginning { .. }
        | Step::Entering { .. }
        | Step::EndingLeft { .. }
        | Step::Disabling
        | Step::ParkedFailing => event is Done,
    }
}

/// The transition function: from the state and the outcome of the outside work
/// that the task waited for to the next state and the next outside work.
pub open spec fn next(s: TaskModel, event: TaskEvent, now: u128) -> (TaskModel, Action) {
    match s.step {
        Step::Opening => if event == TaskEvent::Opened(true) {
            (s.at(Step::Configuring), Action::SetHotkeyOnly(s.hotkey_only))
        } else {
            park(s)
        },
        Step::Configuring => (
            s.at(Step::Enabling),
            Action::Notify(ICaptureEvent::CaptureEnabled),
        ),
        Step::Enabling => create_captures(s, 0),
        Step::Creating(index) => if event == TaskEvent::BackendDone(true) {
            create_captures(s, index + 1)
        } else if event is Cancelled {
            select(s)
        } else {
            (s.at(Step::Terminating), Action::Terminate)
        },
        Step::Selecting => do_capture_session(s, event, now),
        Step::Retrying => select(s),
        Step::TakingKeys { center, after } => (
            TaskModel { pressed: event->Keys_0@, ..s }.at(Step::Releasing { after }),
            Action::Release { center },
        ),
        Step::Releasing { after } => if event == TaskEvent::BackendDone(true) {
            (s.at(Step::LocalHook { after }), Action::Hook(HookState::Local))
        } else {
            end_session(TaskModel { pressed: Seq::empty(), ..s }, true)
        },
        Step::LocalHook { after } => left_client(s, after),
        Step::Leaving { client, serial, after } => clean_up(s, client, serial, 0, now, after),
        Step::CleaningUp { client, serial, sent, since, after } => if event is TimedOut {
            released(s, after)
        } else {
            clean_up(s, client, serial, sent + 1, since, after)
        },
        Step::SayingLeave { after } => released(s, after),
        Step::FailingHook => (s.at(Step::Failing), Action::Notify(ICaptureEvent::ClientFailed)),
        Step::Failing => select(s),
        Step::RemoteHook { client } => (
            s.at(Step::Readying { client }),
            Action::Notify(ICaptureEvent::ClientReady(client)),
        ),
        Step::Readying { client } => flush(s, client),
        Step::Flushing { client } => if event == TaskEvent::Sent(true) {
            flush(s, client)
        } else {
            release_capture(s, false, After::Resume)
        },
        Step::ConnectingHook { client } => on_connecting(
            s,
            client,
            event == TaskEvent::HookDone(true),
            now,
        ),
        Step::ErrorHook => select(s),
        Step::BackendBusy => if event == TaskEvent::BackendDone(true) {
            select(s)
        } else {
            end_session(s, true)
        },
        Step::Beginning { client } => handle_capture_event(s, client, CaptureEvent::Begin, now),
        Step::Entering { client } => forward(s, client, CaptureEvent::Begin),
        Step::Forwarding => if event == TaskEvent::Sent(false) && s.state == State::Sending {
            release_capture(s, false, After::Resume)
        } else {
            select(s)
        },
        Step::EndingLeft { failed } => end_hook(s, failed),
        Step::EndingHook { .. } => (s.at(Step::Terminating), Action::Terminate),
        Step::Terminating => (
            s.at(Step::Disabling),
            Action::Notify(ICaptureEvent::CaptureDisabled),
        ),
        Step::Disabling => park(s),
        Step::Parked => match event {
            TaskEvent::Request(request) => on_parked_request(s, request),
            _ => (s.at(Step::Stopped), Action::Stop),
        },
        Step::ParkedHook => (
            s.at(Step::ParkedFailing),
            Action::Notify(ICaptureEvent::ClientFailed),
        ),
        Step::ParkedFailing => park(s),
        Step::Stopped => (s, Action::Stop),
    }
}

// ---------------------------------------------------------------- invariant

impl TaskModel {
    /// No switch is going on.
    pub open spec fn resting(self) -> bool {
        self == self.at_rest()
    }

    /// The capture that a release makes way for, if any, is known as far as needed.
    pub open spec fn after_ok(self, after: After) -> bool {
        after matches After::Destroy(handle) ==> self.hotkey_only ==> entry_of(
            self.captures,
            handle,
        ) is Some
    }

    /// Where input goes to the client directly, none is kept back any more.
    pub open spec fn flushed(self) -> bool {
        self.state == State::Sending ==> self.buffered.len() == 0
    }

    /// What holds of the task's state at its present step.
    pub open spec fn step_ok(self) -> bool {
        match self.step {
            Step::Opening
            | Step::Configuring
            | Step::Enabling
            | Step::EndingHook { .. }
            | Step::Terminating
            | Step::Disabling
            | Step::Parked
            | Step::ParkedHook
            | Step::ParkedFailing
            | Step::Stopped => self.resting() && self.pressed.len() == 0,
            Step::Creating(index) => {
                &&& self.resting()
                &&& self.pressed.len() == 0
                &&& index < self.captures.len()
                &&& has_barrier(self.hotkey_only, self.captures[index as int].capture_type)
            },
            Step::TakingKeys { after, .. } => self.after_ok(after) && self.pressed.len() == 0,
            Step::Releasing { after } | Step::LocalHook { after } => self.after_ok(after),
            Step::Leaving { after, .. } | Step::SayingLeave { after } => self.resting()
                && self.after_ok(after),
            Step::CleaningUp { sent, after, .. } => {
                &&& self.resting()
                &&& self.after_ok(after)
                &&& sent <= self.pressed.len()
            },
            Step::RemoteHook { client } | Step::Readying { client } | Step::Flushing { client } => {
                &&& self.active_client == Some(client)
                &&& self.state == State::Sending
                &&& self.pressed.len() == 0
            },
            Step::ConnectingHook { client } => {
                &&& self.active_client is None
                &&& can_enter(self.captures, client)
                &&& self.pressed.len() == 0
            },
            Step::Beginning { client } => {
                &&& entry_of(self.captures, client) is Some
                &&& self.pressed.len() == 0
                &&& self.flushed()
            },
            Step::Entering { client } => {
                &&& self.active_client == Some(client)
                &&& self.pressed.len() == 0
                &&& self.flushed()
            },
            Step::EndingLeft { .. } => self.active_client is None && self.pressed.len() == 0,
            Step::Selecting
            | Step::Retrying
            | Step::FailingHook
            | Step::Failing
            | Step::ErrorHook
            | Step::BackendBusy
            | Step::Forwarding => self.pressed.len() == 0 && self.flushed(),
        }
    }

    /// What holds of the task's state at every step: not more than
    /// [`MAX_BUFFERED`] events are kept back; the active client has a default
    /// capture; its entry is being timed until it is over, and it is sent input only
    /// then; the serial is that of the latest hotkey entry, if any.
    pub open spec fn core_ok(self) -> bool {
        &&& self.captures.len() <= usize::MAX
        &&& self.pressed.len() <= usize::MAX
        &&& self.buffered.len() <= MAX_BUFFERED
        &&& self.active_client matches Some(client) ==> {
            &&& entry_of(self.captures, client) is Some
            &&& entry_of(self.captures, client)->0.capture_type == CaptureType::Default
        }
        &&& self.active_client is Some && self.state == State::WaitingForAck ==> self.started is Some
        &&& self.state == State::Sending ==> self.active_client is Some && self.started is None
        &&& self.serial == 0 || self.serial == self.next_serial
    }

    /// The invariant of the task.
    pub open spec fn wf(self) -> bool {
        self.core_ok() && self.step_ok()
    }
}

/// A capture is looked up in the first part of a list before the second.
proof fn lemma_entry_concat(
    a: Seq<CaptureEntry>,
    b: Seq<CaptureEntry>,
    handle: CaptureHandle,
)
    ensures
        entry_of(a + b, handle) == (if entry_of(a, handle) is Some {
            entry_of(a, handle)
        } else {
            entry_of(b, handle)
        }),
    decreases a.len(),
{
    if a.len() == 0 {
        assert(a + b =~= b);
    } else {
        assert((a + b).drop_first() =~= a.drop_first() + b);
        lemma_entry_concat(a.drop_first(), b, handle);
    }
}

/// A new capture changes nothing for a handle that stands for one already.
pub proof fn lemma_entry_push(
    captures: Seq<CaptureEntry>,
    entry: CaptureEntry,
    handle: CaptureHandle,
)
    ensures
        entry_of(captures, handle) is Some ==> entry_of(captures.push(entry), handle) == entry_of(
            captures,
            handle,
        ),
{
    assert(captures.push(entry) =~= captures + seq![entry]);
    lemma_entry_concat(captures, seq![entry], handle);
}

/// A capture under a new handle is what that handle stands for.
pub proof fn lemma_entry_new(captures: Seq<CaptureEntry>, entry: CaptureEntry)
    requires
        entry_of(captures, entry.handle) is None,
    ensures
        entry_of(captures.push(entry), entry.handle) == Some(entry),
{
    assert(captures.push(entry) =~= captures + seq![entry]);
    lemma_entry_concat(captures, seq![entry], entry.handle);
}

/// Removing a handle changes nothing for another one, and leaves nothing of it.
pub proof fn lemma_entry_without(
    captures: Seq<CaptureEntry>,
    removed: CaptureHandle,
    handle: CaptureHandle,
)
    ensures
        entry_of(without(captures, removed), handle) == (if handle == removed {
            None
        } else {
            entry_of(captures, handle)
        }),
    decreases captures.len(),
{
    let keep = |c: CaptureEntry| c.handle != removed;
    reveal(Seq::filter);
    if captures.len() > 0 {
        let init = captures.drop_last();
        let last = seq![captures.last()];
        lemma_entry_without(init, removed, handle);
        assert(captures =~= init + last);
        lemma_entry_concat(init, last, handle);
        lemma_entry_concat(without(init, removed), last, handle);
        assert(last.drop_first() =~= Seq::empty());
        assert(entry_of(last.drop_first(), handle) is None);
        assert(without(init, removed).push(captures.last()) =~= without(init, removed) + last);
    }
}

/// Removing a handle that stands for no capture changes nothing.
pub proof fn lemma_without_unknown(captures: Seq<CaptureEntry>, handle: CaptureHandle)
    requires
        entry_of(captures, handle) is None,
    ensures
        without(captures, handle) == captures,
    decreases captures.len(),
{
    reveal(Seq::filter);
    if captures.len() > 0 {
        let init = captures.drop_last();
        let last = seq![captures.last()];
        assert(captures =~= init + last);
        lemma_entry_concat(init, last, handle);
        lemma_without_unknown(init, handle);
        assert(init.push(captures.last()) =~= captures);
    }
}

/// Removing a new handle undoes its registration.
pub proof fn lemma_without_new(captures: Seq<CaptureEntry>, entry: CaptureEntry)
    requires
        entry_of(captures, entry.handle) is None,
    ensures
        without(captures.push(entry), entry.handle) == captures,
{
    reveal(Seq::filter);
    lemma_without_unknown(captures, entry.handle);
    assert(captures.push(entry).drop_last() =~= captures);
}

/// Where a handle stands for a capture, that capture is registered.
pub proof fn lemma_entry_registered(captures: Seq<CaptureEntry>, handle: CaptureHandle)
    requires
        entry_of(captures, handle) is Some,
    ensures
        entry_of(captures, handle)->0.handle == handle,
        captures.contains(entry_of(captures, handle)->0),
    decreases captures.len(),
{
    if captures.first().handle != handle {
        lemma_entry_registered(captures.drop_first(), handle);
        let entry = entry_of(captures, handle)->0;
        let i = choose|i: int|
            0 <= i < captures.drop_first().len() && captures.drop_first()[i] == entry;
        assert(captures[i + 1] == entry);
    } else {
        assert(captures[0] == captures.first());
    }
}

/// The next barrier is that of a capture which has one, if any is left.
pub proof fn lemma_next_barrier(captures: Seq<CaptureEntry>, hotkey_only: bool, from: int)
    requires
        0 <= from <= captures.len(),
    ensures
        from <= next_barrier(captures, hotkey_only, from) <= captures.len(),
        next_barrier(captures, hotkey_only, from) < captures.len() ==> has_barrier(
            hotkey_only,
            captures[next_barrier(captures, hotkey_only, from)].capture_type,
        ),
    decreases captures.len() - from,
{
    if from < captures.len() && !has_barrier(hotkey_only, captures[from].capture_type) {
        lemma_next_barrier(captures, hotkey_only, from + 1);
    }
}

/// Waiting is possible whenever no release and no flush is in progress.
proof fn lemma_select_wf(s: TaskModel)
    requires
        s.core_ok(),
        s.pressed.len() == 0,
        s.flushed(),
    ensures
        select(s).0.wf(),
{
}

/// A session can end at any time.
proof fn lemma_end_session_wf(s: TaskModel, failed: bool)
    requires
        s.core_ok(),
        s.pressed.len() == 0,
    ensures
        end_session(s, failed).0.wf(),
{
}

/// Captures are removed only while their client is not active.
proof fn lemma_destroy_wf(s: TaskModel, handle: CaptureHandle)
    requires
        s.core_ok(),
        s.pressed.len() == 0,
        s.flushed(),
        s.active_client != Some(handle),
    ensures
        destroy_capture(s, handle).0.wf(),
{
    if let Some(client) = s.active_client {
        lemma_entry_without(s.captures, handle, client);
    }
    s.captures.lemma_filter_len(|c: CaptureEntry| c.handle != handle);
}

/// One more capture disturbs nothing.
pub proof fn lemma_add_wf(s: TaskModel, entry: CaptureEntry)
    requires
        s.wf(),
        s.captures.len() < usize::MAX,
    ensures
        (TaskModel { captures: s.captures.push(entry), ..s }).wf(),
{
    let t = TaskModel { captures: s.captures.push(entry), ..s };
    assert forall|handle: CaptureHandle| entry_of(s.captures, handle) is Some implies #[trigger] entry_of(
        t.captures,
        handle,
    ) == entry_of(s.captures, handle) by {
        lemma_entry_push(s.captures, entry, handle);
    }
    assert(forall|i: int| 0 <= i < s.captures.len() ==> t.captures[i] == s.captures[i]);
}

/// A capture can go while its client is not active and nothing is done with it.
pub proof fn lemma_remove_wf(s: TaskModel, handle: CaptureHandle)
    requires
        s.wf(),
        s.step == Step::Selecting || s.step == Step::Parked,
        s.active_client != Some(handle),
    ensures
        (TaskModel { captures: without(s.captures, handle), ..s }).wf(),
{
    if let Some(client) = s.active_client {
        lemma_entry_without(s.captures, handle, client);
    }
    s.captures.lemma_filter_len(|c: CaptureEntry| c.handle != handle);
}

/// A complete release leads on from rest.
proof fn lemma_released_wf(s: TaskModel, after: After)
    requires
        s.core_ok(),
        s.resting(),
    ensures
        released(s, after).0.wf(),
{
    let t = TaskModel { pressed: Seq::empty(), ..s };
    lemma_select_wf(t);
    if let After::Destroy(handle) = after {
        lemma_destroy_wf(t, handle);
    }
}

/// The barriers are created from rest.
proof fn lemma_create_captures_wf(s: TaskModel, from: int)
    requires
        s.core_ok(),
        s.pressed.len() == 0,
        s.resting(),
        0 <= from <= s.captures.len(),
    ensures
        create_captures(s, from).0.wf(),
{
    lemma_next_barrier(s.captures, s.hotkey_only, from);
    lemma_select_wf(s);
}

/// An event of a registered capture keeps the invariant.
proof fn lemma_capture_event_wf(
    s: TaskModel,
    handle: CaptureHandle,
    event: CaptureEvent,
    now: u128,
)
    requires
        s.core_ok(),
        s.pressed.len() == 0,
        s.flushed(),
        entry_of(s.captures, handle) is Some,
    ensures
        handle_capture_event(s, handle, event, now).0.wf(),
{
    lemma_select_wf(s);
}

/// A request keeps the invariant.
proof fn lemma_request_wf(s: TaskModel, request: CaptureRequest)
    requires
        s.core_ok(),
        s.pressed.len() == 0,
        s.flushed(),
        request is Create ==> s.captures.len() < usize::MAX,
    ensures
        on_request(s, request).0.wf(),
        s.resting() ==> on_parked_request(s, request).0.wf(),
{
    lemma_select_wf(s);
    match request {
        CaptureRequest::Create(handle, pos, capture_type) => {
            if let Some(client) = s.active_client {
                lemma_entry_push(s.captures, CaptureEntry { handle, pos, capture_type }, client);
            }
        },
        CaptureRequest::Destroy(handle) => {
            s.captures.lemma_filter_len(|c: CaptureEntry| c.handle != handle);
            if s.active_client != Some(handle) {
                lemma_destroy_wf(s, handle);
            }
        },
        _ => {},
    }
}

/// Every event that reaches a session keeps the invariant.
proof fn lemma_session_wf(s: TaskModel, event: TaskEvent, now: u128)
    requires
        s.wf(),
        s.step == Step::Selecting,
        accepts(s, event),
    ensures
        do_capture_session(s, event, now).0.wf(),
{
    lemma_select_wf(s);
    lemma_end_session_wf(s, true);
    lemma_end_session_wf(s, false);
    match event {
        TaskEvent::Captured { handle, event, bind_pressed } => {
            if !bind_pressed {
                lemma_capture_event_wf(s, handle, event, now);
            }
        },
        TaskEvent::Request(request) => {
            lemma_request_wf(s, request);
        },
        _ => {},
    }
}

/// Every transition keeps the invariant.
pub proof fn lemma_next_wf(s: TaskModel, event: TaskEvent, now: u128)
    requires
        s.wf(),
        accepts(s, event),
    ensures
        next(s, event, now).0.wf(),
{
    match s.step {
        Step::Enabling => {
            lemma_create_captures_wf(s, 0);
        },
        Step::Creating(index) => {
            lemma_create_captures_wf(s, index + 1);
            lemma_select_wf(s);
        },
        Step::Selecting => {
            lemma_session_wf(s, event, now);
        },
        Step::TakingKeys { .. } => {
            if let TaskEvent::Keys(keys) = event {
                assert(keys@.len() == keys.len());
            }
        },
        Step::Releasing { .. } => {
            lemma_end_session_wf(TaskModel { pressed: Seq::empty(), ..s }, true);
        },
        Step::LocalHook { after } => {
            lemma_released_wf(s.at_rest(), after);
        },
        Step::CleaningUp { after, .. } | Step::SayingLeave { after } => {
            lemma_released_wf(s, after);
        },
        Step::Beginning { client } => {
            lemma_capture_event_wf(s, client, CaptureEvent::Begin, now);
        },
        Step::Parked => {
            if let TaskEvent::Request(request) = event {
                lemma_request_wf(s, request);
            }
        },
        Step::BackendBusy => {
            lemma_select_wf(s);
            lemma_end_session_wf(s, true);
        },
        Step::Readying { .. } | Step::Flushing { .. } => {
            if s.buffered.len() == 0 {
                lemma_select_wf(s);
            }
        },
        Step::Retrying | Step::Failing | Step::ErrorHook | Step::Forwarding => {
            lemma_select_wf(s);
        },
        _ => {},
    }
}

} // verus!
