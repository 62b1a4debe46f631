//! The capture task: which input goes to which client.
//!
//! [`CaptureTask`] makes the decisions and [`CaptureTask::step`] drives it: it
//! takes the outcome of the outside work that the task asked for last and returns
//! the outside work that it asks for next.

use crate::event::{
    key_up_event, no_modifiers_event, CaptureEvent, Event, KeyboardEvent,
};
use crate::model::{
    accepts, can_enter, clean_up, create_captures, default_at, destroy_capture,
    do_capture_session, end_hook, end_session, enter_message, entry_of, flush, forward,
    handle_capture_event, has_barrier, initial, left_client, lemma_add_wf, lemma_next_wf,
    lemma_remove_wf, lemma_without_unknown, next, next_barrier,
    on_captured, on_connecting, on_parked_request, on_received, on_request, on_tick, park,
    release_capture, released, select, without, Action, After, CaptureEntry, CaptureHandle,
    CaptureRequest, CaptureType, ICaptureEvent, State, Step, TaskEvent, TaskModel,
    CLEANUP_TIMEOUT_NANOS, ENTRY_TIMEOUT_NANOS, MAX_BUFFERED, RETRY_INTERVAL_NANOS,
};
use crate::position::{to_proto_pos, Position};
use crate::proto::ProtoEvent;
use crate::switching::{following_serial, HookState};
use std::collections::VecDeque;
use vstd::prelude::*;

verus! {

/// The capture task.
pub struct CaptureTask {
    hotkey_only: bool,
    serial: u32,
    next_serial: u32,
    started: Option<u128>,
    buffered: VecDeque<Event>,
    active_client: Option<CaptureHandle>,
    captures: Vec<CaptureEntry>,
    release_bind: Vec<u32>,
    state: State,
    pressed: Vec<u32>,
    step: Step,
}

impl View for CaptureTask {
    type V = TaskModel;

    closed spec fn view(&self) -> TaskModel {
        TaskModel {
            hotkey_only: self.hotkey_only,
            serial: self.serial,
            next_serial: self.next_serial,
            started: self.started,
            buffered: self.buffered@,
            active_client: self.active_client,
            captures: self.captures@,
            release_bind: self.release_bind@,
            state: self.state,
            pressed: self.pressed@,
            step: self.step,
        }
    }
}

/// The message that lets go of `key` on a client.
fn key_up_message(key: u32) -> (res: ProtoEvent)
    ensures
        res == ProtoEvent::Input(key_up_event(key)),
{
    ProtoEvent::Input(Event::Keyboard(KeyboardEvent::Key { time: 0, key, state: 0 }))
}

/// When the cleanup that began at `since` has to end. It may take
/// [`CLEANUP_TIMEOUT_NANOS`] altogether, however many messages it sends.
pub fn cleanup_deadline(since: u128) -> (res: u128)
    requires
        since + CLEANUP_TIMEOUT_NANOS <= u128::MAX,
    ensures
        res == since + CLEANUP_TIMEOUT_NANOS,
{
    since + CLEANUP_TIMEOUT_NANOS as u128
}

/// The message that clears the modifiers on a client, which keeps their masks
/// apart from the keys that are held.
fn no_modifiers_message() -> (res: ProtoEvent)
    ensures
        res == ProtoEvent::Input(no_modifiers_event()),
{
    ProtoEvent::Input(
        Event::Keyboard(
            KeyboardEvent::Modifiers { depressed: 0, latched: 0, locked: 0, group: 0 },
        ),
    )
}

impl CaptureTask {
    /// A task without captures, and the outside work it begins with.
    pub fn new(release_bind: Vec<u32>, hotkey_only: bool) -> (res: (CaptureTask, Action))
        ensures
            res.0@ == initial(release_bind@, hotkey_only),
            res.0@.wf(),
            res.1 == Action::Open,
    {
        (
            CaptureTask {
                hotkey_only,
                serial: 0,
                next_serial: 0,
                started: None,
                buffered: VecDeque::new(),
                active_client: None,
                captures: Vec::new(),
                release_bind,
                state: State::WaitingForAck,
                pressed: Vec::new(),
                step: Step::Opening,
            },
            Action::Open,
        )
    }

    /// The keys that together release the capture.
    pub fn release_bind(&self) -> (res: &Vec<u32>)
        ensures
            res@ == self@.release_bind,
    {
        &self.release_bind
    }

    /// The client that has the input, or is about to get it.
    pub fn active_client(&self) -> (res: Option<CaptureHandle>)
        ensures
            res == self@.active_client,
    {
        self.active_client
    }

    /// When the entry began that awaits its acknowledgement.
    pub fn started(&self) -> (res: Option<u128>)
        ensures
            res == self@.started,
    {
        self.started
    }

    fn is_active(&self, handle: CaptureHandle) -> (res: bool)
        ensures
            res == (self@.active_client == Some(handle)),
    {
        match self.active_client {
            Some(client) => client == handle,
            None => false,
        }
    }

    // ------------------------------------------------------------ captures

    /// Appends a capture to those that the task knows.
    pub fn add_capture(&mut self, handle: CaptureHandle, pos: Position, capture_type: CaptureType)
        ensures
            old(self)@.wf() && old(self)@.captures.len() < usize::MAX ==> final(self)@.wf(),
            final(self)@ == (TaskModel {
                captures: old(self)@.captures.push(CaptureEntry { handle, pos, capture_type }),
                ..old(self)@
            }),
    {
        let entry = CaptureEntry { handle, pos, capture_type };
        self.captures.push(entry);
        proof {
            if old(self)@.wf() && old(self)@.captures.len() < usize::MAX {
                lemma_add_wf(old(self)@, entry);
            }
        }
    }

    /// Forgets every capture of `handle` and keeps the others in their order. The
    /// active client needs its capture: the task stays in order as long as another
    /// one is removed and no capture is being worked on.
    pub fn remove_capture(&mut self, handle: CaptureHandle)
        ensures
            entry_of(old(self)@.captures, handle) is None ==> final(self)@ == old(self)@,
            old(self)@.wf() && old(self)@.active_client != Some(handle) && (old(self)@.step
                == Step::Selecting || old(self)@.step == Step::Parked) ==> final(self)@.wf(),
            final(self)@ == (TaskModel {
                captures: without(old(self)@.captures, handle),
                ..old(self)@
            }),
    {
        let mut kept: Vec<CaptureEntry> = Vec::new();
        let ghost keep = |c: CaptureEntry| c.handle != handle;
        let mut i: usize = 0;
        proof {
            reveal(Seq::filter);
            assert(self.captures@.take(0) =~= Seq::empty());
        }
        while i < self.captures.len()
            invariant
                i <= self.captures.len(),
                *self == *old(self),
                keep == (|c: CaptureEntry| c.handle != handle),
                kept@ == self.captures@.take(i as int).filter(keep),
            decreases self.captures.len() - i,
        {
            let entry: CaptureEntry = self.captures[i];
            proof {
                reveal(Seq::filter);
                assert(self.captures@.take(i + 1).drop_last() =~= self.captures@.take(i as int));
            }
            if entry.handle != handle {
                kept.push(entry);
            }
            i = i + 1;
        }
        proof {
            assert(self.captures@.take(i as int) =~= self.captures@);
        }
        self.captures = kept;
        proof {
            if entry_of(old(self)@.captures, handle) is None {
                lemma_without_unknown(old(self)@.captures, handle);
            }
            if old(self)@.wf() && old(self)@.active_client != Some(handle) && (old(self)@.step
                == Step::Selecting || old(self)@.step == Step::Parked) {
                lemma_remove_wf(old(self)@, handle);
            }
        }
    }

    /// Whether there is a default capture at `pos`.
    pub fn is_default_capture_at(&self, pos: Position) -> (res: bool)
        ensures
            res == default_at(self@.captures, pos),
    {
        let mut i: usize = 0;
        while i < self.captures.len()
            invariant
                i <= self.captures.len(),
                forall|j: int|
                    0 <= j < i ==> !((#[trigger] self@.captures[j]).pos == pos
                        && self@.captures[j].capture_type == CaptureType::Default),
            decreases self.captures.len() - i,
        {
            let entry: CaptureEntry = self.captures[i];
            if entry.pos == pos && entry.capture_type == CaptureType::Default {
                proof {
                    assert(self@.captures[i as int] == entry);
                }
                return true;
            }
            i = i + 1;
        }
        false
    }

    fn has_default_capture(&self, handle: CaptureHandle) -> (res: bool)
        ensures
            res == can_enter(self@.captures, handle),
    {
        let mut i: usize = 0;
        while i < self.captures.len()
            invariant
                i <= self.captures.len(),
                forall|j: int|
                    0 <= j < i ==> !((#[trigger] self@.captures[j]).handle == handle
                        && self@.captures[j].capture_type == CaptureType::Default),
            decreases self.captures.len() - i,
        {
            let entry: CaptureEntry = self.captures[i];
            if entry.handle == handle && entry.capture_type == CaptureType::Default {
                proof {
                    assert(self@.captures[i as int] == entry);
                }
                return true;
            }
            i = i + 1;
        }
        false
    }

    fn find_capture(&self, handle: CaptureHandle) -> (res: Option<CaptureEntry>)
        ensures
            res == entry_of(self@.captures, handle),
    {
        let mut i: usize = 0;
        proof {
            assert(self.captures@.skip(0) =~= self.captures@);
        }
        while i < self.captures.len()
            invariant
                i <= self.captures.len(),
                entry_of(self.captures@, handle) == entry_of(
                    self.captures@.skip(i as int),
                    handle,
                ),
            decreases self.captures.len() - i,
        {
            let entry: CaptureEntry = self.captures[i];
            if entry.handle == handle {
                return Some(entry);
            }
            proof {
                assert(self.captures@.skip(i as int).drop_first() =~= self.captures@.skip(i + 1));
            }
            i = i + 1;
        }
        None
    }

    /// The side of the capture `handle`.
    pub fn get_pos(&self, handle: CaptureHandle) -> (res: Position)
        requires
            entry_of(self@.captures, handle) is Some,
        ensures
            res == entry_of(self@.captures, handle)->0.pos,
    {
        self.find_capture(handle).unwrap().pos
    }

    /// What the capture `handle` is for.
    pub fn get_type(&self, handle: CaptureHandle) -> (res: CaptureType)
        requires
            entry_of(self@.captures, handle) is Some,
        ensures
            res == entry_of(self@.captures, handle)->0.capture_type,
    {
        self.find_capture(handle).unwrap().capture_type
    }

    fn needs_barrier(&self, capture_type: CaptureType) -> (res: bool)
        ensures
            res == has_barrier(self@.hotkey_only, capture_type),
    {
        !self.hotkey_only || capture_type != CaptureType::EnterOnly
    }

    /// The message that enters `handle`.
    fn enter_event(&self, handle: CaptureHandle) -> (res: ProtoEvent)
        requires
            entry_of(self@.captures, handle) is Some,
        ensures
            res == enter_message(self@, handle),
    {
        let pos = to_proto_pos(self.get_pos(handle).opposite());
        if self.serial == 0 {
            ProtoEvent::Enter(pos)
        } else {
            ProtoEvent::HotkeyEnter { pos, serial: self.serial }
        }
    }

    // ------------------------------------------------------------ waiting

    fn select(&mut self) -> (action: Action)
        ensures
            final(self)@ == select(old(self)@).0,
            action == select(old(self)@).1,
    {
        self.step = Step::Selecting;
        let retry = if self.started.is_some() && self.state == State::WaitingForAck {
            Some(RETRY_INTERVAL_NANOS)
        } else {
            None
        };
        Action::Select { retry }
    }

    fn park(&mut self) -> (action: Action)
        ensures
            final(self)@ == park(old(self)@).0,
            action == park(old(self)@).1,
    {
        self.step = Step::Parked;
        Action::Park
    }

    // ------------------------------------------------------------ the backend's life

    /// Creates the barriers of the captures from index `from` on, then waits.
    fn create_captures(&mut self, from: usize) -> (action: Action)
        requires
            from <= old(self)@.captures.len(),
        ensures
            final(self)@ == create_captures(old(self)@, from as int).0,
            action == create_captures(old(self)@, from as int).1,
    {
        let mut i: usize = from;
        while i < self.captures.len()
            invariant
                i <= self.captures.len(),
                *self == *old(self),
                next_barrier(self@.captures, self@.hotkey_only, from as int) == next_barrier(
                    self@.captures,
                    self@.hotkey_only,
                    i as int,
                ),
            decreases self.captures.len() - i,
        {
            let entry: CaptureEntry = self.captures[i];
            if self.needs_barrier(entry.capture_type) {
                self.step = Step::Creating(i);
                return Action::Create {
                    handle: entry.handle,
                    pos: entry.pos,
                    cancellable: true,
                };
            }
            i = i + 1;
        }
        self.select()
    }

    /// Ends the session. The backend is going away: if a client is still active,
    /// the switch must not survive into the next backend.
    fn end_session(&mut self, failed: bool) -> (action: Action)
        ensures
            final(self)@ == end_session(old(self)@, failed).0,
            action == end_session(old(self)@, failed).1,
    {
        match self.active_client {
            Some(client) => {
                self.active_client = None;
                self.state = State::WaitingForAck;
                self.step = Step::EndingLeft { failed };
                Action::Notify(ICaptureEvent::ClientLeft(client))
            },
            None => self.end_hook(failed),
        }
    }

    fn end_hook(&mut self, failed: bool) -> (action: Action)
        ensures
            final(self)@ == end_hook(old(self)@, failed).0,
            action == end_hook(old(self)@, failed).1,
    {
        self.started = None;
        self.buffered.clear();
        self.serial = 0;
        self.step = Step::EndingHook { failed };
        if failed {
            Action::Hook(HookState::Error)
        } else {
            Action::Hook(HookState::Reset)
        }
    }

    // ------------------------------------------------------------ release

    /// Begins to give the input back. The keys that are held are taken first:
    /// their release happens after the input is local again and never reaches
    /// the client, so it has to be let go of them.
    fn release_capture(&mut self, center: bool, after: After) -> (action: Action)
        ensures
            final(self)@ == release_capture(old(self)@, center, after).0,
            action == release_capture(old(self)@, center, after).1,
    {
        self.step = Step::TakingKeys { center, after };
        Action::TakePressedKeys
    }

    fn left_client(&mut self, after: After) -> (action: Action)
        requires
            old(self)@.after_ok(after),
        ensures
            final(self)@ == left_client(old(self)@, after).0,
            action == left_client(old(self)@, after).1,
    {
        self.started = None;
        self.buffered.clear();
        self.state = State::WaitingForAck;
        let serial: u32 = self.serial;
        self.serial = 0;
        match self.active_client {
            Some(client) => {
                self.active_client = None;
                self.step = Step::Leaving { client, serial, after };
                Action::Notify(ICaptureEvent::ClientLeft(client))
            },
            None => self.released(after),
        }
    }

    /// Sends the message of the cleanup that follows on the first `sent` ones.
    fn clean_up(
        &mut self,
        client: CaptureHandle,
        serial: u32,
        sent: usize,
        since: u128,
        after: After,
    ) -> (action: Action)
        requires
            sent <= old(self)@.pressed.len(),
        ensures
            final(self)@ == clean_up(old(self)@, client, serial, sent as int, since, after).0,
            action == clean_up(old(self)@, client, serial, sent as int, since, after).1,
    {
        self.step = Step::CleaningUp { client, serial, sent, since, after };
        let message = if sent < self.pressed.len() {
            key_up_message(self.pressed[sent])
        } else {
            no_modifiers_message()
        };
        Action::Cleanup { client, message, since }
    }

    /// Goes on with the cleanup after the message with number `sent`.
    fn cleaned_up(
        &mut self,
        client: CaptureHandle,
        serial: u32,
        sent: usize,
        since: u128,
        after: After,
    ) -> (action: Action)
        requires
            sent <= old(self)@.pressed.len(),
        ensures
            final(self)@ == clean_up(old(self)@, client, serial, sent + 1, since, after).0,
            action == clean_up(old(self)@, client, serial, sent + 1, since, after).1,
    {
        if sent < self.pressed.len() {
            self.clean_up(client, serial, sent + 1, since, after)
        } else {
            self.step = Step::SayingLeave { after };
            Action::Cleanup { client, message: ProtoEvent::Leave(serial), since }
        }
    }

    fn released(&mut self, after: After) -> (action: Action)
        requires
            old(self)@.after_ok(after),
        ensures
            final(self)@ == released(old(self)@, after).0,
            action == released(old(self)@, after).1,
    {
        self.pressed.clear();
        match after {
            After::Resume => self.select(),
            After::Fail => {
                self.step = Step::Failing;
                Action::Notify(ICaptureEvent::ClientFailed)
            },
            After::FailWithHook => {
                self.step = Step::FailingHook;
                Action::Hook(HookState::Error)
            },
            After::Destroy(handle) => self.destroy_capture(handle),
        }
    }

    fn destroy_capture(&mut self, handle: CaptureHandle) -> (action: Action)
        requires
            old(self)@.after_ok(After::Destroy(handle)),
        ensures
            final(self)@ == destroy_capture(old(self)@, handle).0,
            action == destroy_capture(old(self)@, handle).1,
    {
        let created = !self.hotkey_only || self.get_type(handle) != CaptureType::EnterOnly;
        self.remove_capture(handle);
        if created {
            self.step = Step::BackendBusy;
            Action::Destroy(handle)
        } else {
            self.select()
        }
    }

    // ------------------------------------------------------------ the session

    /// The retry timer fired: enters the client once more, or gives up.
    fn on_tick(&mut self, now: u128) -> (action: Action)
        requires
            old(self)@.core_ok(),
        ensures
            final(self)@ == on_tick(old(self)@, now).0,
            action == on_tick(old(self)@, now).1,
    {
        let timed_out = match self.started {
            Some(started) => now >= started && now - started >= ENTRY_TIMEOUT_NANOS,
            None => false,
        };
        if timed_out {
            self.release_capture(false, After::FailWithHook)
        } else {
            match self.active_client {
                Some(client) => {
                    let message = self.enter_event(client);
                    self.step = Step::Retrying;
                    Action::Send { client, message }
                },
                None => self.select(),
            }
        }
    }

    /// The backend captured an event.
    fn on_captured(
        &mut self,
        handle: CaptureHandle,
        event: CaptureEvent,
        bind_pressed: bool,
        now: u128,
    ) -> (action: Action)
        requires
            bind_pressed || entry_of(old(self)@.captures, handle) is Some,
        ensures
            final(self)@ == on_captured(old(self)@, handle, event, bind_pressed, now).0,
            action == on_captured(old(self)@, handle, event, bind_pressed, now).1,
    {
        if bind_pressed {
            return self.release_capture(true, After::Resume);
        }
        match event {
            CaptureEvent::Begin => {
                self.step = Step::Beginning { client: handle };
                Action::Notify(ICaptureEvent::CaptureBegin(handle))
            },
            CaptureEvent::Input(_) => self.handle_capture_event(handle, event, now),
        }
    }

    /// Reacts to an event of a capture.
    fn handle_capture_event(
        &mut self,
        handle: CaptureHandle,
        event: CaptureEvent,
        now: u128,
    ) -> (action: Action)
        requires
            entry_of(old(self)@.captures, handle) is Some,
        ensures
            final(self)@ == handle_capture_event(old(self)@, handle, event, now).0,
            action == handle_capture_event(old(self)@, handle, event, now).1,
    {
        if self.get_type(handle) == CaptureType::EnterOnly {
            // incoming handles only matter for releasing the capture
            if self.is_default_capture_at(self.get_pos(handle)) {
                return self.select();
            }
            self.step = Step::BackendBusy;
            return Action::Release { center: false };
        }
        let begins = match event {
            CaptureEvent::Begin => true,
            CaptureEvent::Input(_) => false,
        };
        if begins && !self.is_active(handle) {
            self.state = State::WaitingForAck;
            if self.started.is_none() {
                self.started = Some(now);
            }
            self.active_client = Some(handle);
            self.step = Step::Entering { client: handle };
            return Action::Notify(ICaptureEvent::ClientEntered(handle));
        }
        self.forward(handle, event)
    }

    /// Passes an event on to its client. Initial keystrokes are kept for later,
    /// but a failed switch does not pile them up.
    fn forward(&mut self, client: CaptureHandle, event: CaptureEvent) -> (action: Action)
        requires
            entry_of(old(self)@.captures, client) is Some,
        ensures
            final(self)@ == forward(old(self)@, client, event).0,
            action == forward(old(self)@, client, event).1,
    {
        let message = match event {
            CaptureEvent::Begin => self.enter_event(client),
            CaptureEvent::Input(e) => match self.state {
                State::WaitingForAck => {
                    if self.buffered.len() >= MAX_BUFFERED {
                        return self.release_capture(false, After::Fail);
                    }
                    self.buffered.push_back(e);
                    return self.select();
                },
                State::Sending => ProtoEvent::Input(e),
            },
        };
        self.step = Step::Forwarding;
        Action::Send { client, message }
    }

    /// A client sent a message.
    fn on_received(&mut self, handle: CaptureHandle, event: ProtoEvent) -> (action: Action)
        ensures
            final(self)@ == on_received(old(self)@, handle, event).0,
            action == on_received(old(self)@, handle, event).1,
    {
        if self.active_client.is_some() && !self.is_active(handle) {
            // only the client that has the input is listened to
            return self.select();
        }
        match event {
            ProtoEvent::Ack(serial) => {
                if self.is_active(handle) && self.state == State::WaitingForAck && serial
                    == self.serial {
                    self.state = State::Sending;
                    self.started = None;
                    self.step = Step::RemoteHook { client: handle };
                    Action::Hook(HookState::Remote)
                } else {
                    self.select()
                }
            },
            ProtoEvent::Leave(_) => self.release_capture(false, After::Resume),
            _ => self.select(),
        }
    }

    fn flush(&mut self, client: CaptureHandle) -> (action: Action)
        ensures
            final(self)@ == flush(old(self)@, client).0,
            action == flush(old(self)@, client).1,
    {
        match self.buffered.pop_front() {
            Some(event) => {
                self.step = Step::Flushing { client };
                Action::Send { client, message: ProtoEvent::Input(event) }
            },
            None => self.select(),
        }
    }

    /// The owner asks for something while there is a backend.
    fn on_request(&mut self, request: CaptureRequest) -> (action: Action)
        requires
            request matches CaptureRequest::Destroy(handle) ==> old(self)@.after_ok(
                After::Destroy(handle),
            ),
        ensures
            final(self)@ == on_request(old(self)@, request).0,
            action == on_request(old(self)@, request).1,
    {
        match request {
            CaptureRequest::Reenable => self.select(),
            CaptureRequest::Release(center) => self.release_capture(center, After::Resume),
            CaptureRequest::Enter(handle) => {
                if self.active_client.is_some() {
                    self.select()
                } else if self.has_default_capture(handle) {
                    self.step = Step::ConnectingHook { client: handle };
                    Action::Hook(HookState::Connecting)
                } else {
                    self.step = Step::FailingHook;
                    Action::Hook(HookState::Error)
                }
            },
            CaptureRequest::Create(handle, pos, capture_type) => {
                self.add_capture(handle, pos, capture_type);
                if self.needs_barrier(capture_type) {
                    self.step = Step::BackendBusy;
                    Action::Create { handle, pos, cancellable: false }
                } else {
                    self.select()
                }
            },
            CaptureRequest::Destroy(handle) => {
                if self.is_active(handle) {
                    self.release_capture(false, After::Destroy(handle))
                } else {
                    self.destroy_capture(handle)
                }
            },
            CaptureRequest::SetReleaseBind(bind) => {
                self.release_bind = bind;
                self.select()
            },
        }
    }

    /// The hook was told of the requested entry.
    fn on_connecting(&mut self, client: CaptureHandle, ok: bool, now: u128) -> (action: Action)
        ensures
            final(self)@ == on_connecting(old(self)@, client, ok, now).0,
            action == on_connecting(old(self)@, client, ok, now).1,
    {
        if ok {
            self.next_serial = following_serial(self.next_serial);
            self.serial = self.next_serial;
            self.started = Some(now);
            self.step = Step::BackendBusy;
            Action::Enter(client)
        } else {
            self.step = Step::ErrorHook;
            Action::Hook(HookState::Error)
        }
    }

    /// The owner asks for something while there is no backend.
    fn on_parked_request(&mut self, request: CaptureRequest) -> (action: Action)
        ensures
            final(self)@ == on_parked_request(old(self)@, request).0,
            action == on_parked_request(old(self)@, request).1,
    {
        match request {
            CaptureRequest::Reenable => {
                self.step = Step::Opening;
                Action::Open
            },
            CaptureRequest::Create(handle, pos, capture_type) => {
                self.add_capture(handle, pos, capture_type);
                self.park()
            },
            CaptureRequest::Destroy(handle) => {
                self.remove_capture(handle);
                self.park()
            },
            CaptureRequest::Release(_) | CaptureRequest::Enter(_) => {
                self.step = Step::ParkedHook;
                Action::Hook(HookState::Error)
            },
            CaptureRequest::SetReleaseBind(bind) => {
                self.release_bind = bind;
                self.park()
            },
        }
    }

    /// What the session does when an event reaches it.
    fn do_capture_session(&mut self, event: TaskEvent, now: u128) -> (action: Action)
        requires
            old(self)@.wf(),
            old(self)@.step == Step::Selecting,
            accepts(old(self)@, event),
        ensures
            final(self)@ == do_capture_session(old(self)@, event, now).0,
            action == do_capture_session(old(self)@, event, now).1,
    {
        match event {
            TaskEvent::Tick => self.on_tick(now),
            TaskEvent::Captured { handle, event, bind_pressed } => self.on_captured(
                handle,
                event,
                bind_pressed,
                now,
            ),
            TaskEvent::CaptureFailed => self.end_session(true),
            TaskEvent::Received { handle, event } => self.on_received(handle, event),
            TaskEvent::Request(request) => self.on_request(request),
            _ => self.end_session(false),
        }
    }

    /// Whether the task can be told `event` now: whether it is an outcome of the
    /// outside work that the task waits for.
    pub fn accepts(&self, event: &TaskEvent) -> (res: bool)
        ensures
            res == accepts(self@, *event),
    {
        match self.step {
            Step::Opening => matches!(event, TaskEvent::Opened(_) | TaskEvent::Cancelled),
            Step::Creating(_) => matches!(event, TaskEvent::BackendDone(_) | TaskEvent::Cancelled),
            Step::Selecting => match event {
                TaskEvent::Tick => self.started.is_some() && self.state == State::WaitingForAck,
                TaskEvent::Captured { handle, bind_pressed, .. } => *bind_pressed
                    || self.find_capture(*handle).is_some(),
                TaskEvent::Request(CaptureRequest::Destroy(handle)) => !self.hotkey_only
                    || self.find_capture(*handle).is_some(),
                TaskEvent::Request(CaptureRequest::Create(..)) => self.captures.len() < usize::MAX,
                TaskEvent::CaptureFailed
                | TaskEvent::CaptureEnded
                | TaskEvent::Received { .. }
                | TaskEvent::Request(_)
                | TaskEvent::Cancelled => true,
                _ => false,
            },
            Step::TakingKeys { .. } => matches!(event, TaskEvent::Keys(_)),
            Step::Releasing { .. } | Step::BackendBusy | Step::Terminating => matches!(
                event,
                TaskEvent::BackendDone(_)
            ),
            Step::LocalHook { .. }
            | Step::FailingHook
            | Step::RemoteHook { .. }
            | Step::ConnectingHook { .. }
            | Step::ErrorHook
            | Step::EndingHook { .. }
            | Step::ParkedHook => matches!(event, TaskEvent::HookDone(_)),
            Step::CleaningUp { .. } | Step::SayingLeave { .. } => matches!(
                event,
                TaskEvent::Sent(_) | TaskEvent::TimedOut
            ),
            Step::Retrying | Step::Flushing { .. } | Step::Forwarding => matches!(
                event,
                TaskEvent::Sent(_)
            ),
            Step::Parked => match event {
                TaskEvent::Request(CaptureRequest::Create(..)) => self.captures.len() < usize::MAX,
                TaskEvent::Request(_) | TaskEvent::Cancelled => true,
                _ => false,
            },
            Step::Stopped => false,
            Step::Configuring
            | Step::Enabling
            | Step::Leaving { .. }
            | Step::Failing
            | Step::Readying { .. }
            | Step::Beginning { .. }
            | Step::Entering { .. }
            | Step::EndingLeft { .. }
            | Step::Disabling
            | Step::ParkedFailing => matches!(event, TaskEvent::Done),
        }
    }

    /// The events of the backend's life outside of a session: it comes up, is
    /// configured, gets its barriers, and shuts down.
    fn do_capture(&mut self, event: TaskEvent, now: u128) -> (action: Action)
        requires
            old(self)@.wf(),
            accepts(old(self)@, event),
            old(self)@.step.of_backend(),
        ensures
            final(self)@ == next(old(self)@, event, now).0,
            action == next(old(self)@, event, now).1,
    {
        match self.step {
            Step::Opening => match event {
                TaskEvent::Opened(true) => {
                    self.step = Step::Configuring;
                    Action::SetHotkeyOnly(self.hotkey_only)
                },
                _ => self.park(),
            },
            Step::Configuring => {
                self.step = Step::Enabling;
                Action::Notify(ICaptureEvent::CaptureEnabled)
            },
            Step::Enabling => self.create_captures(0),
            Step::Creating(index) => match event {
                TaskEvent::BackendDone(true) => self.create_captures(index + 1),
                TaskEvent::Cancelled => self.select(),
                _ => {
                    self.step = Step::Terminating;
                    Action::Terminate
                },
            },
            Step::EndingLeft { failed } => self.end_hook(failed),
            Step::EndingHook { .. } => {
                self.step = Step::Terminating;
                Action::Terminate
            },
            Step::Terminating => {
                self.step = Step::Disabling;
                Action::Notify(ICaptureEvent::CaptureDisabled)
            },
            _ => self.park(),
        }
    }

    /// The events of a release in progress.
    fn go_on_releasing(&mut self, event: TaskEvent, now: u128) -> (action: Action)
        requires
            old(self)@.wf(),
            accepts(old(self)@, event),
            old(self)@.step.of_release(),
        ensures
            final(self)@ == next(old(self)@, event, now).0,
            action == next(old(self)@, event, now).1,
    {
        match self.step {
            Step::TakingKeys { center, after } => {
                if let TaskEvent::Keys(keys) = event {
                    self.pressed = keys;
                }
                self.step = Step::Releasing { after };
                Action::Release { center }
            },
            Step::Releasing { after } => match event {
                TaskEvent::BackendDone(true) => {
                    self.step = Step::LocalHook { after };
                    Action::Hook(HookState::Local)
                },
                _ => {
                    self.pressed.clear();
                    self.end_session(true)
                },
            },
            Step::LocalHook { after } => self.left_client(after),
            Step::Leaving { client, serial, after } => self.clean_up(
                client,
                serial,
                0,
                now,
                after,
            ),
            Step::CleaningUp { client, serial, sent, since, after } => match event {
                TaskEvent::TimedOut => self.released(after),
                _ => self.cleaned_up(client, serial, sent, since, after),
            },
            Step::SayingLeave { after } => self.released(after),
            Step::FailingHook => {
                self.step = Step::Failing;
                Action::Notify(ICaptureEvent::ClientFailed)
            },
            _ => self.select(),
        }
    }

    /// The events of an entry in progress.
    fn go_on_entering(&mut self, event: TaskEvent, now: u128) -> (action: Action)
        requires
            old(self)@.wf(),
            accepts(old(self)@, event),
            old(self)@.step.of_entry(),
        ensures
            final(self)@ == next(old(self)@, event, now).0,
            action == next(old(self)@, event, now).1,
    {
        match self.step {
            Step::RemoteHook { client } => {
                self.step = Step::Readying { client };
                Action::Notify(ICaptureEvent::ClientReady(client))
            },
            Step::Readying { client } => self.flush(client),
            Step::Flushing { client } => match event {
                TaskEvent::Sent(true) => self.flush(client),
                _ => self.release_capture(false, After::Resume),
            },
            Step::ConnectingHook { client } => self.on_connecting(
                client,
                matches!(event, TaskEvent::HookDone(true)),
                now,
            ),
            Step::BackendBusy => match event {
                TaskEvent::BackendDone(true) => self.select(),
                _ => self.end_session(true),
            },
            Step::Beginning { client } => self.handle_capture_event(
                client,
                CaptureEvent::Begin,
                now,
            ),
            Step::Entering { client } => self.forward(client, CaptureEvent::Begin),
            Step::Forwarding => match event {
                TaskEvent::Sent(false) => {
                    // during an entry the timer retries without any movement
                    if self.state == State::Sending {
                        self.release_capture(false, After::Resume)
                    } else {
                        self.select()
                    }
                },
                _ => self.select(),
            },
            _ => self.select(),
        }
    }

    /// One step of the task: takes the outcome of the outside work that the task
    /// asked for last, at the time `now` of a clock that never runs backwards,
    /// and returns the outside work that it asks for next.
    pub fn step(&mut self, event: TaskEvent, now: u128) -> (action: Action)
        requires
            old(self)@.wf(),
            accepts(old(self)@, event),
        ensures
            final(self)@.wf(),
            final(self)@ == next(old(self)@, event, now).0,
            action == next(old(self)@, event, now).1,
    {
        proof {
            lemma_next_wf(self@, event, now);
        }
        match self.step {
            Step::Opening
            | Step::Configuring
            | Step::Enabling
            | Step::Creating(_)
            | Step::EndingLeft { .. }
            | Step::EndingHook { .. }
            | Step::Terminating
            | Step::Disabling => self.do_capture(event, now),
            Step::Selecting => self.do_capture_session(event, now),
            Step::TakingKeys { .. }
            | Step::Releasing { .. }
            | Step::LocalHook { .. }
            | Step::Leaving { .. }
            | Step::CleaningUp { .. }
            | Step::SayingLeave { .. }
            | Step::FailingHook
            | Step::Failing => self.go_on_releasing(event, now),
            Step::Retrying
            | Step::RemoteHook { .. }
            | Step::Readying { .. }
            | Step::Flushing { .. }
            | Step::ConnectingHook { .. }
            | Step::ErrorHook
            | Step::BackendBusy
            | Step::Beginning { .. }
            | Step::Entering { .. }
            | Step::Forwarding => self.go_on_entering(event, now),
            Step::Parked => match event {
                TaskEvent::Request(request) => self.on_parked_request(request),
                _ => {
                    self.step = Step::Stopped;
                    Action::Stop
                },
            },
            Step::ParkedHook => {
                self.step = Step::ParkedFailing;
                Action::Notify(ICaptureEvent::ClientFailed)
            },
            Step::ParkedFailing => self.park(),
            Step::Stopped => Action::Stop,
        }
    }
}

} // verus!
