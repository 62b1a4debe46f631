//! What holds of every run: laws that relate several functions or several steps.

use crate::event::{CaptureEvent, Event};
use crate::model::{
    accepts, can_enter, cleanup_messages, completes_entry, destroy_capture, end_session,
    enter_message, entry_of, has_barrier, initial, lemma_entry_new, lemma_entry_push,
    lemma_entry_registered, lemma_entry_without, lemma_next_barrier, lemma_next_wf,
    lemma_without_new, lemma_without_unknown, next, next_barrier, on_request, release_capture,
    released, select, without, Action, After, CaptureEntry, CaptureHandle, CaptureRequest,
    CaptureType, ICaptureEvent, State, Step, TaskEvent, TaskModel, ENTRY_TIMEOUT_NANOS,
    MAX_BUFFERED, RETRY_INTERVAL_NANOS,
};
use crate::position::{facing, Position};
use crate::proto::ProtoEvent;
use crate::switching::{
    is_newer, nth_serial, serial_after, serial_distance, HookState, SERIAL_HALF, SERIAL_RANGE,
};
use vstd::prelude::*;

verus! {

// ---------------------------------------------------------------- serials

/// No serial is newer than itself, of two serials at most one is newer, and one
/// of them is, unless they are equal or lie exactly opposite to each other.
pub proof fn law_newer_is_an_order_of_neighbours(a: u32, b: u32)
    ensures
        !is_newer(a, a),
        is_newer(a, b) ==> !is_newer(b, a),
        a != b && serial_distance(a, b) != SERIAL_HALF ==> is_newer(a, b) || is_newer(b, a),
{
}

/// In numbers: the greater of two serials is the newer one, unless they lie more
/// than half of the circle apart; then the smaller one is. Exactly opposite serials
/// are neither.
pub proof fn law_newer_in_numbers(a: u32, b: u32)
    ensures
        is_newer(a, b) <==> (0 < a - b < 0x8000_0000) || (b - a > 0x8000_0000),
{
}

/// The serials of hotkey entries run through the nonzero numbers in a circle.
proof fn lemma_nth_serial(first: u32, count: nat)
    requires
        count >= 1,
    ensures
        nth_serial(first, count) == (first - 1 + count) % (SERIAL_RANGE - 1) + 1,
    decreases count,
{
    reveal_with_fuel(nth_serial, 2);
    if count > 1 {
        lemma_nth_serial(first, (count - 1) as nat);
        assert((first - 1 + count) % 0xffff_ffff == (if (first - 2 + count) % 0xffff_ffff
            == 0xffff_fffe {
            0
        } else {
            (first - 2 + count) % 0xffff_ffff + 1
        }));
    }
}

/// To move a serial on in two goes is to move it on at once.
proof fn lemma_nth_serial_add(first: u32, a: nat, b: nat)
    ensures
        nth_serial(nth_serial(first, a), b) == nth_serial(first, a + b),
    decreases b,
{
    if b > 0 {
        lemma_nth_serial_add(first, a, (b - 1) as nat);
    }
}

/// Every hotkey entry has a nonzero serial.
pub proof fn law_entry_serials_are_nonzero(first: u32, count: nat)
    requires
        count >= 1,
    ensures
        nth_serial(first, count) != 0,
{
    lemma_nth_serial(first, count);
}

/// Entries share a serial only if at least as many entries as there are nonzero
/// serials lie between them: the acknowledgement of an older entry is told apart
/// from that of a newer one.
pub proof fn law_entry_serials_do_not_repeat(first: u32, i: nat, j: nat)
    requires
        1 <= i < j,
        j - i < SERIAL_RANGE - 1,
    ensures
        nth_serial(first, i) != nth_serial(first, j),
{
    lemma_nth_serial(first, i);
    lemma_nth_serial(first, j);
    let x = first - 1 + i;
    let y = first - 1 + j;
    if x % 0xffff_ffff == y % 0xffff_ffff {
        let rounds = y / 0xffff_ffff - x / 0xffff_ffff;
        assert(y - x == 0xffff_ffff * rounds);
        assert(rounds == 0);
    }
}

/// A later entry is newer than an earlier one, however many entries were lost in
/// between, as long as they are fewer than half of the serials; the earlier one
/// is never newer than the later one.
pub proof fn law_later_entries_are_newer(first: u32, i: nat, j: nat)
    requires
        1 <= i < j,
        j - i < SERIAL_HALF - 1,
    ensures
        is_newer(nth_serial(first, j), nth_serial(first, i)),
        !is_newer(nth_serial(first, i), nth_serial(first, j)),
{
    lemma_nth_serial(first, i);
    lemma_nth_serial(first, j);
}

// ---------------------------------------------------------------- single steps

/// An entry is over only by an acknowledgement of the active client with the
/// serial of that entry; on such a one it is over, and the hook hears of it.
pub proof fn law_only_a_matching_ack_completes_an_entry(s: TaskModel, event: TaskEvent, now: u128)
    requires
        s.wf(),
        accepts(s, event),
        s.state == State::WaitingForAck,
    ensures
        next(s, event, now).0.state == State::Sending <==> s.step == Step::Selecting && (event matches
            TaskEvent::Received { handle, event: message } && completes_entry(s, handle, message)),
        next(s, event, now).0.state == State::Sending <==> next(s, event, now).1 == Action::Hook(
            HookState::Remote,
        ),
{
}

/// An acknowledgement with another serial, or of a client that is not the active
/// one, changes nothing.
pub proof fn law_a_stale_ack_changes_nothing(
    s: TaskModel,
    handle: CaptureHandle,
    serial: u32,
    now: u128,
)
    requires
        s.wf(),
        s.step == Step::Selecting,
        serial != s.serial || s.active_client != Some(handle),
    ensures
        next(
            s,
            TaskEvent::Received { handle, event: ProtoEvent::Ack(serial) },
            now,
        ) == select(s),
        select(s).0 == s,
{
}

/// While a client is active no message of another one changes anything.
pub proof fn law_only_the_active_client_is_listened_to(
    s: TaskModel,
    handle: CaptureHandle,
    message: ProtoEvent,
    now: u128,
)
    requires
        s.wf(),
        s.step == Step::Selecting,
        s.active_client is Some,
        s.active_client != Some(handle),
    ensures
        next(s, TaskEvent::Received { handle, event: message }, now) == select(s),
        select(s).0 == s,
{
}

/// Input is sent on only while the active client has acknowledged its entry: none
/// goes out before. What is sent then is either an event that was kept back, and
/// goes to the active client, or one that is captured, and goes to the client that
/// it is captured for. Captured input overtakes none that was kept back.
pub proof fn law_no_input_before_the_ack(s: TaskModel, event: TaskEvent, now: u128)
    requires
        s.wf(),
        accepts(s, event),
    ensures
        next(s, event, now).1 matches Action::Send { message, .. } && message is Input ==> next(
            s,
            event,
            now,
        ).0.state == State::Sending,
        next(s, event, now).1 matches Action::Send { client, message } ==> (message
            matches ProtoEvent::Input(input) ==> {
            ||| s.active_client == Some(client) && s.buffered.len() > 0 && input == s.buffered[0]
            ||| s.step == Step::Selecting && (event matches TaskEvent::Captured {
                handle,
                event: CaptureEvent::Input(captured),
                ..
            } && handle == client && captured == input)
        }),
        s.step == Step::Selecting && s.state == State::Sending ==> s.buffered.len() == 0,
{
}

/// Never are more than [`MAX_BUFFERED`] events kept back. An event is kept back
/// behind all earlier ones; the one that finds no more room ends the switch, the
/// owner hears of the failure, and none is replayed.
pub proof fn law_kept_back_input_is_bounded(
    s: TaskModel,
    handle: CaptureHandle,
    input: Event,
    now: u128,
)
    requires
        s.wf(),
        s.step == Step::Selecting,
        s.state == State::WaitingForAck,
        entry_of(s.captures, handle) is Some,
        entry_of(s.captures, handle)->0.capture_type == CaptureType::Default,
    ensures
        ({
            let t = next(
                s,
                TaskEvent::Captured {
                    handle,
                    event: CaptureEvent::Input(input),
                    bind_pressed: false,
                },
                now,
            );
            &&& t.0.buffered.len() <= MAX_BUFFERED
            &&& s.buffered.len() < MAX_BUFFERED ==> t.0 == (TaskModel {
                buffered: s.buffered.push(input),
                ..s
            })
            &&& s.buffered.len() == MAX_BUFFERED ==> t == release_capture(s, false, After::Fail)
        }),
{
}

/// As long as the active client has not acknowledged its entry, the retry timer
/// runs, however the task came to wait: it fires every [`RETRY_INTERVAL_NANOS`].
pub proof fn law_a_pending_entry_keeps_the_timer_running(
    s: TaskModel,
    event: TaskEvent,
    now: u128,
)
    requires
        s.wf(),
        accepts(s, event),
    ensures
        ({
            let (t, action) = next(s, event, now);
            t.step == Step::Selecting && t.active_client is Some && t.state
                == State::WaitingForAck ==> action == (Action::Select {
                retry: Some(RETRY_INTERVAL_NANOS),
            })
        }),
{
    lemma_next_wf(s, event, now);
}

/// The entry of an active client that has not acknowledged it is sent again
/// whenever the timer fires, without any further input, until it has lasted too
/// long; whether it could be sent does not matter, and the timer keeps running.
pub proof fn law_entry_is_retried(s: TaskModel, client: CaptureHandle, now: u128, sent: bool, then: u128)
    requires
        s.wf(),
        s.step == Step::Selecting,
        s.active_client == Some(client),
        s.state == State::WaitingForAck,
        now - s.started->0 < ENTRY_TIMEOUT_NANOS,
    ensures
        s.started is Some,
        accepts(s, TaskEvent::Tick),
        next(s, TaskEvent::Tick, now).1 == (Action::Send {
            client,
            message: enter_message(s, client),
        }),
        next(next(s, TaskEvent::Tick, now).0, TaskEvent::Sent(sent), then).0 == s,
        next(next(s, TaskEvent::Tick, now).0, TaskEvent::Sent(sent), then).1 == (Action::Select {
            retry: Some(RETRY_INTERVAL_NANOS),
        }),
{
}

/// An entry that has lasted too long is given up when the timer fires, be its
/// client active and yet to acknowledge it, or the entry asked for and the client
/// yet to become active: the input comes back, without centering the pointer, and
/// then the hook and the owner hear of the failure.
pub proof fn law_entry_times_out(s: TaskModel, now: u128)
    requires
        s.wf(),
        s.step == Step::Selecting,
        s.active_client is Some || s.started is Some,
        s.state == State::WaitingForAck,
        now - s.started->0 >= ENTRY_TIMEOUT_NANOS,
    ensures
        s.started is Some,
        accepts(s, TaskEvent::Tick),
        next(s, TaskEvent::Tick, now) == release_capture(s, false, After::FailWithHook),
{
}

/// After a release that a failure made necessary the hook, if it is to be told,
/// and then the owner hear of the failure; afterwards the task waits with no
/// switch going on.
pub proof fn law_failure_is_reported(s: TaskModel, hook: TaskEvent, times: Seq<u128>)
    requires
        s.core_ok(),
        s.resting(),
        hook is HookDone,
    ensures
        ({
            let told = released(s, After::FailWithHook);
            let failing = next(told.0, hook, times[0]);
            let waiting = next(failing.0, TaskEvent::Done, times[1]);
            &&& told.1 == Action::Hook(HookState::Error)
            &&& failing == released(s, After::Fail)
            &&& failing.1 == Action::Notify(ICaptureEvent::ClientFailed)
            &&& waiting.1 == (Action::Select { retry: None })
            &&& waiting.0.resting()
        }),
{
}

/// The owner hears that a client was entered exactly when it becomes the active
/// one, and that it was left exactly when there is no active one any more.
pub proof fn law_owner_knows_the_active_client(
    s: TaskModel,
    event: TaskEvent,
    now: u128,
    client: CaptureHandle,
)
    requires
        s.wf(),
        accepts(s, event),
    ensures
        next(s, event, now).1 == Action::Notify(ICaptureEvent::ClientEntered(client)) <==> next(
            s,
            event,
            now,
        ).0.active_client == Some(client) && s.active_client != Some(client),
        next(s, event, now).1 == Action::Notify(ICaptureEvent::ClientLeft(client))
            <==> s.active_client == Some(client) && next(s, event, now).0.active_client is None,
{
}

impl Step {
    /// The owner was told that capturing is enabled, and not yet that it is disabled.
    pub open spec fn announced(self) -> bool {
        match self {
            Step::Opening
            | Step::Configuring
            | Step::Disabling
            | Step::Parked
            | Step::ParkedHook
            | Step::ParkedFailing
            | Step::Stopped => false,
            _ => true,
        }
    }
}

/// The owner hears in turn that capturing is enabled and that it is disabled.
pub proof fn law_enabled_and_disabled_alternate(s: TaskModel, event: TaskEvent, now: u128)
    requires
        s.wf(),
        accepts(s, event),
    ensures
        next(s, event, now).1 == Action::Notify(ICaptureEvent::CaptureEnabled)
            <==> !s.step.announced() && next(s, event, now).0.step.announced(),
        next(s, event, now).1 == Action::Notify(ICaptureEvent::CaptureDisabled)
            <==> s.step.announced() && !next(s, event, now).0.step.announced(),
{
    // by cases
    match s.step {
        Step::Selecting => {},
        Step::Parked => {},
        _ => {},
    }
}

/// The pointer is centered only when the owner asks for that, as it does for the
/// hotkey, or when the release bind is pressed: no other release centers it.
pub proof fn law_only_hotkey_and_release_bind_center(s: TaskModel, event: TaskEvent, now: u128)
    requires
        s.wf(),
        accepts(s, event),
    ensures
        next(s, event, now).0.step matches Step::TakingKeys { center, .. } && center
            ==> s.step == Step::Selecting && (event == TaskEvent::Request(
            CaptureRequest::Release(true),
        ) || (event matches TaskEvent::Captured { bind_pressed, .. } && bind_pressed)),
        next(s, event, now).1 == (Action::Release { center: true }) ==> (s.step matches
            Step::TakingKeys { center, .. } && center),
        s.step matches Step::TakingKeys { center, .. } ==> next(s, event, now).1 == (
        Action::Release { center }),
{
}

/// In hotkey-only mode no barrier is ever created for a capture that only waits
/// for the pointer, and the mode never changes.
pub proof fn law_hotkey_only_has_no_return_barriers(s: TaskModel, event: TaskEvent, now: u128)
    requires
        s.wf(),
        accepts(s, event),
    ensures
        next(s, event, now).0.hotkey_only == s.hotkey_only,
        s.hotkey_only ==> (next(s, event, now).1 matches Action::Create { handle, pos, .. } ==> next(
            s,
            event,
            now,
        ).0.captures.contains(
            CaptureEntry { handle, pos, capture_type: CaptureType::Default },
        )),
{
    lemma_next_barrier(s.captures, s.hotkey_only, 0);
    if let Step::Creating(index) = s.step {
        lemma_next_barrier(s.captures, s.hotkey_only, index + 1);
    }
    if let TaskEvent::Request(CaptureRequest::Create(handle, pos, capture_type)) = event {
        let entry = CaptureEntry { handle, pos, capture_type };
        assert(s.captures.push(entry)[s.captures.len() as int] == entry);
    }
}

/// A hotkey entry begins only for a request, after the hook agreed to it; it
/// takes the next serial, which is not zero, and its message carries that serial.
/// Between entries the serial stays or becomes zero.
pub proof fn law_a_hotkey_entry_takes_a_fresh_serial(s: TaskModel, event: TaskEvent, now: u128)
    requires
        s.wf(),
        accepts(s, event),
    ensures
        ({
            let t = next(s, event, now);
            &&& t.1 matches Action::Enter(client) ==> {
                &&& s.step == (Step::ConnectingHook { client })
                &&& event == TaskEvent::HookDone(true)
                &&& t.0.serial == serial_after(s.next_serial)
                &&& t.0.next_serial == t.0.serial
                &&& t.0.serial != 0
                &&& t.0.started == Some(now)
                &&& enter_message(t.0, client) == (ProtoEvent::HotkeyEnter {
                    pos: facing(entry_of(t.0.captures, client)->0.pos),
                    serial: serial_after(s.next_serial),
                })
            }
            &&& !(t.1 is Enter) ==> t.0.next_serial == s.next_serial && (t.0.serial == s.serial
                || t.0.serial == 0)
        }),
{
}

/// An entry that no hotkey began keeps the message that has no serial.
pub proof fn law_an_edge_entry_has_no_serial(s: TaskModel, client: CaptureHandle)
    ensures
        enter_message(s, client) is Enter <==> s.serial == 0,
        enter_message(s, client) is HotkeyEnter <==> s.serial != 0,
{
}

/// A release that a failed entry made necessary is complete with this outcome.
pub open spec fn completes_failed_release(s: TaskModel, event: TaskEvent) -> bool {
    match s.step {
        Step::LocalHook { after } => after == After::FailWithHook && s.active_client is None,
        Step::CleaningUp { after, .. } => after == After::FailWithHook && event is TimedOut,
        Step::SayingLeave { after } => after == After::FailWithHook,
        _ => false,
    }
}

/// The backend fails with this outcome, and no client is active.
pub open spec fn fails_without_a_client(s: TaskModel, event: TaskEvent) -> bool {
    &&& s.active_client is None
    &&& match s.step {
        Step::Selecting => event is CaptureFailed,
        Step::BackendBusy | Step::Releasing { .. } => event == TaskEvent::BackendDone(false),
        _ => false,
    }
}

/// This outcome is a request that cannot be met: to enter a client that cannot be
/// entered, or, without a backend, to enter any client or to release the capture.
pub open spec fn asks_in_vain(s: TaskModel, event: TaskEvent) -> bool {
    event matches TaskEvent::Request(request) && match s.step {
        Step::Selecting => s.active_client is None && (request matches CaptureRequest::Enter(handle)
            && !can_enter(s.captures, handle)),
        Step::Parked => request is Enter || request is Release,
        _ => false,
    }
}

/// The hook hears of each transition exactly when it happens: of an entry when it
/// is requested of a client that can be entered while none is active, of a remote
/// client when that has acknowledged its entry, of local input when the backend has
/// given it back, and silently of the end of a session that did not fail. It hears
/// of an error when a session has failed and the owner knows that no client is
/// active, when it refused an entry itself, when a request cannot be met, and when
/// the input is back after an entry that took too long.
pub proof fn law_hooks_follow_the_transitions(s: TaskModel, event: TaskEvent, now: u128)
    requires
        s.wf(),
        accepts(s, event),
    ensures
        next(s, event, now).1 == Action::Hook(HookState::Connecting) <==> s.step == Step::Selecting
            && s.active_client is None && (event matches TaskEvent::Request(
            CaptureRequest::Enter(handle),
        ) && can_enter(s.captures, handle)),
        next(s, event, now).1 == Action::Hook(HookState::Remote) <==> s.step == Step::Selecting && (
        event matches TaskEvent::Received { handle, event: message } && completes_entry(
            s,
            handle,
            message,
        )),
        next(s, event, now).1 == Action::Hook(HookState::Local) <==> s.step is Releasing && event
            == TaskEvent::BackendDone(true),
        next(s, event, now).1 == Action::Hook(HookState::Reset) <==> s.step == (Step::EndingLeft {
            failed: false,
        }) || (s.step == Step::Selecting && s.active_client is None && (event is CaptureEnded
            || event is Cancelled)),
        next(s, event, now).1 == Action::Hook(HookState::Error) <==> {
            ||| s.step == (Step::EndingLeft { failed: true })
            ||| fails_without_a_client(s, event)
            ||| s.step is ConnectingHook && event == TaskEvent::HookDone(false)
            ||| asks_in_vain(s, event)
            ||| completes_failed_release(s, event)
        },
{
    // by cases
    match s.step {
        Step::Selecting => match event {
            TaskEvent::Tick => {},
            TaskEvent::Captured { .. } => {},
            TaskEvent::Received { .. } => {},
            TaskEvent::Request(_) => {},
            _ => {},
        },
        Step::Parked => {},
        Step::CleaningUp { .. } => {},
        _ => {},
    }
}

/// A capture that was destroyed is no longer known, and every other one is
/// known as before; a new one does not take the place of one that is known.
pub proof fn law_captures_are_independent(
    captures: Seq<CaptureEntry>,
    entry: CaptureEntry,
    removed: CaptureHandle,
    handle: CaptureHandle,
)
    ensures
        entry_of(without(captures, removed), removed) is None,
        handle != removed ==> entry_of(without(captures, removed), handle) == entry_of(
            captures,
            handle,
        ),
        entry_of(captures, handle) is Some ==> entry_of(captures.push(entry), handle) == entry_of(
            captures,
            handle,
        ),
        entry_of(captures, entry.handle) is None ==> entry_of(captures.push(entry), entry.handle)
            == Some(entry),
{
    lemma_entry_without(captures, removed, removed);
    lemma_entry_without(captures, removed, handle);
    lemma_entry_push(captures, entry, handle);
    if entry_of(captures, entry.handle) is None {
        lemma_entry_new(captures, entry);
    }
}

/// To destroy an unknown capture changes nothing, and to destroy a new one undoes
/// its creation.
pub proof fn law_destroying_a_new_capture_undoes_its_creation(
    captures: Seq<CaptureEntry>,
    entry: CaptureEntry,
)
    requires
        entry_of(captures, entry.handle) is None,
    ensures
        without(captures, entry.handle) == captures,
        without(captures.push(entry), entry.handle) == captures,
{
    lemma_without_unknown(captures, entry.handle);
    lemma_without_new(captures, entry);
}

/// In a session: a capture under a handle that is new can be created and
/// destroyed again, with its barrier if it has one, and leaves no trace.
pub proof fn law_create_then_destroy_leaves_no_trace(
    s: TaskModel,
    entry: CaptureEntry,
    times: Seq<u128>,
)
    requires
        s.wf(),
        s.step == Step::Selecting,
        entry_of(s.captures, entry.handle) is None,
    ensures
        ({
            let create = TaskEvent::Request(
                CaptureRequest::Create(entry.handle, entry.pos, entry.capture_type),
            );
            let destroy = TaskEvent::Request(CaptureRequest::Destroy(entry.handle));
            let there = TaskModel { captures: s.captures.push(entry), ..s };
            let created = next(s, create, times[0]);
            let destroyed = next(there, destroy, times[2]);
            if has_barrier(s.hotkey_only, entry.capture_type) {
                &&& created.1 == (Action::Create {
                    handle: entry.handle,
                    pos: entry.pos,
                    cancellable: false,
                })
                &&& next(created.0, TaskEvent::BackendDone(true), times[1]).0 == there
                &&& destroyed.1 == Action::Destroy(entry.handle)
                &&& next(destroyed.0, TaskEvent::BackendDone(true), times[3]).0 == s
            } else {
                &&& created == select(there)
                &&& created.0 == there
                &&& destroyed == select(s)
                &&& destroyed.0 == s
            }
        }),
{
    lemma_without_new(s.captures, entry);
    lemma_entry_new(s.captures, entry);
    let there = TaskModel { captures: s.captures.push(entry), ..s };
    let destroy = CaptureRequest::Destroy(entry.handle);
    assert(s.active_client != Some(entry.handle));
    assert(on_request(there, destroy) == destroy_capture(there, entry.handle));
    assert(TaskModel { captures: without(there.captures, entry.handle), ..there } =~= s);
}

/// The side across the screen of the side across the screen is the side itself,
/// and a message names the side that lies across.
pub proof fn law_sides_face_each_other(p: Position, q: Position)
    ensures
        facing(p).direction() == p.direction().reversed(),
        p.direction().reversed().reversed() == p.direction(),
        p.direction() == q.direction() ==> p == q,
{
}

// ---------------------------------------------------------------- runs

/// The outcomes of outside work that a run consists of, each with its time.
pub type Outcomes = Seq<(TaskEvent, u128)>;

/// The state after the first `n` outcomes.
pub open spec fn state_at(s: TaskModel, outcomes: Outcomes, n: int) -> TaskModel
    decreases n,
{
    if n <= 0 {
        s
    } else {
        next(state_at(s, outcomes, n - 1), outcomes[n - 1].0, outcomes[n - 1].1).0
    }
}

/// The outside work that is asked for on the outcome with index `n`.
pub open spec fn action_at(s: TaskModel, outcomes: Outcomes, n: int) -> Action {
    next(state_at(s, outcomes, n), outcomes[n].0, outcomes[n].1).1
}

/// Each outcome is one of the outside work that was asked for.
pub open spec fn possible(s: TaskModel, outcomes: Outcomes) -> bool {
    forall|n: int|
        0 <= n < outcomes.len() ==> accepts(#[trigger] state_at(s, outcomes, n), outcomes[n].0)
}

/// The invariant holds after every step of every run.
pub proof fn law_every_run_keeps_the_invariant(s: TaskModel, outcomes: Outcomes, n: int)
    requires
        s.wf(),
        possible(s, outcomes),
        0 <= n <= outcomes.len(),
    ensures
        state_at(s, outcomes, n).wf(),
    decreases n,
{
    if n > 0 {
        law_every_run_keeps_the_invariant(s, outcomes, n - 1);
        lemma_next_wf(state_at(s, outcomes, n - 1), outcomes[n - 1].0, outcomes[n - 1].1);
    }
}

/// How many hotkey entries begin on the outcomes with an index from `i` up to `j`.
pub open spec fn entries_between(s: TaskModel, outcomes: Outcomes, i: int, j: int) -> nat
    decreases j - i,
{
    if j <= i {
        0
    } else {
        entries_between(s, outcomes, i, j - 1) + if action_at(s, outcomes, j - 1) is Enter {
            1nat
        } else {
            0nat
        }
    }
}

/// The entries of a stretch are those of its two parts.
proof fn lemma_entries_split(s: TaskModel, outcomes: Outcomes, i: int, k: int, j: int)
    requires
        i <= k <= j,
    ensures
        entries_between(s, outcomes, i, j) == entries_between(s, outcomes, i, k)
            + entries_between(s, outcomes, k, j),
    decreases j - k,
{
    if k < j {
        lemma_entries_split(s, outcomes, i, k, j - 1);
    }
}

/// The serial of the latest entry counts the entries.
proof fn lemma_run_serials(s: TaskModel, outcomes: Outcomes, n: int)
    requires
        s.wf(),
        possible(s, outcomes),
        0 <= n <= outcomes.len(),
    ensures
        state_at(s, outcomes, n).next_serial == nth_serial(
            s.next_serial,
            entries_between(s, outcomes, 0, n),
        ),
        n > 0 && action_at(s, outcomes, n - 1) is Enter ==> state_at(s, outcomes, n).serial
            == state_at(s, outcomes, n).next_serial,
    decreases n,
{
    if n > 0 {
        lemma_run_serials(s, outcomes, n - 1);
        law_every_run_keeps_the_invariant(s, outcomes, n - 1);
        let t = state_at(s, outcomes, n - 1);
        assert(accepts(t, outcomes[n - 1].0));
        law_a_hotkey_entry_takes_a_fresh_serial(t, outcomes[n - 1].0, outcomes[n - 1].1);
    }
}

/// In every run the hotkey entries take the serials of [`nth_serial`]: the
/// serial of an entry is that of an earlier one, moved on once for each entry that
/// began since. An entry thus takes the serial after that of the one before it.
pub proof fn law_entries_of_a_run_count_on(s: TaskModel, outcomes: Outcomes, i: int, j: int)
    requires
        s.wf(),
        possible(s, outcomes),
        0 <= i < j < outcomes.len(),
        action_at(s, outcomes, i) is Enter,
        action_at(s, outcomes, j) is Enter,
    ensures
        state_at(s, outcomes, j + 1).serial == nth_serial(
            state_at(s, outcomes, i + 1).serial,
            entries_between(s, outcomes, i + 1, j + 1),
        ),
        entries_between(s, outcomes, i + 1, j + 1) == 1 + entries_between(s, outcomes, i + 1, j),
        (forall|k: int| i < k < j ==> !(#[trigger] action_at(s, outcomes, k) is Enter)) ==> state_at(
            s,
            outcomes,
            j + 1,
        ).serial == serial_after(state_at(s, outcomes, i + 1).serial),
{
    lemma_run_serials(s, outcomes, i + 1);
    lemma_run_serials(s, outcomes, j + 1);
    lemma_entries_split(s, outcomes, 0, i + 1, j + 1);
    lemma_nth_serial_add(
        s.next_serial,
        entries_between(s, outcomes, 0, i + 1),
        entries_between(s, outcomes, i + 1, j + 1),
    );
    if forall|k: int| i < k < j ==> !(#[trigger] action_at(s, outcomes, k) is Enter) {
        lemma_no_entries(s, outcomes, i + 1, j);
        reveal_with_fuel(nth_serial, 2);
    }
}

proof fn lemma_no_entries(s: TaskModel, outcomes: Outcomes, i: int, j: int)
    requires
        forall|k: int| i <= k < j ==> !(#[trigger] action_at(s, outcomes, k) is Enter),
    ensures
        entries_between(s, outcomes, i, j) == 0,
    decreases j - i,
{
    if i < j {
        lemma_no_entries(s, outcomes, i, j - 1);
    }
}

/// In every run, two hotkey entries with fewer entries between them than there are
/// nonzero serials have different serials, neither of them zero: no acknowledgement
/// of the one completes the other. As long as fewer than half of the serials lie
/// between them, the later one is newer, and the earlier one is not.
pub proof fn law_entries_of_a_run_are_told_apart(
    s: TaskModel,
    outcomes: Outcomes,
    i: int,
    j: int,
)
    requires
        s.wf(),
        possible(s, outcomes),
        0 <= i < j < outcomes.len(),
        action_at(s, outcomes, i) is Enter,
        action_at(s, outcomes, j) is Enter,
    ensures
        ({
            let earlier = state_at(s, outcomes, i + 1).serial;
            let later = state_at(s, outcomes, j + 1).serial;
            let count = entries_between(s, outcomes, i + 1, j + 1);
            &&& earlier != 0
            &&& later != 0
            &&& count < SERIAL_RANGE - 1 ==> earlier != later
            &&& count < SERIAL_HALF - 1 ==> is_newer(later, earlier) && !is_newer(earlier, later)
        }),
{
    let to_i = entries_between(s, outcomes, 0, i + 1);
    let to_j = entries_between(s, outcomes, 0, j + 1);
    lemma_run_serials(s, outcomes, i + 1);
    lemma_run_serials(s, outcomes, j + 1);
    lemma_entries_split(s, outcomes, 0, i + 1, j + 1);
    assert(entries_between(s, outcomes, i + 1, j + 1) >= 1);
    law_entry_serials_are_nonzero(s.next_serial, to_i);
    law_entry_serials_are_nonzero(s.next_serial, to_j);
    if to_j - to_i < SERIAL_RANGE - 1 {
        law_entry_serials_do_not_repeat(s.next_serial, to_i, to_j);
    }
    if to_j - to_i < SERIAL_HALF - 1 {
        law_later_entries_are_newer(s.next_serial, to_i, to_j);
    }
}

/// A new task meets the invariant.
pub proof fn law_a_new_task_meets_the_invariant(release_bind: Seq<u32>, hotkey_only: bool)
    ensures
        initial(release_bind, hotkey_only).wf(),
{
}

/// What happens between the return of local input and the end of a cleanup.
pub open spec fn after_local_release(action: Action) -> bool {
    ||| action == Action::Hook(HookState::Local)
    ||| action matches Action::Notify(event) && event is ClientLeft
    ||| action is Cleanup
}

/// The backend gave the input back on the outcome after the one with index `j`,
/// and up to index `n` only what follows on that was asked for.
pub open spec fn released_at(s: TaskModel, outcomes: Outcomes, j: int, n: int) -> bool {
    &&& 0 <= j
    &&& j + 1 < n
    &&& action_at(s, outcomes, j) is Release
    &&& outcomes[j + 1].0 == TaskEvent::BackendDone(true)
    &&& forall|k: int| j < k < n ==> after_local_release(#[trigger] action_at(s, outcomes, k))
}

impl Step {
    /// The backend has given the input back, and the release goes on.
    pub open spec fn past_release(self) -> bool {
        match self {
            Step::LocalHook { .. }
            | Step::Leaving { .. }
            | Step::CleaningUp { .. }
            | Step::SayingLeave { .. } => true,
            _ => false,
        }
    }
}

/// The way through a release.
proof fn lemma_way_through_release(s: TaskModel, event: TaskEvent, now: u128)
    requires
        accepts(s, event),
    ensures
        next(s, event, now).0.step is Releasing ==> next(s, event, now).1 is Release,
        next(s, event, now).1 is Cleanup ==> s.step.past_release(),
        next(s, event, now).0.step.past_release() ==> {
            &&& after_local_release(next(s, event, now).1)
            &&& s.step.past_release() || (s.step is Releasing && event == TaskEvent::BackendDone(
                true,
            ))
        },
{
    // by cases
    match s.step {
        Step::Selecting => match event {
            TaskEvent::Tick => {},
            TaskEvent::Captured { .. } => {},
            TaskEvent::Received { .. } => {},
            TaskEvent::Request(_) => {},
            _ => {},
        },
        Step::Enabling => {},
        Step::Creating(_) => {},
        Step::Beginning { .. } => {},
        Step::Entering { .. } => {},
        _ => {},
    }
}

/// After `n` outcomes: where the latest release succeeded, if it is not over.
proof fn lemma_released_at(s: TaskModel, outcomes: Outcomes, n: int) -> (j: int)
    requires
        s.step == Step::Opening,
        possible(s, outcomes),
        0 <= n <= outcomes.len(),
    ensures
        state_at(s, outcomes, n).step is Releasing ==> n >= 1 && action_at(s, outcomes, n - 1) is
            Release,
        state_at(s, outcomes, n).step.past_release() ==> released_at(s, outcomes, j, n),
    decreases n,
{
    if n == 0 {
        0
    } else {
        let before = lemma_released_at(s, outcomes, n - 1);
        let t = state_at(s, outcomes, n - 1);
        assert(accepts(t, outcomes[n - 1].0));
        lemma_way_through_release(t, outcomes[n - 1].0, outcomes[n - 1].1);
        if t.step is Releasing {
            n - 2
        } else {
            before
        }
    }
}

/// In every run of a task, when anything is cleaned up on a client the local
/// input has been given back before, and since then the task has done nothing but
/// announce that and clean up.
pub proof fn law_local_input_returns_before_the_cleanup(
    s: TaskModel,
    outcomes: Outcomes,
    n: int,
)
    requires
        s.step == Step::Opening,
        possible(s, outcomes),
        0 <= n < outcomes.len(),
        action_at(s, outcomes, n) is Cleanup,
    ensures
        exists|j: int| released_at(s, outcomes, j, n),
{
    let j = lemma_released_at(s, outcomes, n);
    assert(accepts(state_at(s, outcomes, n), outcomes[n].0));
    lemma_way_through_release(state_at(s, outcomes, n), outcomes[n].0, outcomes[n].1);
    assert(released_at(s, outcomes, j, n));
}

/// The state after `n` outcomes of a release from `s` that goes well.
spec fn release_state(s: TaskModel, after: After, keys: Seq<u32>, since: u128, n: int) -> TaskModel {
    let client = s.active_client->0;
    let held = TaskModel { pressed: keys, ..s };
    if n == 1 {
        held.at(Step::Releasing { after })
    } else if n == 2 {
        held.at(Step::LocalHook { after })
    } else if n == 3 {
        held.at_rest().at(Step::Leaving { client, serial: s.serial, after })
    } else if n - 4 <= keys.len() {
        held.at_rest().at(
            Step::CleaningUp { client, serial: s.serial, sent: (n - 4) as usize, since, after },
        )
    } else {
        held.at_rest().at(Step::SayingLeave { after })
    }
}

/// No outcome is a failure of the backend or the end of the time for the cleanup.
pub open spec fn goes_well(outcomes: Outcomes) -> bool {
    forall|n: int|
        0 <= n < outcomes.len() ==> (#[trigger] outcomes[n]).0 != TaskEvent::BackendDone(false)
            && !(outcomes[n].0 is TimedOut)
}

proof fn lemma_release_state(
    s: TaskModel,
    center: bool,
    after: After,
    outcomes: Outcomes,
    n: int,
)
    requires
        s.wf(),
        s.step == (Step::TakingKeys { center, after }),
        s.active_client is Some,
        possible(s, outcomes),
        goes_well(outcomes),
        1 <= n <= outcomes.len(),
        n <= outcomes[0].0->Keys_0@.len() + 5,
    ensures
        state_at(s, outcomes, n) == release_state(
            s,
            after,
            outcomes[0].0->Keys_0@,
            outcomes[3].1,
            n,
        ),
    decreases n,
{
    let keys = outcomes[0].0->Keys_0;
    assert(accepts(state_at(s, outcomes, 0), outcomes[0].0));
    assert(keys@.len() == keys.len());
    assert(outcomes[n - 1].0 != TaskEvent::BackendDone(false));
    if n > 1 {
        lemma_release_state(s, center, after, outcomes, n - 1);
        assert(accepts(state_at(s, outcomes, n - 1), outcomes[n - 1].0));
    }
}

/// A release from an active client: the backend gives the input back, the hook
/// hears that it is local, the owner that the client was left; then every key
/// that was held is let go on the client, its modifiers are cleared, and last it
/// is told that the input leaves, with the serial of its entry. All of these
/// messages share the time that the cleanup may take. Whether a message could be
/// sent does not matter. Afterwards no switch is going on.
#[verifier::rlimit(60)]
pub proof fn law_a_release_cleans_up(
    s: TaskModel,
    center: bool,
    after: After,
    client: CaptureHandle,
    outcomes: Outcomes,
)
    requires
        s.wf(),
        s.step == (Step::TakingKeys { center, after }),
        s.active_client == Some(client),
        possible(s, outcomes),
        goes_well(outcomes),
        outcomes.len() == outcomes[0].0->Keys_0@.len() + 6,
    ensures
        ({
            let messages = cleanup_messages(outcomes[0].0->Keys_0@, s.serial);
            let last = messages.len() as int + 3;
            &&& action_at(s, outcomes, 0) == (Action::Release { center })
            &&& action_at(s, outcomes, 1) == Action::Hook(HookState::Local)
            &&& action_at(s, outcomes, 2) == Action::Notify(ICaptureEvent::ClientLeft(client))
            &&& forall|i: int|
                0 <= i < messages.len() ==> #[trigger] action_at(s, outcomes, 3 + i) == (
                Action::Cleanup { client, message: messages[i], since: outcomes[3].1 })
            &&& action_at(s, outcomes, last) == released(s.at_rest(), after).1
            &&& state_at(s, outcomes, last + 1) == released(s.at_rest(), after).0
            &&& state_at(s, outcomes, last + 1).resting()
        }),
{
    let keys = outcomes[0].0->Keys_0@;
    let messages = cleanup_messages(keys, s.serial);
    let last = messages.len() as int + 3;
    assert(accepts(state_at(s, outcomes, 0), outcomes[0].0));
    lemma_release_state(s, center, after, outcomes, 1);
    lemma_release_state(s, center, after, outcomes, 2);
    assert(accepts(state_at(s, outcomes, 1), outcomes[1].0));
    assert(outcomes[1].0 != TaskEvent::BackendDone(false));
    assert forall|i: int| 0 <= i < messages.len() implies #[trigger] action_at(s, outcomes, 3 + i)
        == (Action::Cleanup { client, message: messages[i], since: outcomes[3].1 }) by {
        assert(keys.len() == outcomes[0].0->Keys_0.len());
        lemma_release_state(s, center, after, outcomes, 3 + i);
        assert(accepts(state_at(s, outcomes, 3 + i), outcomes[3 + i].0));
        assert(!(outcomes[3 + i].0 is TimedOut));
    }
    lemma_release_state(s, center, after, outcomes, last);
    let before = release_state(s, after, keys, outcomes[3].1, last);
    assert(TaskModel { pressed: Seq::empty(), ..before.at(s.step) } =~= TaskModel {
        pressed: Seq::empty(),
        ..s.at_rest()
    });
    assert(next(before, outcomes[last].0, outcomes[last].1) == released(before, after));
}

/// A release while no client is active only gives the input back and tells the hook.
pub proof fn law_a_release_without_a_client(
    s: TaskModel,
    center: bool,
    after: After,
    outcomes: Outcomes,
)
    requires
        s.wf(),
        s.step == (Step::TakingKeys { center, after }),
        s.active_client is None,
        possible(s, outcomes),
        goes_well(outcomes),
        outcomes.len() == 3,
    ensures
        action_at(s, outcomes, 0) == (Action::Release { center }),
        action_at(s, outcomes, 1) == Action::Hook(HookState::Local),
        action_at(s, outcomes, 2) == released(s.at_rest(), after).1,
        state_at(s, outcomes, 3) == released(s.at_rest(), after).0,
        state_at(s, outcomes, 3).resting(),
{
    reveal_with_fuel(state_at, 4);
    assert(accepts(state_at(s, outcomes, 0), outcomes[0].0));
    assert(accepts(state_at(s, outcomes, 1), outcomes[1].0));
    assert(accepts(state_at(s, outcomes, 2), outcomes[2].0));
    assert(outcomes[1].0 != TaskEvent::BackendDone(false));
}

/// A cleanup that takes too long is broken off at once; nothing is left of the
/// switch, and what was to follow on the release follows.
pub proof fn law_the_cleanup_is_bounded(s: TaskModel, now: u128)
    requires
        s.wf(),
        s.step is CleaningUp || s.step is SayingLeave,
    ensures
        accepts(s, TaskEvent::TimedOut),
        s.resting(),
        s.step matches Step::CleaningUp { after, .. } ==> next(s, TaskEvent::TimedOut, now)
            == released(s, after),
        s.step matches Step::SayingLeave { after } ==> next(s, TaskEvent::TimedOut, now)
            == released(s, after),
{
}

proof fn lemma_flush_state(s: TaskModel, client: CaptureHandle, outcomes: Outcomes, n: int)
    requires
        s.step == (Step::Readying { client }),
        outcomes.len() == s.buffered.len() + 1,
        forall|i: int| 1 <= i < outcomes.len() ==> (#[trigger] outcomes[i]).0 == TaskEvent::Sent(true),
        1 <= n <= s.buffered.len(),
    ensures
        state_at(s, outcomes, n) == (TaskModel {
            buffered: s.buffered.skip(n),
            step: Step::Flushing { client },
            ..s
        }),
        action_at(s, outcomes, n - 1) == (Action::Send {
            client,
            message: ProtoEvent::Input(s.buffered[n - 1]),
        }),
    decreases n,
{
    if n > 1 {
        lemma_flush_state(s, client, outcomes, n - 1);
        assert(outcomes[n - 1].0 == TaskEvent::Sent(true));
        assert(s.buffered.skip(n - 1).drop_first() =~= s.buffered.skip(n));
    } else {
        assert(s.buffered.drop_first() =~= s.buffered.skip(1));
    }
}

/// Once the owner knows that the client is ready, the input that was kept back is
/// sent to it, each event once and in the order in which it was captured; then
/// the task waits, and input goes on directly.
pub proof fn law_kept_back_input_arrives_in_order(
    s: TaskModel,
    client: CaptureHandle,
    outcomes: Outcomes,
)
    requires
        s.wf(),
        s.step == (Step::Readying { client }),
        outcomes.len() == s.buffered.len() + 1,
        outcomes[0].0 == TaskEvent::Done,
        forall|i: int| 1 <= i < outcomes.len() ==> (#[trigger] outcomes[i]).0 == TaskEvent::Sent(true),
    ensures
        forall|i: int|
            0 <= i < s.buffered.len() ==> #[trigger] action_at(s, outcomes, i) == (Action::Send {
                client,
                message: ProtoEvent::Input(s.buffered[i]),
            }),
        action_at(s, outcomes, s.buffered.len() as int) == (Action::Select { retry: None }),
        state_at(s, outcomes, outcomes.len() as int) == (TaskModel {
            buffered: Seq::empty(),
            step: Step::Selecting,
            ..s
        }),
        s.state == State::Sending,
{
    let last = s.buffered.len() as int;
    assert forall|i: int| 0 <= i < s.buffered.len() implies #[trigger] action_at(s, outcomes, i)
        == (Action::Send { client, message: ProtoEvent::Input(s.buffered[i]) }) by {
        lemma_flush_state(s, client, outcomes, i + 1);
    }
    if last > 0 {
        lemma_flush_state(s, client, outcomes, last);
        assert(outcomes[last].0 == TaskEvent::Sent(true));
        assert(s.buffered.skip(last) =~= Seq::empty());
    }
}

/// Input that cannot be sent on gives the input back; what was still kept back is
/// not replayed.
pub proof fn law_a_lost_connection_releases(s: TaskModel, now: u128)
    requires
        s.wf(),
        s.step is Flushing || (s.step is Forwarding && s.state == State::Sending),
    ensures
        next(s, TaskEvent::Sent(false), now) == release_capture(s, false, After::Resume),
{
}

/// A session that ends, for whatever reason, takes the active client with it: the
/// owner hears that it was left, the hook hears how the session ended, the backend
/// shuts down, the owner hears that capturing is disabled, and no switch is going
/// on until a request brings a backend up again.
pub proof fn law_the_end_of_a_session_is_orderly(
    s: TaskModel,
    failed: bool,
    hook: TaskEvent,
    shut_down: TaskEvent,
    times: Seq<u128>,
)
    requires
        s.core_ok(),
        s.pressed.len() == 0,
        hook is HookDone,
        shut_down is BackendDone,
    ensures
        ({
            let ended = end_session(s, failed);
            let told = if s.active_client is Some {
                next(ended.0, TaskEvent::Done, times[0])
            } else {
                ended
            };
            let closing = next(told.0, hook, times[1]);
            let closed = next(closing.0, shut_down, times[2]);
            let parked = next(closed.0, TaskEvent::Done, times[3]);
            &&& s.active_client matches Some(client) ==> ended.1 == Action::Notify(
                ICaptureEvent::ClientLeft(client),
            )
            &&& told.1 == Action::Hook(
                if failed {
                    HookState::Error
                } else {
                    HookState::Reset
                },
            )
            &&& closing.1 == Action::Terminate
            &&& closed.1 == Action::Notify(ICaptureEvent::CaptureDisabled)
            &&& parked.1 == Action::Park
            &&& parked.0 == s.at_rest().at(Step::Parked)
        }),
{
}

/// A backend that fails, at whatever work, ends the session as a failed one.
pub proof fn law_a_failing_backend_ends_the_session(s: TaskModel, now: u128)
    requires
        s.wf(),
    ensures
        s.step == Step::Selecting ==> next(s, TaskEvent::CaptureFailed, now) == end_session(
            s,
            true,
        ),
        s.step == Step::BackendBusy ==> next(s, TaskEvent::BackendDone(false), now) == end_session(
            s,
            true,
        ),
        s.step is Releasing ==> next(s, TaskEvent::BackendDone(false), now) == end_session(
            TaskModel { pressed: Seq::empty(), ..s },
            true,
        ),
{
}

/// Without a backend a request to enter a client or to release the capture fails,
/// and both the hook and the owner hear of it.
pub proof fn law_no_switch_without_a_backend(
    s: TaskModel,
    request: CaptureRequest,
    hook: TaskEvent,
    times: Seq<u128>,
)
    requires
        s.wf(),
        s.step == Step::Parked,
        request is Enter || request is Release,
        hook is HookDone,
    ensures
        ({
            let told = next(s, TaskEvent::Request(request), times[0]);
            let failed = next(told.0, hook, times[1]);
            let parked = next(failed.0, TaskEvent::Done, times[2]);
            &&& told.1 == Action::Hook(HookState::Error)
            &&& failed.1 == Action::Notify(ICaptureEvent::ClientFailed)
            &&& parked == (s, Action::Park)
        }),
{
}

/// A hotkey switch that nothing goes wrong with: the hook agrees, the backend
/// enters the client, the client is told with a fresh serial and acknowledges it,
/// the hook and the owner hear of that, and input goes to the client.
pub proof fn law_a_hotkey_switch_succeeds(
    s: TaskModel,
    client: CaptureHandle,
    sent: bool,
    hook: TaskEvent,
    times: Seq<u128>,
)
    requires
        s.wf(),
        s.step == Step::Selecting,
        s.resting(),
        entry_of(s.captures, client) is Some,
        entry_of(s.captures, client)->0.capture_type == CaptureType::Default,
        hook is HookDone,
    ensures
        ({
            let serial = serial_after(s.next_serial);
            let begin = TaskEvent::Captured {
                handle: client,
                event: CaptureEvent::Begin,
                bind_pressed: false,
            };
            let ack = TaskEvent::Received { handle: client, event: ProtoEvent::Ack(serial) };
            let requested = next(s, TaskEvent::Request(CaptureRequest::Enter(client)), times[0]);
            let agreed = next(requested.0, TaskEvent::HookDone(true), times[1]);
            let entered = next(agreed.0, TaskEvent::BackendDone(true), times[2]);
            let began = next(entered.0, begin, times[3]);
            let active = next(began.0, TaskEvent::Done, times[4]);
            let told = next(active.0, TaskEvent::Done, times[5]);
            let waiting = next(told.0, TaskEvent::Sent(sent), times[6]);
            let acknowledged = next(waiting.0, ack, times[7]);
            let ready = next(acknowledged.0, hook, times[8]);
            let sending = next(ready.0, TaskEvent::Done, times[9]);
            &&& requested.1 == Action::Hook(HookState::Connecting)
            &&& agreed.1 == Action::Enter(client)
            &&& entered.1 == (Action::Select { retry: Some(RETRY_INTERVAL_NANOS) })
            &&& began.1 == Action::Notify(ICaptureEvent::CaptureBegin(client))
            &&& active.1 == Action::Notify(ICaptureEvent::ClientEntered(client))
            &&& told.1 == (Action::Send {
                client,
                message: ProtoEvent::HotkeyEnter {
                    pos: facing(entry_of(s.captures, client)->0.pos),
                    serial,
                },
            })
            &&& waiting.1 == (Action::Select { retry: Some(RETRY_INTERVAL_NANOS) })
            &&& acknowledged.1 == Action::Hook(HookState::Remote)
            &&& ready.1 == Action::Notify(ICaptureEvent::ClientReady(client))
            &&& sending == (
                TaskModel {
                    active_client: Some(client),
                    state: State::Sending,
                    serial,
                    next_serial: serial,
                    ..s
                },
                Action::Select { retry: None },
            )
        }),
{
    lemma_entry_registered(s.captures, client);
    let i = choose|i: int|
        0 <= i < s.captures.len() && s.captures[i] == entry_of(s.captures, client)->0;
    assert(s.captures[i].handle == client);
}

/// The captures for which a session has a barrier, in the order of their registration.
pub open spec fn barriers(s: TaskModel) -> Seq<CaptureEntry> {
    s.captures.filter(|c: CaptureEntry| has_barrier(s.hotkey_only, c.capture_type))
}

/// The barriers of the captures before `i` and from `i` on make up all barriers.
proof fn lemma_barriers_split(s: TaskModel, i: int)
    requires
        0 <= i <= s.captures.len(),
    ensures
        ({
            let has = |c: CaptureEntry| has_barrier(s.hotkey_only, c.capture_type);
            barriers(s) == s.captures.take(i).filter(has) + s.captures.skip(i).filter(has)
        }),
{
    let has = |c: CaptureEntry| has_barrier(s.hotkey_only, c.capture_type);
    assert(s.captures =~= s.captures.take(i) + s.captures.skip(i));
    Seq::filter_distributes_over_add(s.captures.take(i), s.captures.skip(i), has);
}

/// How many barriers there are for the captures before `i`.
spec fn barriers_before(s: TaskModel, i: int) -> int {
    s.captures.take(i).filter(
        |c: CaptureEntry| has_barrier(s.hotkey_only, c.capture_type),
    ).len() as int
}

/// No barrier lies between `from` and the next one; that one is next in order.
proof fn lemma_next_barrier_in_order(s: TaskModel, from: int)
    requires
        0 <= from <= s.captures.len(),
    ensures
        ({
            let i = next_barrier(s.captures, s.hotkey_only, from);
            &&& from <= i <= s.captures.len()
            &&& barriers_before(s, i) == barriers_before(s, from)
            &&& i < s.captures.len() ==> {
                &&& barriers_before(s, i) < barriers(s).len()
                &&& barriers(s)[barriers_before(s, i)] == s.captures[i]
                &&& barriers_before(s, i + 1) == barriers_before(s, i) + 1
            }
            &&& i == s.captures.len() ==> barriers_before(s, i) == barriers(s).len()
        }),
    decreases s.captures.len() - from,
{
    reveal(Seq::filter);
    let has = |c: CaptureEntry| has_barrier(s.hotkey_only, c.capture_type);
    if from == s.captures.len() {
        assert(s.captures.take(from) =~= s.captures);
    } else {
        assert(s.captures.take(from + 1).drop_last() =~= s.captures.take(from));
        if has(s.captures[from]) {
            lemma_barriers_split(s, from + 1);
        } else {
            lemma_next_barrier_in_order(s, from + 1);
        }
    }
}

proof fn lemma_startup_state(s: TaskModel, outcomes: Outcomes, n: int)
    requires
        s.wf(),
        s.step == Step::Enabling,
        outcomes.len() == barriers(s).len() + 1,
        forall|i: int|
            1 <= i < outcomes.len() ==> (#[trigger] outcomes[i]).0 == TaskEvent::BackendDone(true),
        1 <= n <= barriers(s).len(),
    ensures
        state_at(s, outcomes, n).step matches Step::Creating(index) && {
            &&& index < s.captures.len()
            &&& barriers_before(s, index as int) == n - 1
            &&& barriers_before(s, index + 1) == n
            &&& state_at(s, outcomes, n) == s.at(Step::Creating(index))
        },
        action_at(s, outcomes, n - 1) == (Action::Create {
            handle: barriers(s)[n - 1].handle,
            pos: barriers(s)[n - 1].pos,
            cancellable: true,
        }),
    decreases n,
{
    if n == 1 {
        reveal(Seq::filter);
        assert(s.captures.take(0) =~= Seq::empty());
        lemma_next_barrier_in_order(s, 0);
    } else {
        lemma_startup_state(s, outcomes, n - 1);
        assert(outcomes[n - 1].0 == TaskEvent::BackendDone(true));
        let index = state_at(s, outcomes, n - 1).step->Creating_0;
        lemma_next_barrier_in_order(s, index + 1);
    }
}

/// A session begins with a barrier for every capture that has one, created in the
/// order of registration: in hotkey-only mode these are the default captures.
pub proof fn law_a_session_begins_with_its_barriers(s: TaskModel, outcomes: Outcomes)
    requires
        s.wf(),
        s.step == Step::Enabling,
        outcomes.len() == barriers(s).len() + 1,
        outcomes[0].0 == TaskEvent::Done,
        forall|i: int|
            1 <= i < outcomes.len() ==> (#[trigger] outcomes[i]).0 == TaskEvent::BackendDone(true),
    ensures
        forall|i: int|
            0 <= i < barriers(s).len() ==> #[trigger] action_at(s, outcomes, i) == (
            Action::Create {
                handle: barriers(s)[i].handle,
                pos: barriers(s)[i].pos,
                cancellable: true,
            }),
        action_at(s, outcomes, barriers(s).len() as int) == (Action::Select { retry: None }),
        state_at(s, outcomes, outcomes.len() as int) == s.at(Step::Selecting),
{
    let last = barriers(s).len() as int;
    assert forall|i: int| 0 <= i < barriers(s).len() implies #[trigger] action_at(s, outcomes, i)
        == (Action::Create {
        handle: barriers(s)[i].handle,
        pos: barriers(s)[i].pos,
        cancellable: true,
    }) by {
        lemma_startup_state(s, outcomes, i + 1);
    }
    if last > 0 {
        lemma_startup_state(s, outcomes, last);
        assert(outcomes[last].0 == TaskEvent::BackendDone(true));
        let index = state_at(s, outcomes, last).step->Creating_0;
        lemma_next_barrier_in_order(s, index + 1);
    } else {
        reveal(Seq::filter);
        assert(s.captures.take(0) =~= Seq::empty());
        lemma_next_barrier_in_order(s, 0);
    }
}

} // verus!
