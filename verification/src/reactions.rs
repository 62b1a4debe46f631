//! What the capture task does about everything that can happen to it: laws that
//! state the outside work asked for and what becomes of each part of the state.

use crate::event::{CaptureEvent, Event, KeyboardEvent};
use crate::laws::{action_at, possible, state_at, Outcomes};
use crate::model::{
    accepts, can_enter, default_at, entry_of, initial, lemma_next_barrier, lemma_next_wf, next,
    next_barrier, without, Action, After, CaptureEntry, CaptureHandle, CaptureRequest,
    CaptureType, ICaptureEvent, State, Step, TaskEvent, TaskModel,
};
use crate::position::{Position, ProtoPosition};
use crate::proto::ProtoEvent;
use crate::switching::{serial_after, HookState};
use vstd::prelude::*;

verus! {

// ---------------------------------------------------------------- captures

/// A handle is known exactly if a capture is registered under it; it stands for
/// the first of these.
pub proof fn law_a_handle_stands_for_its_first_capture(
    captures: Seq<CaptureEntry>,
    handle: CaptureHandle,
)
    ensures
        entry_of(captures, handle) is Some <==> exists|i: int|
            0 <= i < captures.len() && (#[trigger] captures[i]).handle == handle,
        entry_of(captures, handle) matches Some(entry) ==> exists|i: int|
            {
                &&& 0 <= i < captures.len()
                &&& #[trigger] captures[i] == entry
                &&& entry.handle == handle
                &&& forall|j: int| 0 <= j < i ==> (#[trigger] captures[j]).handle != handle
            },
    decreases captures.len(),
{
    if captures.len() > 0 {
        let rest = captures.drop_first();
        law_a_handle_stands_for_its_first_capture(rest, handle);
        if captures.first().handle == handle {
            assert(captures[0] == captures.first());
        } else {
            assert forall|i: int| 0 <= i < captures.len() && (#[trigger] captures[i]).handle
                == handle implies exists|k: int|
                0 <= k < rest.len() && (#[trigger] rest[k]).handle == handle by {
                assert(rest[i - 1] == captures[i]);
            }
            if let Some(entry) = entry_of(rest, handle) {
                let k = choose|k: int|
                    {
                        &&& 0 <= k < rest.len()
                        &&& #[trigger] rest[k] == entry
                        &&& entry.handle == handle
                        &&& forall|j: int| 0 <= j < k ==> (#[trigger] rest[j]).handle != handle
                    };
                assert(captures[k + 1] == entry);
                assert forall|j: int| 0 <= j < k + 1 implies (#[trigger] captures[j]).handle
                    != handle by {
                    if j > 0 {
                        assert(rest[j - 1] == captures[j]);
                    }
                }
            }
        }
    }
}

/// To forget a handle drops each capture that is registered under it, and keeps
/// every other one in its place among the others.
pub proof fn law_forgetting_a_handle_keeps_the_others(
    captures: Seq<CaptureEntry>,
    entry: CaptureEntry,
    handle: CaptureHandle,
)
    ensures
        without(Seq::empty(), handle) == Seq::<CaptureEntry>::empty(),
        entry.handle == handle ==> without(captures.push(entry), handle) == without(
            captures,
            handle,
        ),
        entry.handle != handle ==> without(captures.push(entry), handle) == without(
            captures,
            handle,
        ).push(entry),
{
    reveal(Seq::filter);
    assert(captures.push(entry).drop_last() =~= captures);
    assert(captures.push(entry).last() == entry);
}

/// A default capture is found at its own side and under its own handle, and nowhere
/// else.
pub proof fn law_default_captures_are_found(
    captures: Seq<CaptureEntry>,
    pos: Position,
    handle: CaptureHandle,
)
    ensures
        default_at(captures, pos) <==> !(forall|i: int|
            0 <= i < captures.len() ==> (#[trigger] captures[i]).pos != pos
                || captures[i].capture_type == CaptureType::EnterOnly),
        can_enter(captures, handle) <==> !(forall|i: int|
            0 <= i < captures.len() ==> (#[trigger] captures[i]).handle != handle
                || captures[i].capture_type == CaptureType::EnterOnly),
{
}

// ---------------------------------------------------------------- outcomes

/// The outcomes that outside work can have, for a task in the state `t` that asked
/// for it.
pub open spec fn is_outcome_of(action: Action, t: TaskModel, event: TaskEvent) -> bool {
    match action {
        Action::Open => event is Opened || event is Cancelled,
        Action::SetHotkeyOnly(_) | Action::Notify(_) => event is Done,
        Action::Create { cancellable, .. } => event is BackendDone || (cancellable
            && event is Cancelled),
        Action::Destroy(_) | Action::Enter(_) | Action::Release { .. } | Action::Terminate => event
            is BackendDone,
        Action::TakePressedKeys => event is Keys,
        Action::Hook(_) => event is HookDone,
        Action::Send { .. } => event is Sent,
        Action::Cleanup { .. } => event is Sent || event is TimedOut,
        Action::Select { retry } => {
            ||| event is Tick && retry is Some
            ||| event matches TaskEvent::Captured { handle, bind_pressed, .. } && (bind_pressed
                || entry_of(t.captures, handle) is Some)
            ||| event is CaptureFailed
            ||| event is CaptureEnded
            ||| event is Received
            ||| event is Cancelled
            ||| event matches TaskEvent::Request(request) && {
                &&& request is Create ==> t.captures.len() < usize::MAX
                &&& request matches CaptureRequest::Destroy(handle) ==> !t.hotkey_only || entry_of(
                    t.captures,
                    handle,
                ) is Some
            }
        },
        Action::Park => {
            ||| event is Cancelled
            ||| event matches TaskEvent::Request(request) && (request is Create
                ==> t.captures.len() < usize::MAX)
        },
        Action::Stop => false,
    }
}

/// The task takes every outcome of the work that it asked for, and no other. It
/// waits for anything, or without a backend, exactly where it says so.
#[verifier::rlimit(60)]
pub proof fn law_the_outcomes_of_the_work_are_taken(
    s: TaskModel,
    event: TaskEvent,
    now: u128,
    outcome: TaskEvent,
)
    ensures
        ({
            let (t, action) = next(s, event, now);
            &&& accepts(t, outcome) <==> is_outcome_of(action, t, outcome)
            &&& t.step == Step::Selecting <==> action is Select
            &&& t.step == Step::Parked <==> action is Park
            &&& t.step == Step::Stopped <==> action is Stop
        }),
{
    // by cases
    match s.step {
        Step::Selecting => match event {
            TaskEvent::Tick => {},
            TaskEvent::Captured { .. } => {},
            TaskEvent::Received { .. } => {},
            TaskEvent::Request(_) => {},
            _ => {},
        },
        Step::Enabling => {},
        Step::Creating(_) => {},
        Step::Beginning { .. } => {},
        Step::Entering { .. } => {},
        Step::CleaningUp { .. } => {},
        Step::Parked => {},
        _ => {},
    }
}

/// Whenever the task waits, a timer of 75 milliseconds runs if an entry is being
/// timed that is not acknowledged, and none runs otherwise.
pub proof fn law_the_timer_runs_for_a_pending_entry(s: TaskModel, event: TaskEvent, now: u128)
    ensures
        ({
            let (t, action) = next(s, event, now);
            action matches Action::Select { retry } ==> {
                &&& t.started is Some && t.state == State::WaitingForAck ==> retry == Some(
                    75_000_000u64,
                )
                &&& t.started is None || t.state == State::Sending ==> retry is None
            }
        }),
{
    // by cases
    match s.step {
        Step::Selecting => match event {
            TaskEvent::Tick => {},
            TaskEvent::Captured { .. } => {},
            TaskEvent::Received { .. } => {},
            TaskEvent::Request(_) => {},
            _ => {},
        },
        Step::Enabling => {},
        Step::Creating(_) => {},
        Step::Beginning { .. } => {},
        Step::Entering { .. } => {},
        Step::CleaningUp { .. } => {},
        Step::Parked => {},
        _ => {},
    }
}

/// A task begins with nothing registered, no switch going on, and what its owner
/// configured.
pub proof fn law_a_task_begins_at_rest(release_bind: Seq<u32>, hotkey_only: bool)
    ensures
        ({
            let s = initial(release_bind, hotkey_only);
            &&& s.hotkey_only == hotkey_only
            &&& s.release_bind == release_bind
            &&& s.captures.len() == 0
            &&& s.buffered.len() == 0
            &&& s.pressed.len() == 0
            &&& s.active_client is None
            &&& s.started is None
            &&& s.state == State::WaitingForAck
            &&& s.serial == 0
            &&& s.next_serial == 0
            &&& s.step == Step::Opening
            &&& forall|outcome: TaskEvent| #[trigger]
                accepts(s, outcome) <==> is_outcome_of(Action::Open, s, outcome)
        }),
{
}

// ---------------------------------------------------------------- entering

/// The message lets the pointer in at the side of the client's screen that lies
/// across from `side`; it carries the serial if there is one.
pub open spec fn enters_from(message: ProtoEvent, side: Position, serial: u32) -> bool {
    match message {
        ProtoEvent::Enter(pos) => serial == 0 && pos.direction() == side.direction().reversed(),
        ProtoEvent::HotkeyEnter { pos, serial: carried } => serial != 0 && carried == serial
            && pos.direction() == side.direction().reversed(),
        _ => false,
    }
}

/// Only one side lies in a given direction.
pub proof fn law_the_side_of_an_entry_is_fixed(a: ProtoPosition, b: ProtoPosition, side: Position)
    ensures
        a.direction() == b.direction() ==> a == b,
        side == Position::Left ==> (a.direction() == side.direction().reversed() <==> a
            == ProtoPosition::Right),
        side == Position::Right ==> (a.direction() == side.direction().reversed() <==> a
            == ProtoPosition::Left),
        side == Position::Top ==> (a.direction() == side.direction().reversed() <==> a
            == ProtoPosition::Bottom),
        side == Position::Bottom ==> (a.direction() == side.direction().reversed() <==> a
            == ProtoPosition::Top),
{
}

/// Every message that enters a client names the side across from that of the
/// client's capture, and the serial of the entry, with or without a hotkey; it goes
/// to the client that is entered, and nothing but the step changes.
pub proof fn law_a_client_is_entered_at_the_side_across(
    s: TaskModel,
    event: TaskEvent,
    now: u128,
    client: CaptureHandle,
    message: ProtoEvent,
)
    requires
        next(s, event, now).1 == (Action::Send { client, message }),
        message !is Input,
    ensures
        enters_from(message, entry_of(s.captures, client)->0.pos, s.serial),
        s.step == Step::Selecting ==> s.active_client == Some(client) && event is Tick,
        s.step != Step::Selecting ==> s.step == (Step::Entering { client }) || s.step == (
        Step::Beginning { client }),
        next(s, event, now).0 == (TaskModel { step: next(s, event, now).0.step, ..s }),
{
    // by cases
    match s.step {
        Step::Selecting => match event {
            TaskEvent::Tick => {},
            TaskEvent::Captured { .. } => {},
            TaskEvent::Received { .. } => {},
            TaskEvent::Request(_) => {},
            _ => {},
        },
        Step::Enabling => {},
        Step::Creating(_) => {},
        Step::CleaningUp { .. } => {},
        Step::Parked => {},
        _ => {},
    }
}

/// The owner hears at once that the pointer reached the side of a capture, if the
/// release bind is not held; so far nothing else changes.
pub proof fn law_the_owner_hears_of_a_beginning(s: TaskModel, handle: CaptureHandle, now: u128)
    requires
        s.step == Step::Selecting,
    ensures
        next(
            s,
            TaskEvent::Captured { handle, event: CaptureEvent::Begin, bind_pressed: false },
            now,
        ) == (
            TaskModel { step: Step::Beginning { client: handle }, ..s },
            Action::Notify(ICaptureEvent::CaptureBegin(handle)),
        ),
{
}

/// A client that is not yet active becomes so when its side is reached: it has yet
/// to acknowledge its entry, whose age counts from now, unless a hotkey began it
/// before. The owner hears of it, and then the entry is sent. Input that was kept
/// back stays so, and the serial is kept.
pub proof fn law_reaching_a_client_makes_it_active(
    s: TaskModel,
    client: CaptureHandle,
    now: u128,
    then: u128,
)
    requires
        s.step == (Step::Beginning { client }),
        entry_of(s.captures, client) matches Some(entry) && entry.capture_type
            == CaptureType::Default,
        s.active_client != Some(client),
    ensures
        ({
            let (t, action) = next(s, TaskEvent::Done, now);
            let (u, sending) = next(t, TaskEvent::Done, then);
            &&& action == Action::Notify(ICaptureEvent::ClientEntered(client))
            &&& t.active_client == Some(client)
            &&& t.state == State::WaitingForAck
            &&& s.started is None ==> t.started == Some(now)
            &&& s.started is Some ==> t.started == s.started
            &&& t == (TaskModel {
                active_client: t.active_client,
                state: t.state,
                started: t.started,
                step: Step::Entering { client },
                ..s
            })
            &&& sending matches Action::Send { client: to, message } && to == client
                && enters_from(message, entry_of(s.captures, client)->0.pos, s.serial)
            &&& u == (TaskModel { step: Step::Forwarding, ..t })
        }),
{
}

/// A client that is active already is only sent its entry once more.
pub proof fn law_reaching_the_active_client_again(s: TaskModel, client: CaptureHandle, now: u128)
    requires
        s.step == (Step::Beginning { client }),
        entry_of(s.captures, client) matches Some(entry) && entry.capture_type
            == CaptureType::Default,
        s.active_client == Some(client),
    ensures
        next(s, TaskEvent::Done, now).0 == (TaskModel { step: Step::Forwarding, ..s }),
        next(s, TaskEvent::Done, now).1 matches Action::Send { client: to, message } && to == client
            && enters_from(message, entry_of(s.captures, client)->0.pos, s.serial),
{
}

/// The pointer comes in over the side of a capture that only waits for it: where a
/// default capture has that side too, nothing happens, and elsewhere the backend
/// gives the input back, without centering the pointer. The same goes for input
/// that is captured there; none of it is sent or kept.
pub proof fn law_a_waiting_capture_gives_way_to_a_default_one(
    s: TaskModel,
    handle: CaptureHandle,
    input: Event,
    now: u128,
)
    requires
        entry_of(s.captures, handle) matches Some(entry) && entry.capture_type
            == CaptureType::EnterOnly,
        s.step == Step::Selecting || s.step == (Step::Beginning { client: handle }),
    ensures
        ({
            let event = if s.step == Step::Selecting {
                TaskEvent::Captured {
                    handle,
                    event: CaptureEvent::Input(input),
                    bind_pressed: false,
                }
            } else {
                TaskEvent::Done
            };
            let side = entry_of(s.captures, handle)->0.pos;
            let wanted = exists|i: int|
                0 <= i < s.captures.len() && (#[trigger] s.captures[i]).pos == side
                    && s.captures[i].capture_type == CaptureType::Default;
            let (t, action) = next(s, event, now);
            &&& wanted ==> t == (TaskModel { step: Step::Selecting, ..s }) && action is Select
            &&& !wanted ==> t == (TaskModel { step: Step::BackendBusy, ..s }) && action == (
            Action::Release { center: false })
        }),
{
}

/// When the entry is sent, be it for the first time or again, the task waits as
/// before; only input that cannot be sent to a client that has acknowledged its
/// entry, or an entry that cannot be sent to such a one again, gives the input back.
pub proof fn law_what_follows_on_sending(s: TaskModel, sent: bool, now: u128)
    ensures
        s.step == Step::Retrying ==> next(s, TaskEvent::Sent(sent), now).0 == (TaskModel {
            step: Step::Selecting,
            ..s
        }),
        s.step == Step::Forwarding && (sent || s.state == State::WaitingForAck) ==> next(
            s,
            TaskEvent::Sent(sent),
            now,
        ).0 == (TaskModel { step: Step::Selecting, ..s }),
        s.step == Step::Forwarding && !sent && s.state == State::Sending ==> next(
            s,
            TaskEvent::Sent(sent),
            now,
        ) == (
            TaskModel {
                step: Step::TakingKeys { center: false, after: After::Resume },
                ..s
            },
            Action::TakePressedKeys,
        ),
{
}

/// When the timer fires, an entry younger than 3 seconds is sent again to the
/// active client, or still waited for if there is none; an older one is given up.
pub proof fn law_an_entry_has_three_seconds(s: TaskModel, now: u128)
    requires
        s.step == Step::Selecting,
        s.started is Some,
    ensures
        ({
            let (t, action) = next(s, TaskEvent::Tick, now);
            let age = now - s.started->0;
            &&& age >= 3_000_000_000 ==> t == (TaskModel {
                step: Step::TakingKeys { center: false, after: After::FailWithHook },
                ..s
            }) && action == Action::TakePressedKeys
            &&& age < 3_000_000_000 ==> {
                &&& s.active_client matches Some(client) ==> {
                    &&& t == (TaskModel { step: Step::Retrying, ..s })
                    &&& action matches Action::Send { client: to, message } && to == client
                        && enters_from(message, entry_of(s.captures, client)->0.pos, s.serial)
                }
                &&& s.active_client is None ==> t == s && action is Select
            }
        }),
{
}

/// The age of an entry counts from when the hook agreed to it, or else from when
/// its client was reached, and from no other time: nothing else sets it, and it is
/// dropped only when the entry is acknowledged, given up or ended with its session.
pub proof fn law_nothing_else_sets_the_age_of_an_entry(s: TaskModel, event: TaskEvent, now: u128)
    requires
        accepts(s, event),
        next(s, event, now).0.started != s.started,
    ensures
        ({
            let (t, action) = next(s, event, now);
            &&& t.started is Some ==> {
                &&& t.started == Some(now)
                &&& action is Enter || (action matches Action::Notify(told)
                    && told is ClientEntered && s.started is None)
            }
            &&& t.started is None ==> {
                ||| action == Action::Hook(HookState::Remote)
                ||| s.step is LocalHook
                ||| t.step is EndingHook
            }
        }),
{
    // by cases
    match s.step {
        Step::Selecting => match event {
            TaskEvent::Tick => {},
            TaskEvent::Captured { .. } => {},
            TaskEvent::Received { .. } => {},
            TaskEvent::Request(_) => {},
            _ => {},
        },
        Step::Enabling => {},
        Step::Creating(_) => {},
        Step::CleaningUp { .. } => {},
        Step::Parked => {},
        _ => {},
    }
}

/// In every run: while a client that became active at `began`, with no entry going
/// on before, has yet to acknowledge, each tick within 3 seconds sends its entry
/// again, and each later one gives it up.
pub proof fn law_an_entry_is_timed_from_its_beginning(
    s: TaskModel,
    client: CaptureHandle,
    began: u128,
    outcomes: Outcomes,
    now: u128,
)
    requires
        s.wf(),
        s.step == (Step::Beginning { client }),
        entry_of(s.captures, client) matches Some(entry) && entry.capture_type
            == CaptureType::Default,
        s.active_client != Some(client),
        s.started is None,
        possible(next(s, TaskEvent::Done, began).0, outcomes),
        forall|n: int|
            0 <= n <= outcomes.len() ==> {
                let t = #[trigger] state_at(next(s, TaskEvent::Done, began).0, outcomes, n);
                t.active_client == Some(client) && t.state == State::WaitingForAck
            },
        state_at(next(s, TaskEvent::Done, began).0, outcomes, outcomes.len() as int).step
            == Step::Selecting,
    ensures
        ({
            let t = state_at(
                next(s, TaskEvent::Done, began).0,
                outcomes,
                outcomes.len() as int,
            );
            let action = next(t, TaskEvent::Tick, now).1;
            &&& accepts(t, TaskEvent::Tick)
            &&& t.started == Some(began)
            &&& now - began < 3_000_000_000 ==> (action matches Action::Send {
                client: to,
                message,
            } && to == client && enters_from(
                message,
                entry_of(t.captures, client)->0.pos,
                t.serial,
            ))
            &&& now - began >= 3_000_000_000 ==> action == Action::TakePressedKeys
        }),
{
    let u = next(s, TaskEvent::Done, began).0;
    lemma_next_wf(s, TaskEvent::Done, began);
    law_reaching_a_client_makes_it_active(s, client, began, began);
    lemma_age_is_kept(u, client, outcomes, outcomes.len() as int);
}

proof fn lemma_age_is_kept(u: TaskModel, client: CaptureHandle, outcomes: Outcomes, n: int)
    requires
        u.wf(),
        possible(u, outcomes),
        0 <= n <= outcomes.len(),
        forall|k: int|
            0 <= k <= outcomes.len() ==> {
                let t = #[trigger] state_at(u, outcomes, k);
                t.active_client == Some(client) && t.state == State::WaitingForAck
            },
    ensures
        state_at(u, outcomes, n).wf(),
        state_at(u, outcomes, n).started == u.started,
    decreases n,
{
    if n > 0 {
        lemma_age_is_kept(u, client, outcomes, n - 1);
        let t = state_at(u, outcomes, n - 1);
        let (event, now) = outcomes[n - 1];
        assert(accepts(t, event));
        lemma_next_wf(t, event, now);
        let after = state_at(u, outcomes, n);
        assert(after == next(t, event, now).0);
        assert(after.started is Some);
        if after.started != t.started {
            law_nothing_else_sets_the_age_of_an_entry(t, event, now);
        }
    }
}

/// A hotkey entry is possible while no client is active and some default capture
/// has the client's handle: then the hook is asked, otherwise the failure is
/// reported. While a client is active a request to enter any has no effect.
pub proof fn law_an_entry_is_asked_for(s: TaskModel, client: CaptureHandle, now: u128)
    requires
        s.step == Step::Selecting,
    ensures
        ({
            let (t, action) = next(s, TaskEvent::Request(CaptureRequest::Enter(client)), now);
            let known = exists|i: int|
                0 <= i < s.captures.len() && (#[trigger] s.captures[i]).handle == client
                    && s.captures[i].capture_type == CaptureType::Default;
            &&& s.active_client is Some ==> t == s && action is Select
            &&& s.active_client is None && known ==> t == (TaskModel {
                step: Step::ConnectingHook { client },
                ..s
            }) && action == Action::Hook(HookState::Connecting)
            &&& s.active_client is None && !known ==> t == (TaskModel {
                step: Step::FailingHook,
                ..s
            }) && action == Action::Hook(HookState::Error)
        }),
{
}

/// If the hook agrees to an entry, the backend enters the client: the entry has the
/// number after that of the latest one, and 1 after the greatest, and its age
/// counts from now. If the hook refuses, it hears of the error and nothing changes.
pub proof fn law_the_hook_decides_on_an_entry(
    s: TaskModel,
    client: CaptureHandle,
    now: u128,
    heard: bool,
    then: u128,
)
    requires
        s.step == (Step::ConnectingHook { client }),
    ensures
        ({
            let (t, action) = next(s, TaskEvent::HookDone(true), now);
            &&& action == Action::Enter(client)
            &&& s.next_serial < u32::MAX ==> t.serial == s.next_serial + 1
            &&& s.next_serial == u32::MAX ==> t.serial == 1
            &&& t == (TaskModel {
                serial: t.serial,
                next_serial: t.serial,
                started: Some(now),
                step: Step::BackendBusy,
                ..s
            })
        }),
        next(s, TaskEvent::HookDone(false), now) == (
            TaskModel { step: Step::ErrorHook, ..s },
            Action::Hook(HookState::Error),
        ),
        next(
            next(s, TaskEvent::HookDone(false), now).0,
            TaskEvent::HookDone(heard),
            then,
        ).0 == (TaskModel { step: Step::Selecting, ..s }),
{
}

/// The serials of entries count up by one and pass over zero.
pub proof fn law_serials_count_up(previous: u32)
    ensures
        previous < u32::MAX ==> serial_after(previous) == previous + 1,
        previous == u32::MAX ==> serial_after(previous) == 1,
{
}

/// Work of the backend that goes well leads back to waiting, with nothing changed.
pub proof fn law_the_backend_has_done_its_work(s: TaskModel, now: u128)
    requires
        s.step == Step::BackendBusy,
    ensures
        next(s, TaskEvent::BackendDone(true), now).0 == (TaskModel { step: Step::Selecting, ..s }),
{
}

// ---------------------------------------------------------------- messages

/// The active client's acknowledgement with the serial of its entry ends the wait:
/// from then on input goes to it, and the entry is timed no more. The hook hears of
/// it, then the owner, and then what was kept back is sent.
pub proof fn law_a_matching_ack_ends_the_wait(
    s: TaskModel,
    client: CaptureHandle,
    now: u128,
    heard: bool,
    times: Seq<u128>,
)
    requires
        s.step == Step::Selecting,
        s.active_client == Some(client),
        s.state == State::WaitingForAck,
    ensures
        ({
            let ack = TaskEvent::Received { handle: client, event: ProtoEvent::Ack(s.serial) };
            let (t, told) = next(s, ack, now);
            let (u, ready) = next(t, TaskEvent::HookDone(heard), times[0]);
            let (v, action) = next(u, TaskEvent::Done, times[1]);
            &&& told == Action::Hook(HookState::Remote)
            &&& t == (TaskModel {
                state: State::Sending,
                started: None,
                step: Step::RemoteHook { client },
                ..s
            })
            &&& ready == Action::Notify(ICaptureEvent::ClientReady(client))
            &&& u == (TaskModel { step: Step::Readying { client }, ..t })
            &&& s.buffered.len() > 0 ==> action == (Action::Send {
                client,
                message: ProtoEvent::Input(s.buffered[0]),
            })
            &&& s.buffered.len() == 0 ==> action == (Action::Select { retry: None })
            &&& v.active_client == Some(client)
            &&& v.state == State::Sending
        }),
{
}

/// Input that was kept back is sent one event after the other; when one cannot be
/// sent the input is given back.
pub proof fn law_kept_back_input_is_sent_one_by_one(
    s: TaskModel,
    client: CaptureHandle,
    now: u128,
)
    ensures
        ({
            let event = if s.step is Readying {
                TaskEvent::Done
            } else {
                TaskEvent::Sent(true)
            };
            let (t, action) = next(s, event, now);
            s.step == (Step::Readying { client }) || s.step == (Step::Flushing { client }) ==> {
                &&& s.buffered.len() > 0 ==> {
                    &&& action == (Action::Send {
                        client,
                        message: ProtoEvent::Input(s.buffered[0]),
                    })
                    &&& t == (TaskModel {
                        buffered: s.buffered.subrange(1, s.buffered.len() as int),
                        step: Step::Flushing { client },
                        ..s
                    })
                }
                &&& s.buffered.len() == 0 ==> action is Select && t == (TaskModel {
                    step: Step::Selecting,
                    ..s
                })
            }
        }),
        s.step == (Step::Flushing { client }) ==> next(s, TaskEvent::Sent(false), now) == (
            TaskModel {
                step: Step::TakingKeys { center: false, after: After::Resume },
                ..s
            },
            Action::TakePressedKeys,
        ),
{
}

/// A client that the pointer leaves gives the input back: whatever the serial in
/// its message, whatever its entry and however far that has come, as long as it is
/// the active client, or none is. The pointer is not centered.
pub proof fn law_a_leave_gives_the_input_back(
    s: TaskModel,
    handle: CaptureHandle,
    serial: u32,
    keys: Vec<u32>,
    times: Seq<u128>,
)
    requires
        s.step == Step::Selecting,
        s.active_client is None || s.active_client == Some(handle),
    ensures
        ({
            let leave = TaskEvent::Received { handle, event: ProtoEvent::Leave(serial) };
            let (t, taking) = next(s, leave, times[0]);
            let (u, releasing) = next(t, TaskEvent::Keys(keys), times[1]);
            let (v, told) = next(u, TaskEvent::BackendDone(true), times[2]);
            let (w, _) = next(v, TaskEvent::HookDone(true), times[3]);
            &&& taking == Action::TakePressedKeys
            &&& releasing == (Action::Release { center: false })
            &&& told == Action::Hook(HookState::Local)
            &&& w.active_client is None
            &&& w.state == State::WaitingForAck
            &&& w.buffered.len() == 0
            &&& w.started is None
            &&& w.serial == 0
            &&& t == (TaskModel {
                step: Step::TakingKeys { center: false, after: After::Resume },
                ..s
            })
        }),
{
}

/// Every other message has no effect: one of another client than the active one,
/// an acknowledgement without an active client, once more, or of another entry, and
/// any message that is neither an acknowledgement nor a leave.
pub proof fn law_other_messages_have_no_effect(
    s: TaskModel,
    handle: CaptureHandle,
    message: ProtoEvent,
    now: u128,
)
    requires
        s.step == Step::Selecting,
        ({
            ||| s.active_client is Some && s.active_client != Some(handle)
            ||| !(message is Ack) && !(message is Leave)
            ||| message is Ack && s.active_client is None
            ||| message is Ack && s.state == State::Sending
            ||| message matches ProtoEvent::Ack(serial) && serial != s.serial
        }),
    ensures
        next(s, TaskEvent::Received { handle, event: message }, now).0 == s,
        next(s, TaskEvent::Received { handle, event: message }, now).1 is Select,
{
}

// ---------------------------------------------------------------- input

/// Once the client has acknowledged, every input event that is captured for a
/// default capture is sent to its client as it is, at once, be it of the keyboard
/// or of the pointer; if it was sent the task waits again with nothing changed.
pub proof fn law_captured_input_is_sent(
    s: TaskModel,
    handle: CaptureHandle,
    input: Event,
    now: u128,
    then: u128,
)
    requires
        s.step == Step::Selecting,
        s.state == State::Sending,
        entry_of(s.captures, handle) matches Some(entry) && entry.capture_type
            == CaptureType::Default,
    ensures
        ({
            let captured = TaskEvent::Captured {
                handle,
                event: CaptureEvent::Input(input),
                bind_pressed: false,
            };
            let (t, action) = next(s, captured, now);
            &&& action == (Action::Send { client: handle, message: ProtoEvent::Input(input) })
            &&& t == (TaskModel { step: Step::Forwarding, ..s })
            &&& next(t, TaskEvent::Sent(true), then).0 == s
        }),
{
}

/// Until the client has acknowledged, every input event that is captured for a
/// default capture is kept back behind those before it, up to 256 of them; one
/// more ends the switch, and the owner hears of the failure.
pub proof fn law_captured_input_is_kept_back(
    s: TaskModel,
    handle: CaptureHandle,
    input: Event,
    now: u128,
)
    requires
        s.step == Step::Selecting,
        s.state == State::WaitingForAck,
        entry_of(s.captures, handle) matches Some(entry) && entry.capture_type
            == CaptureType::Default,
    ensures
        ({
            let captured = TaskEvent::Captured {
                handle,
                event: CaptureEvent::Input(input),
                bind_pressed: false,
            };
            let (t, action) = next(s, captured, now);
            &&& s.buffered.len() < 256 ==> action is Select && t == (TaskModel {
                buffered: s.buffered + seq![input],
                ..s
            })
            &&& s.buffered.len() >= 256 ==> action == Action::TakePressedKeys && t == (TaskModel {
                step: Step::TakingKeys { center: false, after: After::Fail },
                ..s
            })
        }),
{
    assert(s.buffered.push(input) =~= s.buffered + seq![input]);
}

/// The input that reaches the task for a client with this outcome.
pub open spec fn input_in(s: TaskModel, event: TaskEvent) -> Seq<Event> {
    match event {
        TaskEvent::Captured {
            handle,
            event: CaptureEvent::Input(input),
            bind_pressed: false,
        } => if s.step == Step::Selecting && entry_of(s.captures, handle)->0.capture_type
            == CaptureType::Default {
            seq![input]
        } else {
            seq![]
        },
        _ => seq![],
    }
}

/// The input that is sent to a client by this work. The cleanup after a switch is
/// not part of it.
pub open spec fn input_out(action: Action) -> Seq<Event> {
    match action {
        Action::Send { message: ProtoEvent::Input(input), .. } => seq![input],
        _ => seq![],
    }
}

/// The switch, if one is going on, is not given up with this outcome.
pub open spec fn goes_on(s: TaskModel, event: TaskEvent, now: u128) -> bool {
    let t = next(s, event, now).0;
    !(t.step is TakingKeys) && !(t.step is EndingHook) && !(s.step is LocalHook)
}

/// No step loses, doubles or reorders input, unless the switch is given up: what was
/// kept back and what comes in is what goes out and what is kept back then.
pub proof fn law_a_step_loses_no_input(s: TaskModel, event: TaskEvent, now: u128)
    requires
        s.wf(),
        accepts(s, event),
        goes_on(s, event, now),
    ensures
        s.buffered + input_in(s, event) == input_out(next(s, event, now).1) + next(
            s,
            event,
            now,
        ).0.buffered,
{
    let (t, action) = next(s, event, now);
    let before = s.buffered + input_in(s, event);
    let after = input_out(action) + t.buffered;
    // by cases
    match s.step {
        Step::Selecting => match event {
            TaskEvent::Tick => {},
            TaskEvent::Captured { handle, event: captured, bind_pressed } => {
                if let CaptureEvent::Input(input) = captured {
                    assert(s.buffered.push(input) =~= s.buffered + seq![input]);
                }
            },
            TaskEvent::Received { .. } => {},
            TaskEvent::Request(_) => {},
            _ => {},
        },
        Step::Readying { .. } | Step::Flushing { .. } => {
            if s.buffered.len() > 0 {
                assert(s.buffered =~= seq![s.buffered.first()] + s.buffered.drop_first());
            }
        },
        _ => {},
    }
    assert(before =~= after);
}

/// The input that reaches the task with the first `n` outcomes of a run.
pub open spec fn all_input_in(s: TaskModel, outcomes: Outcomes, n: int) -> Seq<Event>
    decreases n,
{
    if n <= 0 {
        seq![]
    } else {
        all_input_in(s, outcomes, n - 1) + input_in(
            state_at(s, outcomes, n - 1),
            outcomes[n - 1].0,
        )
    }
}

/// The input that is sent on the first `n` outcomes of a run.
pub open spec fn all_input_out(s: TaskModel, outcomes: Outcomes, n: int) -> Seq<Event>
    decreases n,
{
    if n <= 0 {
        seq![]
    } else {
        all_input_out(s, outcomes, n - 1) + input_out(action_at(s, outcomes, n - 1))
    }
}

/// In every run in which no switch is given up, the input that is sent is the input
/// that was captured, event for event and in its order; what is missing at the end
/// is kept back.
pub proof fn law_a_run_loses_no_input(s: TaskModel, outcomes: Outcomes, n: int)
    requires
        s.wf(),
        possible(s, outcomes),
        0 <= n <= outcomes.len(),
        forall|k: int|
            0 <= k < n ==> goes_on(
                #[trigger] state_at(s, outcomes, k),
                outcomes[k].0,
                outcomes[k].1,
            ),
    ensures
        state_at(s, outcomes, n).wf(),
        s.buffered + all_input_in(s, outcomes, n) == all_input_out(s, outcomes, n) + state_at(
            s,
            outcomes,
            n,
        ).buffered,
    decreases n,
{
    if n > 0 {
        law_a_run_loses_no_input(s, outcomes, n - 1);
        let t = state_at(s, outcomes, n - 1);
        let (event, now) = outcomes[n - 1];
        assert(accepts(t, event));
        assert(goes_on(t, event, now));
        lemma_next_wf(t, event, now);
        law_a_step_loses_no_input(t, event, now);
        let came = all_input_in(s, outcomes, n - 1);
        let went = all_input_out(s, outcomes, n - 1);
        let u = state_at(s, outcomes, n);
        let out = input_out(action_at(s, outcomes, n - 1));
        assert(s.buffered + (came + input_in(t, event)) =~= (s.buffered + came) + input_in(t, event));
        assert((went + t.buffered) + input_in(t, event) =~= went + (t.buffered + input_in(t, event)));
        assert(went + (out + u.buffered) =~= (went + out) + u.buffered);
    } else {
        assert(s.buffered + seq![] =~= seq![] + s.buffered);
    }
}

// ---------------------------------------------------------------- giving back

/// The input is given back for these reasons and no others: the release bind, with
/// the pointer centered; the owner's request, with or without that; a leave of the
/// client that is listened to; the destruction of the active client; an entry of 3
/// seconds or more; more input than can be kept back; and input, or an entry sent
/// once more, that cannot be sent to a client that has acknowledged. What follows on
/// it depends on the reason. Nothing of the switch changes yet.
#[verifier::rlimit(60)]
pub proof fn law_why_the_input_is_given_back(
    s: TaskModel,
    event: TaskEvent,
    now: u128,
    center: bool,
    after: After,
)
    requires
        accepts(s, event),
    ensures
        ({
            let (t, action) = next(s, event, now);
            &&& action == Action::TakePressedKeys <==> t.step is TakingKeys
            &&& t.step is TakingKeys ==> t == (TaskModel { step: t.step, ..s })
            &&& t.step == (Step::TakingKeys { center, after }) <==> {
                ||| s.step == Step::Selecting && center && after == After::Resume && (event
                    matches TaskEvent::Captured { bind_pressed, .. } && bind_pressed)
                ||| s.step == Step::Selecting && after == After::Resume && event
                    == TaskEvent::Request(CaptureRequest::Release(center))
                ||| s.step == Step::Selecting && !center && after == After::Resume && (event
                    matches TaskEvent::Received { handle, event: message } && message is Leave && (
                s.active_client is None || s.active_client == Some(handle)))
                ||| s.step == Step::Selecting && !center && (event matches TaskEvent::Request(
                    CaptureRequest::Destroy(handle),
                ) && s.active_client == Some(handle) && after == After::Destroy(handle))
                ||| s.step == Step::Selecting && !center && after == After::FailWithHook && event
                    is Tick && now - s.started->0 >= 3_000_000_000
                ||| s.step == Step::Selecting && !center && after == After::Fail && s.state
                    == State::WaitingForAck && s.buffered.len() >= 256 && input_in(s, event).len()
                    > 0
                ||| s.step == Step::Forwarding && !center && after == After::Resume && s.state
                    == State::Sending && event == TaskEvent::Sent(false)
                ||| s.step is Flushing && !center && after == After::Resume && event
                    == TaskEvent::Sent(false)
            }
        }),
{
    // by cases
    match s.step {
        Step::Selecting => match event {
            TaskEvent::Tick => {},
            TaskEvent::Captured { .. } => {},
            TaskEvent::Received { .. } => {},
            TaskEvent::Request(_) => {},
            _ => {},
        },
        Step::Enabling => {},
        Step::Creating(_) => {},
        Step::CleaningUp { .. } => {},
        Step::Parked => {},
        _ => {},
    }
}

/// Giving the input back: the backend releases it, with the pointer centered only if
/// that was asked for, and then the hook hears that it is local. A backend that
/// cannot do so ends the session.
pub proof fn law_the_backend_gives_the_input_back(
    s: TaskModel,
    center: bool,
    after: After,
    keys: Vec<u32>,
    now: u128,
    then: u128,
)
    requires
        s.step == (Step::TakingKeys { center, after }),
    ensures
        ({
            let (t, action) = next(s, TaskEvent::Keys(keys), now);
            &&& action == (Action::Release { center })
            &&& t == (TaskModel { pressed: keys@, step: Step::Releasing { after }, ..s })
            &&& next(t, TaskEvent::BackendDone(true), then) == (
                TaskModel { step: Step::LocalHook { after }, ..t },
                Action::Hook(HookState::Local),
            )
        }),
{
}

/// When the input is local again, nothing is left of the switch, whatever the hook
/// says; of the keys that were held the cleanup has yet to know. If a client was
/// active, the owner hears that it was left, and the cleanup on it is next.
pub proof fn law_nothing_is_left_of_the_switch(s: TaskModel, after: After, heard: bool, now: u128)
    requires
        s.step == (Step::LocalHook { after }),
    ensures
        ({
            let (t, action) = next(s, TaskEvent::HookDone(heard), now);
            &&& t.active_client is None
            &&& t.state == State::WaitingForAck
            &&& t.started is None
            &&& t.buffered.len() == 0
            &&& t.serial == 0
            &&& t.next_serial == s.next_serial
            &&& t.release_bind == s.release_bind
            &&& t.hotkey_only == s.hotkey_only
            &&& s.active_client matches Some(client) ==> {
                &&& action == Action::Notify(ICaptureEvent::ClientLeft(client))
                &&& t.step == (Step::Leaving { client, serial: s.serial, after })
                &&& t.pressed == s.pressed
                &&& t.captures == s.captures
            }
            &&& s.active_client is None ==> t.pressed.len() == 0
        }),
{
}

/// The cleanup on a client that was left: each key that was held is let go, in the
/// order in which they were found, then every modifier is cleared, and last the
/// client is told that the input leaves, with the serial of its entry. The time for
/// all of this counts from the first message. A message that could not be sent does
/// not keep the next one from being sent.
pub proof fn law_the_cleanup_step_by_step(
    s: TaskModel,
    client: CaptureHandle,
    serial: u32,
    sent: usize,
    since: u128,
    after: After,
    ok: bool,
    now: u128,
)
    requires
        s.pressed.len() <= usize::MAX,
        sent <= s.pressed.len(),
    ensures
        ({
            let begins = s.step == (Step::Leaving { client, serial, after });
            let goes_on = s.step == (Step::CleaningUp { client, serial, sent, since, after });
            let event = if begins {
                TaskEvent::Done
            } else {
                TaskEvent::Sent(ok)
            };
            let i = if begins {
                0
            } else {
                sent + 1
            };
            let start = if begins {
                now
            } else {
                since
            };
            let (t, action) = next(s, event, now);
            begins || goes_on ==> {
                &&& i < s.pressed.len() ==> action == (Action::Cleanup {
                    client,
                    message: ProtoEvent::Input(
                        Event::Keyboard(
                            KeyboardEvent::Key { time: 0, key: s.pressed[i], state: 0 },
                        ),
                    ),
                    since: start,
                })
                &&& i == s.pressed.len() ==> action == (Action::Cleanup {
                    client,
                    message: ProtoEvent::Input(
                        Event::Keyboard(
                            KeyboardEvent::Modifiers {
                                depressed: 0,
                                latched: 0,
                                locked: 0,
                                group: 0,
                            },
                        ),
                    ),
                    since: start,
                })
                &&& i == s.pressed.len() + 1 ==> action == (Action::Cleanup {
                    client,
                    message: ProtoEvent::Leave(serial),
                    since: start,
                })
                &&& i <= s.pressed.len() ==> t == (TaskModel {
                    step: Step::CleaningUp {
                        client,
                        serial,
                        sent: i as usize,
                        since: start,
                        after,
                    },
                    ..s
                })
                &&& i == s.pressed.len() + 1 ==> t == (TaskModel {
                    step: Step::SayingLeave { after },
                    ..s
                })
            }
        }),
{
}

/// A release is complete when the client was told that the input leaves, when the
/// time for that is over, or when there was no client to tell. Then the task waits
/// again, or reports a failed switch, to the hook first if that is due, or destroys
/// the capture that the release made way for.
pub proof fn law_what_follows_on_a_release(s: TaskModel, event: TaskEvent, after: After, now: u128)
    requires
        ({
            ||| s.step == (Step::SayingLeave { after })
            ||| (s.step matches Step::CleaningUp { after: a, .. } && a == after && event is TimedOut)
            ||| s.step == (Step::LocalHook { after }) && s.active_client is None
        }),
    ensures
        ({
            let rest = if s.step is LocalHook {
                TaskModel {
                    started: None,
                    buffered: Seq::empty(),
                    state: State::WaitingForAck,
                    serial: 0,
                    pressed: Seq::empty(),
                    ..s
                }
            } else {
                TaskModel { pressed: Seq::empty(), ..s }
            };
            let (t, action) = next(s, event, now);
            &&& after == After::Resume ==> action is Select && t == (TaskModel {
                step: Step::Selecting,
                ..rest
            })
            &&& after == After::Fail ==> action == Action::Notify(ICaptureEvent::ClientFailed) && t
                == (TaskModel { step: Step::Failing, ..rest })
            &&& after == After::FailWithHook ==> action == Action::Hook(HookState::Error) && t == (
            TaskModel { step: Step::FailingHook, ..rest })
            &&& after matches After::Destroy(handle) ==> {
                let barrier = !s.hotkey_only || entry_of(s.captures, handle)->0.capture_type
                    == CaptureType::Default;
                &&& t.captures == without(s.captures, handle)
                &&& barrier ==> action == Action::Destroy(handle) && t.step == Step::BackendBusy
                &&& !barrier ==> action is Select && t.step == Step::Selecting
                &&& t == (TaskModel { captures: t.captures, step: t.step, ..rest })
            }
        }),
{
}

/// A failed switch is reported to the hook, if that is due, then to the owner, and
/// then the task waits.
pub proof fn law_a_failure_reaches_the_owner(s: TaskModel, heard: bool, now: u128)
    ensures
        s.step == Step::FailingHook ==> next(s, TaskEvent::HookDone(heard), now) == (
            TaskModel { step: Step::Failing, ..s },
            Action::Notify(ICaptureEvent::ClientFailed),
        ),
        s.step == Step::Failing ==> next(s, TaskEvent::Done, now).0 == (TaskModel {
            step: Step::Selecting,
            ..s
        }),
        s.step == Step::ErrorHook ==> next(s, TaskEvent::HookDone(heard), now).0 == (TaskModel {
            step: Step::Selecting,
            ..s
        }),
{
}

// ---------------------------------------------------------------- requests

/// A capture that the owner adds is appended to those known, and gets a barrier,
/// unless only hotkeys enter clients and it only waits for the pointer. It disturbs
/// no switch.
pub proof fn law_a_capture_is_added(
    s: TaskModel,
    handle: CaptureHandle,
    pos: Position,
    capture_type: CaptureType,
    now: u128,
)
    requires
        s.step == Step::Selecting || s.step == Step::Parked,
    ensures
        ({
            let (t, action) = next(
                s,
                TaskEvent::Request(CaptureRequest::Create(handle, pos, capture_type)),
                now,
            );
            let entry = CaptureEntry { handle, pos, capture_type };
            &&& t == (TaskModel { captures: s.captures + seq![entry], step: t.step, ..s })
            &&& s.step == Step::Parked ==> t.step == Step::Parked && action == Action::Park
            &&& s.step == Step::Selecting ==> {
                &&& s.hotkey_only && capture_type == CaptureType::EnterOnly ==> t.step
                    == Step::Selecting && action is Select
                &&& !(s.hotkey_only && capture_type == CaptureType::EnterOnly) ==> t.step
                    == Step::BackendBusy && action == (Action::Create {
                    handle,
                    pos,
                    cancellable: false,
                })
            }
        }),
{
    let entry = CaptureEntry { handle, pos, capture_type };
    assert(s.captures.push(entry) =~= s.captures + seq![entry]);
}

/// A capture that the owner removes is forgotten, and its barrier destroyed if it
/// has one; that of the active client only after the input is given back.
pub proof fn law_a_capture_is_removed(s: TaskModel, handle: CaptureHandle, now: u128)
    requires
        s.step == Step::Selecting || s.step == Step::Parked,
    ensures
        ({
            let (t, action) = next(s, TaskEvent::Request(CaptureRequest::Destroy(handle)), now);
            let barrier = !s.hotkey_only || entry_of(s.captures, handle)->0.capture_type
                == CaptureType::Default;
            let gone = TaskModel { captures: without(s.captures, handle), ..s };
            &&& s.step == Step::Parked ==> t == gone && action == Action::Park
            &&& s.step == Step::Selecting && s.active_client == Some(handle) ==> t == (TaskModel {
                step: Step::TakingKeys { center: false, after: After::Destroy(handle) },
                ..s
            }) && action == Action::TakePressedKeys
            &&& s.step == Step::Selecting && s.active_client != Some(handle) ==> {
                &&& barrier ==> action == Action::Destroy(handle) && t == (TaskModel {
                    step: Step::BackendBusy,
                    ..gone
                })
                &&& !barrier ==> action is Select && t == gone
            }
        }),
{
}

/// The owner's other requests: the input is given back as asked, a new release bind
/// takes the place of the old one, and to bring up a backend that is up does nothing.
/// Without a backend, the bind is set too, a backend is brought up when asked, and
/// there is nothing to give back or to enter: the hook hears of the error.
pub proof fn law_the_other_requests(s: TaskModel, request: CaptureRequest, now: u128)
    requires
        s.step == Step::Selecting || s.step == Step::Parked,
    ensures
        ({
            let (t, action) = next(s, TaskEvent::Request(request), now);
            let parked = s.step == Step::Parked;
            &&& request matches CaptureRequest::Release(center) ==> {
                &&& !parked ==> action == Action::TakePressedKeys && t == (TaskModel {
                    step: Step::TakingKeys { center, after: After::Resume },
                    ..s
                })
                &&& parked ==> action == Action::Hook(HookState::Error) && t == (TaskModel {
                    step: Step::ParkedHook,
                    ..s
                })
            }
            &&& request is Enter && parked ==> action == Action::Hook(HookState::Error) && t == (
            TaskModel { step: Step::ParkedHook, ..s })
            &&& request matches CaptureRequest::SetReleaseBind(bind) ==> {
                &&& t == (TaskModel { release_bind: bind@, ..s })
                &&& parked ==> action == Action::Park
                &&& !parked ==> action is Select
            }
            &&& request is Reenable ==> {
                &&& !parked ==> t == s && action is Select
                &&& parked ==> t == (TaskModel { step: Step::Opening, ..s }) && action
                    == Action::Open
            }
        }),
{
}

/// Pressing the release bind gives the input back and centers the pointer, whatever
/// was captured, for whatever handle.
pub proof fn law_the_release_bind_releases(
    s: TaskModel,
    handle: CaptureHandle,
    event: CaptureEvent,
    now: u128,
)
    requires
        s.step == Step::Selecting,
    ensures
        next(s, TaskEvent::Captured { handle, event, bind_pressed: true }, now) == (
            TaskModel {
                step: Step::TakingKeys { center: true, after: After::Resume },
                ..s
            },
            Action::TakePressedKeys,
        ),
{
}

// ---------------------------------------------------------------- sessions

/// A backend that is up is told whether only hotkeys enter clients, and the owner
/// hears that capturing is enabled. Without one the task waits for requests.
pub proof fn law_how_a_session_begins(s: TaskModel, now: u128)
    ensures
        s.step == Step::Opening ==> {
            &&& next(s, TaskEvent::Opened(true), now) == (
                TaskModel { step: Step::Configuring, ..s },
                Action::SetHotkeyOnly(s.hotkey_only),
            )
            &&& next(s, TaskEvent::Opened(false), now) == (
                TaskModel { step: Step::Parked, ..s },
                Action::Park,
            )
            &&& next(s, TaskEvent::Cancelled, now) == (
                TaskModel { step: Step::Parked, ..s },
                Action::Park,
            )
        },
        s.step == Step::Configuring ==> next(s, TaskEvent::Done, now) == (
            TaskModel { step: Step::Enabling, ..s },
            Action::Notify(ICaptureEvent::CaptureEnabled),
        ),
{
}

/// Once capturing is enabled, and after each barrier, the next capture that needs a
/// barrier gets one: all of them do, except, if only hotkeys enter clients, those
/// that only wait for the pointer. When none is left the session begins.
pub proof fn law_each_barrier_is_created_in_turn(s: TaskModel, now: u128)
    requires
        s.step == Step::Enabling || (s.step matches Step::Creating(index) && index
            < s.captures.len()),
        s.captures.len() <= usize::MAX,
    ensures
        ({
            let (event, from) = match s.step {
                Step::Creating(index) => (TaskEvent::BackendDone(true), index + 1),
                _ => (TaskEvent::Done, 0),
            };
            let (t, action) = next(s, event, now);
            let skipped = |c: CaptureEntry|
                s.hotkey_only && c.capture_type == CaptureType::EnterOnly;
            &&& t == (TaskModel { step: t.step, ..s })
            &&& t.step is Creating || t.step == Step::Selecting
            &&& t.step matches Step::Creating(i) ==> {
                &&& from <= i < s.captures.len()
                &&& !skipped(s.captures[i as int])
                &&& forall|j: int| from <= j < i ==> skipped(#[trigger] s.captures[j])
                &&& action == (Action::Create {
                    handle: s.captures[i as int].handle,
                    pos: s.captures[i as int].pos,
                    cancellable: true,
                })
            }
            &&& t.step == Step::Selecting ==> forall|j: int|
                from <= j < s.captures.len() ==> skipped(#[trigger] s.captures[j])
        }),
{
    let from = match s.step {
        Step::Creating(index) => index + 1,
        _ => 0,
    };
    lemma_next_barrier(s.captures, s.hotkey_only, from);
    lemma_skipped(s.captures, s.hotkey_only, from);
}

/// What lies before the next barrier gets none.
proof fn lemma_skipped(captures: Seq<CaptureEntry>, hotkey_only: bool, from: int)
    requires
        0 <= from <= captures.len(),
    ensures
        ({
            let i = next_barrier(captures, hotkey_only, from);
            &&& from <= i <= captures.len()
            &&& forall|j: int|
                from <= j < i ==> hotkey_only && (#[trigger] captures[j]).capture_type
                    == CaptureType::EnterOnly
            &&& i < captures.len() ==> !(hotkey_only && captures[i].capture_type
                == CaptureType::EnterOnly)
        }),
    decreases captures.len() - from,
{
    if from < captures.len() {
        if hotkey_only && captures[from].capture_type == CaptureType::EnterOnly {
            lemma_skipped(captures, hotkey_only, from + 1);
        }
    }
}

/// A barrier that cannot be created ends the session before it began; a task that is
/// cancelled meanwhile goes on to its session without the other barriers.
pub proof fn law_a_barrier_fails_or_is_cancelled(s: TaskModel, now: u128)
    requires
        s.step is Creating,
    ensures
        next(s, TaskEvent::BackendDone(false), now) == (
            TaskModel { step: Step::Terminating, ..s },
            Action::Terminate,
        ),
        next(s, TaskEvent::Cancelled, now).0 == (TaskModel { step: Step::Selecting, ..s }),
{
}

/// What ends a session: the backend fails, runs dry, or the owner cancels the task.
pub open spec fn ends_the_session(s: TaskModel, event: TaskEvent) -> bool {
    ||| s.step == Step::Selecting && (event is CaptureFailed || event is CaptureEnded || event is
        Cancelled)
    ||| s.step == Step::BackendBusy && event == TaskEvent::BackendDone(false)
    ||| s.step is Releasing && event == TaskEvent::BackendDone(false)
}

/// A session that ends leaves nothing of a switch: if a client was active, the owner
/// hears first that it was left; then the hook hears whether the backend failed. It
/// did unless it ran dry or the owner cancelled the task.
pub proof fn law_how_a_session_ends(s: TaskModel, event: TaskEvent, now: u128, then: u128)
    requires
        ends_the_session(s, event),
    ensures
        ({
            let failed = !(event is CaptureEnded || event is Cancelled);
            let (t, action) = next(s, event, now);
            let (u, told) = if s.active_client is Some {
                next(t, TaskEvent::Done, then)
            } else {
                (t, action)
            };
            &&& s.active_client matches Some(client) ==> {
                &&& action == Action::Notify(ICaptureEvent::ClientLeft(client))
                &&& t.active_client is None
                &&& t.state == State::WaitingForAck
                &&& t.step == (Step::EndingLeft { failed })
            }
            &&& failed ==> told == Action::Hook(HookState::Error)
            &&& !failed ==> told == Action::Hook(HookState::Reset)
            &&& u == (TaskModel {
                active_client: None,
                state: if s.active_client is Some {
                    State::WaitingForAck
                } else {
                    s.state
                },
                started: None,
                buffered: Seq::empty(),
                serial: 0,
                pressed: u.pressed,
                step: Step::EndingHook { failed },
                ..s
            })
            &&& s.step is Releasing ==> u.pressed.len() == 0
            &&& !(s.step is Releasing) ==> u.pressed == s.pressed
        }),
{
}

/// After its session the backend is shut down, whatever the hook says, and the owner
/// hears that capturing is disabled, whether or not that went well; then the task
/// waits for requests. Nothing else changes.
pub proof fn law_the_backend_shuts_down(s: TaskModel, ok: bool, now: u128)
    ensures
        s.step is EndingHook ==> next(s, TaskEvent::HookDone(ok), now) == (
            TaskModel { step: Step::Terminating, ..s },
            Action::Terminate,
        ),
        s.step == Step::Terminating ==> next(s, TaskEvent::BackendDone(ok), now) == (
            TaskModel { step: Step::Disabling, ..s },
            Action::Notify(ICaptureEvent::CaptureDisabled),
        ),
        s.step == Step::Disabling ==> next(s, TaskEvent::Done, now) == (
            TaskModel { step: Step::Parked, ..s },
            Action::Park,
        ),
{
}

/// Without a backend a failure reaches the owner after the hook; the task is over
/// only when the owner cancels it then.
pub proof fn law_waiting_without_a_backend(s: TaskModel, ok: bool, now: u128)
    ensures
        s.step == Step::ParkedHook ==> next(s, TaskEvent::HookDone(ok), now) == (
            TaskModel { step: Step::ParkedFailing, ..s },
            Action::Notify(ICaptureEvent::ClientFailed),
        ),
        s.step == Step::ParkedFailing ==> next(s, TaskEvent::Done, now) == (
            TaskModel { step: Step::Parked, ..s },
            Action::Park,
        ),
        s.step == Step::Parked ==> next(s, TaskEvent::Cancelled, now) == (
            TaskModel { step: Step::Stopped, ..s },
            Action::Stop,
        ),
{
}

} // verus!
