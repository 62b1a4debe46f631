use lan_mouse::capture::{cleanup_deadline, CaptureTask};
use lan_mouse::event::{CaptureEvent, Event, KeyboardEvent, PointerEvent};
use lan_mouse::model::{
    Action, CaptureHandle, CaptureRequest, CaptureType, ICaptureEvent, TaskEvent,
    CLEANUP_TIMEOUT_NANOS, ENTRY_TIMEOUT_NANOS, MAX_BUFFERED, RETRY_INTERVAL_NANOS,
};
use lan_mouse::position::{Position, ProtoPosition};
use lan_mouse::proto::ProtoEvent;
use lan_mouse::switching::HookState;

const SEC: u128 = 1_000_000_000;

fn tell_at(task: &mut CaptureTask, event: TaskEvent, now: u128) -> Action {
    assert!(task.accepts(&event), "unexpected {event:?}");
    task.step(event, now)
}

fn tell(task: &mut CaptureTask, event: TaskEvent) -> Action {
    tell_at(task, event, 0)
}

fn notify(event: ICaptureEvent) -> Action {
    Action::Notify(event)
}

fn waiting() -> Action {
    Action::Select { retry: None }
}

fn retrying() -> Action {
    Action::Select {
        retry: Some(75_000_000),
    }
}

fn key(key: u32, state: u8) -> Event {
    Event::Keyboard(KeyboardEvent::Key {
        time: 0,
        key,
        state,
    })
}

fn begin(handle: CaptureHandle) -> TaskEvent {
    TaskEvent::Captured {
        handle,
        event: CaptureEvent::Begin,
        bind_pressed: false,
    }
}

fn input(handle: CaptureHandle, event: Event) -> TaskEvent {
    TaskEvent::Captured {
        handle,
        event: CaptureEvent::Input(event),
        bind_pressed: false,
    }
}

fn ack(handle: CaptureHandle, serial: u32) -> TaskEvent {
    TaskEvent::Received {
        handle,
        event: ProtoEvent::Ack(serial),
    }
}

fn enter(handle: CaptureHandle) -> TaskEvent {
    TaskEvent::Request(CaptureRequest::Enter(handle))
}

/// A task in a session without captures.
fn session(hotkey_only: bool) -> CaptureTask {
    let (mut task, action) = CaptureTask::new(vec![29, 42, 56, 125], hotkey_only);
    assert_eq!(action, Action::Open);
    assert_eq!(
        tell(&mut task, TaskEvent::Opened(true)),
        Action::SetHotkeyOnly(hotkey_only)
    );
    assert_eq!(
        tell(&mut task, TaskEvent::Done),
        notify(ICaptureEvent::CaptureEnabled)
    );
    assert_eq!(tell(&mut task, TaskEvent::Done), waiting());
    task
}

/// A task in a session with a default capture 1 at the left and 2 at the top.
fn two_clients(hotkey_only: bool) -> CaptureTask {
    let mut task = session(hotkey_only);
    for (handle, pos) in [(1, Position::Left), (2, Position::Top)] {
        let request = CaptureRequest::Create(handle, pos, CaptureType::Default);
        assert_eq!(
            tell(&mut task, TaskEvent::Request(request)),
            Action::Create {
                handle,
                pos,
                cancellable: false
            }
        );
        assert_eq!(tell(&mut task, TaskEvent::BackendDone(true)), waiting());
    }
    task
}

/// Lets a hotkey enter client 1, up to the wait for the acknowledgement.
fn request_entry(task: &mut CaptureTask, serial: u32, now: u128) {
    assert_eq!(
        tell(task, enter(1)),
        Action::Hook(HookState::Connecting)
    );
    assert_eq!(
        tell_at(task, TaskEvent::HookDone(true), now),
        Action::Enter(1)
    );
    assert_eq!(tell(task, TaskEvent::BackendDone(true)), retrying());
    assert_eq!(
        tell_at(task, begin(1), now),
        notify(ICaptureEvent::CaptureBegin(1))
    );
    assert_eq!(
        tell_at(task, TaskEvent::Done, now),
        notify(ICaptureEvent::ClientEntered(1))
    );
    assert_eq!(
        tell(task, TaskEvent::Done),
        Action::Send {
            client: 1,
            message: ProtoEvent::HotkeyEnter {
                pos: ProtoPosition::Right,
                serial
            }
        }
    );
    assert_eq!(tell(task, TaskEvent::Sent(true)), retrying());
}

/// Lets client 1 acknowledge, with nothing kept back.
fn acknowledge(task: &mut CaptureTask, serial: u32) {
    assert_eq!(tell(task, ack(1, serial)), Action::Hook(HookState::Remote));
    assert_eq!(
        tell(task, TaskEvent::HookDone(true)),
        notify(ICaptureEvent::ClientReady(1))
    );
    assert_eq!(tell(task, TaskEvent::Done), waiting());
}

/// Follows a release from client 1 up to the last message.
fn follow_release(task: &mut CaptureTask, center: bool, keys: Vec<u32>, serial: u32) {
    assert_eq!(
        tell(task, TaskEvent::Keys(keys.clone())),
        Action::Release { center }
    );
    assert_eq!(
        tell(task, TaskEvent::BackendDone(true)),
        Action::Hook(HookState::Local)
    );
    assert_eq!(
        tell(task, TaskEvent::HookDone(true)),
        notify(ICaptureEvent::ClientLeft(1))
    );
    let mut messages: Vec<ProtoEvent> = keys
        .iter()
        .map(|k| ProtoEvent::Input(key(*k, 0)))
        .collect();
    messages.push(ProtoEvent::Input(Event::Keyboard(KeyboardEvent::Modifiers {
        depressed: 0,
        latched: 0,
        locked: 0,
        group: 0,
    })));
    messages.push(ProtoEvent::Leave(serial));
    let mut outcome = TaskEvent::Done;
    for (i, message) in messages.into_iter().enumerate() {
        assert_eq!(
            tell_at(task, outcome, 77 + i as u128),
            Action::Cleanup {
                client: 1,
                message,
                since: 77
            }
        );
        // whether a message arrives does not matter
        outcome = TaskEvent::Sent(i % 2 == 0);
    }
}

#[test]
fn limits() {
    assert_eq!(MAX_BUFFERED, 256);
    assert_eq!(RETRY_INTERVAL_NANOS, 75_000_000);
    assert_eq!(ENTRY_TIMEOUT_NANOS, 3 * SEC);
    assert_eq!(CLEANUP_TIMEOUT_NANOS, 200_000_000);
}

#[test]
fn hotkey_switch_and_return() {
    let mut task = two_clients(true);
    request_entry(&mut task, 1, 5);
    assert_eq!(task.active_client(), Some(1));
    acknowledge(&mut task, 1);
    assert_eq!(
        tell(&mut task, input(1, key(30, 1))),
        Action::Send {
            client: 1,
            message: ProtoEvent::Input(key(30, 1))
        }
    );
    assert_eq!(tell(&mut task, TaskEvent::Sent(true)), waiting());
    assert_eq!(
        tell(&mut task, TaskEvent::Request(CaptureRequest::Release(true))),
        Action::TakePressedKeys
    );
    follow_release(&mut task, true, vec![30, 42], 1);
    assert_eq!(tell(&mut task, TaskEvent::Sent(true)), waiting());
    assert_eq!(task.active_client(), None);
    // the next entry has the next serial
    request_entry(&mut task, 2, 9);
}

#[test]
fn stale_and_foreign_acks_change_nothing() {
    let mut task = two_clients(true);
    request_entry(&mut task, 1, 0);
    assert_eq!(tell(&mut task, TaskEvent::Request(CaptureRequest::Release(true))), Action::TakePressedKeys);
    follow_release(&mut task, true, vec![], 1);
    assert_eq!(tell(&mut task, TaskEvent::Sent(true)), waiting());
    request_entry(&mut task, 2, 0);
    assert_eq!(tell(&mut task, ack(1, 1)), retrying());
    assert_eq!(tell(&mut task, ack(1, 0)), retrying());
    assert_eq!(tell(&mut task, ack(2, 2)), retrying());
    acknowledge(&mut task, 2);
    // a duplicate changes nothing either
    assert_eq!(tell(&mut task, ack(1, 2)), waiting());
}

#[test]
fn nothing_is_heard_from_other_clients() {
    let mut task = two_clients(false);
    request_entry(&mut task, 1, 0);
    let leave = TaskEvent::Received {
        handle: 2,
        event: ProtoEvent::Leave(0),
    };
    assert_eq!(tell(&mut task, leave), retrying());
    let other = TaskEvent::Received {
        handle: 1,
        event: ProtoEvent::Other,
    };
    assert_eq!(tell(&mut task, other), retrying());
    assert_eq!(task.active_client(), Some(1));
}

#[test]
fn edge_entry_has_no_serial() {
    let mut task = two_clients(false);
    assert_eq!(
        tell(&mut task, begin(2)),
        notify(ICaptureEvent::CaptureBegin(2))
    );
    assert_eq!(
        tell(&mut task, TaskEvent::Done),
        notify(ICaptureEvent::ClientEntered(2))
    );
    assert_eq!(
        tell(&mut task, TaskEvent::Done),
        Action::Send {
            client: 2,
            message: ProtoEvent::Enter(ProtoPosition::Bottom)
        }
    );
    // the timer retries, the failure does not end the entry
    assert_eq!(tell(&mut task, TaskEvent::Sent(false)), retrying());
    assert_eq!(tell(&mut task, ack(2, 0)), Action::Hook(HookState::Remote));
    assert_eq!(
        tell(&mut task, TaskEvent::HookDone(false)),
        notify(ICaptureEvent::ClientReady(2))
    );
    assert_eq!(tell(&mut task, TaskEvent::Done), waiting());
    // a second crossing into the active client only repeats the message
    assert_eq!(
        tell(&mut task, begin(2)),
        notify(ICaptureEvent::CaptureBegin(2))
    );
    assert_eq!(
        tell(&mut task, TaskEvent::Done),
        Action::Send {
            client: 2,
            message: ProtoEvent::Enter(ProtoPosition::Bottom)
        }
    );
    assert_eq!(tell(&mut task, TaskEvent::Sent(false)), Action::TakePressedKeys);
}

#[test]
fn entry_is_retried_until_it_times_out() {
    let mut task = two_clients(true);
    request_entry(&mut task, 1, 10 * SEC);
    let again = Action::Send {
        client: 1,
        message: ProtoEvent::HotkeyEnter {
            pos: ProtoPosition::Right,
            serial: 1,
        },
    };
    assert_eq!(tell_at(&mut task, TaskEvent::Tick, 10 * SEC), again);
    assert_eq!(tell(&mut task, TaskEvent::Sent(false)), retrying());
    assert_eq!(tell_at(&mut task, TaskEvent::Tick, 13 * SEC - 1), again);
    assert_eq!(tell(&mut task, TaskEvent::Sent(true)), retrying());
    // a clock that seems to run backwards is no time-out
    assert_eq!(tell_at(&mut task, TaskEvent::Tick, 1), again);
    assert_eq!(tell(&mut task, TaskEvent::Sent(true)), retrying());
    assert_eq!(
        tell_at(&mut task, TaskEvent::Tick, 13 * SEC),
        Action::TakePressedKeys
    );
    follow_release(&mut task, false, vec![125], 1);
    assert_eq!(
        tell(&mut task, TaskEvent::Sent(true)),
        Action::Hook(HookState::Error)
    );
    assert_eq!(
        tell(&mut task, TaskEvent::HookDone(true)),
        notify(ICaptureEvent::ClientFailed)
    );
    assert_eq!(tell(&mut task, TaskEvent::Done), waiting());
    assert_eq!(task.active_client(), None);
    assert!(!task.accepts(&TaskEvent::Tick));
}

#[test]
fn entry_without_a_begin_times_out_too() {
    let mut task = two_clients(true);
    assert_eq!(tell(&mut task, enter(1)), Action::Hook(HookState::Connecting));
    assert_eq!(tell_at(&mut task, TaskEvent::HookDone(true), SEC), Action::Enter(1));
    assert_eq!(tell(&mut task, TaskEvent::BackendDone(true)), retrying());
    assert_eq!(tell_at(&mut task, TaskEvent::Tick, 2 * SEC), retrying());
    assert_eq!(tell_at(&mut task, TaskEvent::Tick, 4 * SEC), Action::TakePressedKeys);
    assert_eq!(
        tell(&mut task, TaskEvent::Keys(vec![1])),
        Action::Release { center: false }
    );
    assert_eq!(
        tell(&mut task, TaskEvent::BackendDone(true)),
        Action::Hook(HookState::Local)
    );
    assert_eq!(
        tell(&mut task, TaskEvent::HookDone(true)),
        Action::Hook(HookState::Error)
    );
}

#[test]
fn kept_back_input_arrives_in_order() {
    let mut task = two_clients(true);
    request_entry(&mut task, 1, 0);
    let motion = Event::Pointer(PointerEvent::Motion {
        time: 3,
        dx: 1.5f64.to_bits(),
        dy: (-0.5f64).to_bits(),
    });
    let events = [key(30, 1), motion, key(30, 0)];
    for event in events {
        assert_eq!(tell(&mut task, input(1, event)), retrying());
    }
    assert_eq!(tell(&mut task, ack(1, 1)), Action::Hook(HookState::Remote));
    assert_eq!(
        tell(&mut task, TaskEvent::HookDone(true)),
        notify(ICaptureEvent::ClientReady(1))
    );
    let mut outcome = TaskEvent::Done;
    for event in events {
        assert_eq!(
            tell(&mut task, outcome),
            Action::Send {
                client: 1,
                message: ProtoEvent::Input(event)
            }
        );
        outcome = TaskEvent::Sent(true);
    }
    assert_eq!(tell(&mut task, outcome), waiting());
}

#[test]
fn a_failed_flush_releases() {
    let mut task = two_clients(true);
    request_entry(&mut task, 1, 0);
    for k in [30, 31] {
        assert_eq!(tell(&mut task, input(1, key(k, 1))), retrying());
    }
    tell(&mut task, ack(1, 1));
    tell(&mut task, TaskEvent::HookDone(true));
    tell(&mut task, TaskEvent::Done);
    assert_eq!(tell(&mut task, TaskEvent::Sent(false)), Action::TakePressedKeys);
    follow_release(&mut task, false, vec![30, 31], 1);
    assert_eq!(tell(&mut task, TaskEvent::Sent(true)), waiting());
}

#[test]
fn overflow_aborts_the_switch() {
    let mut task = two_clients(true);
    request_entry(&mut task, 1, 0);
    for i in 0..256 {
        assert_eq!(tell(&mut task, input(1, key(i, 1))), retrying());
    }
    assert_eq!(
        tell(&mut task, input(1, key(256, 1))),
        Action::TakePressedKeys
    );
    follow_release(&mut task, false, vec![], 1);
    assert_eq!(
        tell(&mut task, TaskEvent::Sent(true)),
        notify(ICaptureEvent::ClientFailed)
    );
    assert_eq!(tell(&mut task, TaskEvent::Done), waiting());
    // nothing of the backlog is replayed
    request_entry(&mut task, 2, 0);
    acknowledge(&mut task, 2);
}

#[test]
fn the_cleanup_is_bounded() {
    for sent in 0..4 {
        let mut task = two_clients(true);
        request_entry(&mut task, 1, 0);
        acknowledge(&mut task, 1);
        tell(&mut task, TaskEvent::Request(CaptureRequest::Release(false)));
        tell(&mut task, TaskEvent::Keys(vec![30, 42]));
        tell(&mut task, TaskEvent::BackendDone(true));
        tell(&mut task, TaskEvent::HookDone(true));
        tell(&mut task, TaskEvent::Done);
        for _ in 0..sent {
            tell(&mut task, TaskEvent::Sent(true));
        }
        assert_eq!(tell(&mut task, TaskEvent::TimedOut), waiting());
        assert_eq!(task.active_client(), None);
    }
}

#[test]
fn the_release_bind_centers() {
    let mut task = two_clients(true);
    request_entry(&mut task, 1, 0);
    acknowledge(&mut task, 1);
    assert_eq!(task.release_bind(), &vec![29, 42, 56, 125]);
    let bind = TaskEvent::Captured {
        handle: 1,
        event: CaptureEvent::Input(key(125, 1)),
        bind_pressed: true,
    };
    assert_eq!(tell(&mut task, bind), Action::TakePressedKeys);
    follow_release(&mut task, true, vec![29, 42, 56, 125], 1);
    assert_eq!(tell(&mut task, TaskEvent::Sent(true)), waiting());
}

#[test]
fn a_leaving_client_does_not_center() {
    let mut task = two_clients(true);
    request_entry(&mut task, 1, 0);
    acknowledge(&mut task, 1);
    let leave = TaskEvent::Received {
        handle: 1,
        event: ProtoEvent::Leave(0),
    };
    assert_eq!(tell(&mut task, leave), Action::TakePressedKeys);
    follow_release(&mut task, false, vec![], 1);
    assert_eq!(tell(&mut task, TaskEvent::Sent(true)), waiting());
}

#[test]
fn a_lost_connection_releases() {
    let mut task = two_clients(true);
    request_entry(&mut task, 1, 0);
    acknowledge(&mut task, 1);
    tell(&mut task, input(1, key(30, 1)));
    assert_eq!(tell(&mut task, TaskEvent::Sent(false)), Action::TakePressedKeys);
    follow_release(&mut task, false, vec![30], 1);
    assert_eq!(tell(&mut task, TaskEvent::Sent(false)), waiting());
}

#[test]
fn a_failed_release_ends_the_session() {
    let mut task = two_clients(true);
    request_entry(&mut task, 1, 0);
    acknowledge(&mut task, 1);
    tell(&mut task, TaskEvent::Request(CaptureRequest::Release(true)));
    tell(&mut task, TaskEvent::Keys(vec![30]));
    assert_eq!(
        tell(&mut task, TaskEvent::BackendDone(false)),
        notify(ICaptureEvent::ClientLeft(1))
    );
    assert_eq!(
        tell(&mut task, TaskEvent::Done),
        Action::Hook(HookState::Error)
    );
    assert_eq!(tell(&mut task, TaskEvent::HookDone(false)), Action::Terminate);
    assert_eq!(
        tell(&mut task, TaskEvent::BackendDone(false)),
        notify(ICaptureEvent::CaptureDisabled)
    );
    assert_eq!(tell(&mut task, TaskEvent::Done), Action::Park);
    assert_eq!(task.active_client(), None);
}

#[test]
fn a_refused_hook_stops_the_entry() {
    let mut task = two_clients(true);
    assert_eq!(tell(&mut task, enter(1)), Action::Hook(HookState::Connecting));
    assert_eq!(
        tell(&mut task, TaskEvent::HookDone(false)),
        Action::Hook(HookState::Error)
    );
    assert_eq!(tell(&mut task, TaskEvent::HookDone(true)), waiting());
    // no serial was used up
    request_entry(&mut task, 1, 0);
}

#[test]
fn an_unknown_client_cannot_be_entered() {
    let mut task = two_clients(true);
    let enter_only = CaptureRequest::Create(7, Position::Right, CaptureType::EnterOnly);
    assert_eq!(tell(&mut task, TaskEvent::Request(enter_only)), waiting());
    for handle in [7, 9] {
        assert_eq!(tell(&mut task, enter(handle)), Action::Hook(HookState::Error));
        assert_eq!(
            tell(&mut task, TaskEvent::HookDone(true)),
            notify(ICaptureEvent::ClientFailed)
        );
        assert_eq!(tell(&mut task, TaskEvent::Done), waiting());
    }
}

#[test]
fn create_then_destroy_leaves_no_trace() {
    let mut task = two_clients(true);
    let create = CaptureRequest::Create(8, Position::Bottom, CaptureType::Default);
    tell(&mut task, TaskEvent::Request(create));
    tell(&mut task, TaskEvent::BackendDone(true));
    assert!(task.accepts(&begin(8)));
    let destroy = || TaskEvent::Request(CaptureRequest::Destroy(8));
    assert_eq!(tell(&mut task, destroy()), Action::Destroy(8));
    assert_eq!(tell(&mut task, TaskEvent::BackendDone(true)), waiting());
    assert!(!task.accepts(&begin(8)));
    assert!(task.accepts(&begin(1)));
    // every registration under a handle goes
    for _ in 0..2 {
        let create = CaptureRequest::Create(8, Position::Top, CaptureType::Default);
        tell(&mut task, TaskEvent::Request(create));
        tell(&mut task, TaskEvent::BackendDone(true));
    }
    tell(&mut task, destroy());
    tell(&mut task, TaskEvent::BackendDone(true));
    assert!(!task.accepts(&begin(8)));
    assert!(task.accepts(&begin(2)));
}

#[test]
fn serials_count_the_entries() {
    let mut task = two_clients(true);
    for serial in 1..=5 {
        assert_eq!(task.started(), None);
        request_entry(&mut task, serial, 42);
        assert_eq!(task.started(), Some(42));
        acknowledge(&mut task, serial);
        assert_eq!(task.started(), None);
        tell(&mut task, TaskEvent::Request(CaptureRequest::Release(true)));
        follow_release(&mut task, true, vec![], serial);
        assert_eq!(tell(&mut task, TaskEvent::Sent(true)), waiting());
    }
}

#[test]
fn a_second_entry_is_ignored() {
    let mut task = two_clients(true);
    request_entry(&mut task, 1, 0);
    assert_eq!(tell(&mut task, enter(2)), retrying());
    assert_eq!(
        tell(&mut task, TaskEvent::Request(CaptureRequest::Reenable)),
        retrying()
    );
    acknowledge(&mut task, 1);
}

#[test]
fn hotkey_only_has_no_return_barriers() {
    let (mut task, _) = CaptureTask::new(vec![], true);
    assert_eq!(tell(&mut task, TaskEvent::Opened(false)), Action::Park);
    for (handle, capture_type) in [
        (1, CaptureType::EnterOnly),
        (2, CaptureType::Default),
        (3, CaptureType::EnterOnly),
        (4, CaptureType::Default),
    ] {
        let request = CaptureRequest::Create(handle, Position::Left, capture_type);
        assert_eq!(tell(&mut task, TaskEvent::Request(request)), Action::Park);
    }
    assert_eq!(
        tell(&mut task, TaskEvent::Request(CaptureRequest::Reenable)),
        Action::Open
    );
    tell(&mut task, TaskEvent::Opened(true));
    tell(&mut task, TaskEvent::Done);
    let create = |handle: CaptureHandle| Action::Create {
        handle,
        pos: Position::Left,
        cancellable: true,
    };
    assert_eq!(tell(&mut task, TaskEvent::Done), create(2));
    assert_eq!(tell(&mut task, TaskEvent::BackendDone(true)), create(4));
    assert_eq!(tell(&mut task, TaskEvent::BackendDone(true)), waiting());
    // and none to destroy
    let destroy = |handle: CaptureHandle| TaskEvent::Request(CaptureRequest::Destroy(handle));
    assert_eq!(tell(&mut task, destroy(3)), waiting());
    assert_eq!(tell(&mut task, destroy(4)), Action::Destroy(4));
    assert_eq!(tell(&mut task, TaskEvent::BackendDone(true)), waiting());
    assert!(!task.accepts(&destroy(4)));
    assert!(!task.accepts(&begin(4)));
}

#[test]
fn every_barrier_without_hotkey_only() {
    let mut task = session(false);
    let request = CaptureRequest::Create(1, Position::Right, CaptureType::EnterOnly);
    assert_eq!(
        tell(&mut task, TaskEvent::Request(request)),
        Action::Create {
            handle: 1,
            pos: Position::Right,
            cancellable: false
        }
    );
    assert_eq!(tell(&mut task, TaskEvent::BackendDone(true)), waiting());
    let destroy = TaskEvent::Request(CaptureRequest::Destroy(1));
    assert_eq!(tell(&mut task, destroy), Action::Destroy(1));
}

#[test]
fn an_enter_only_capture_is_released_at_once() {
    let mut task = two_clients(false);
    for (handle, pos) in [(5, Position::Right), (6, Position::Left)] {
        let request = CaptureRequest::Create(handle, pos, CaptureType::EnterOnly);
        tell(&mut task, TaskEvent::Request(request));
        tell(&mut task, TaskEvent::BackendDone(true));
    }
    // no default capture at the right
    assert_eq!(
        tell(&mut task, begin(5)),
        notify(ICaptureEvent::CaptureBegin(5))
    );
    assert_eq!(
        tell(&mut task, TaskEvent::Done),
        Action::Release { center: false }
    );
    assert_eq!(tell(&mut task, TaskEvent::BackendDone(true)), waiting());
    // one at the left
    assert_eq!(
        tell(&mut task, begin(6)),
        notify(ICaptureEvent::CaptureBegin(6))
    );
    assert_eq!(tell(&mut task, TaskEvent::Done), waiting());
    assert_eq!(task.active_client(), None);
}

#[test]
fn destroying_the_active_client_releases_first() {
    let mut task = two_clients(true);
    request_entry(&mut task, 1, 0);
    acknowledge(&mut task, 1);
    let destroy = TaskEvent::Request(CaptureRequest::Destroy(1));
    assert_eq!(tell(&mut task, destroy), Action::TakePressedKeys);
    follow_release(&mut task, false, vec![30], 1);
    assert_eq!(tell(&mut task, TaskEvent::Sent(true)), Action::Destroy(1));
    assert_eq!(tell(&mut task, TaskEvent::BackendDone(true)), waiting());
    assert!(!task.accepts(&begin(1)));
    assert!(task.accepts(&begin(2)));
}

#[test]
fn another_client_takes_over() {
    let mut task = two_clients(false);
    request_entry(&mut task, 1, 0);
    acknowledge(&mut task, 1);
    assert_eq!(
        tell(&mut task, begin(2)),
        notify(ICaptureEvent::CaptureBegin(2))
    );
    assert_eq!(
        tell_at(&mut task, TaskEvent::Done, SEC),
        notify(ICaptureEvent::ClientEntered(2))
    );
    assert_eq!(
        tell(&mut task, TaskEvent::Done),
        Action::Send {
            client: 2,
            message: ProtoEvent::HotkeyEnter {
                pos: ProtoPosition::Bottom,
                serial: 1
            }
        }
    );
    assert_eq!(tell(&mut task, TaskEvent::Sent(true)), retrying());
    assert_eq!(task.active_client(), Some(2));
}

#[test]
fn the_end_of_a_session_is_orderly() {
    for (event, word) in [
        (TaskEvent::Cancelled, HookState::Reset),
        (TaskEvent::CaptureEnded, HookState::Reset),
        (TaskEvent::CaptureFailed, HookState::Error),
    ] {
        let mut task = two_clients(true);
        request_entry(&mut task, 1, 0);
        assert_eq!(
            tell(&mut task, event.clone()),
            notify(ICaptureEvent::ClientLeft(1))
        );
        assert_eq!(tell(&mut task, TaskEvent::Done), Action::Hook(word));
        assert_eq!(tell(&mut task, TaskEvent::HookDone(true)), Action::Terminate);
        assert_eq!(
            tell(&mut task, TaskEvent::BackendDone(true)),
            notify(ICaptureEvent::CaptureDisabled)
        );
        assert_eq!(tell(&mut task, TaskEvent::Done), Action::Park);

        let mut task = two_clients(true);
        assert_eq!(tell(&mut task, event), Action::Hook(word));
    }
}

#[test]
fn a_barrier_that_cannot_be_created_shuts_down() {
    let (mut task, _) = CaptureTask::new(vec![], false);
    assert_eq!(tell(&mut task, TaskEvent::Cancelled), Action::Park);
    let request = CaptureRequest::Create(1, Position::Left, CaptureType::Default);
    tell(&mut task, TaskEvent::Request(request));
    tell(&mut task, TaskEvent::Request(CaptureRequest::Reenable));
    tell(&mut task, TaskEvent::Opened(true));
    tell(&mut task, TaskEvent::Done);
    assert_eq!(
        tell(&mut task, TaskEvent::Done),
        Action::Create {
            handle: 1,
            pos: Position::Left,
            cancellable: true
        }
    );
    assert_eq!(tell(&mut task, TaskEvent::BackendDone(false)), Action::Terminate);
    assert_eq!(
        tell(&mut task, TaskEvent::BackendDone(true)),
        notify(ICaptureEvent::CaptureDisabled)
    );
    assert_eq!(tell(&mut task, TaskEvent::Done), Action::Park);
    // cancelled in the middle, the session begins with the barriers there are
    tell(&mut task, TaskEvent::Request(CaptureRequest::Reenable));
    tell(&mut task, TaskEvent::Opened(true));
    tell(&mut task, TaskEvent::Done);
    tell(&mut task, TaskEvent::Done);
    assert_eq!(tell(&mut task, TaskEvent::Cancelled), waiting());
}

#[test]
fn no_switch_without_a_backend() {
    let (mut task, _) = CaptureTask::new(vec![], false);
    tell(&mut task, TaskEvent::Opened(false));
    for request in [CaptureRequest::Enter(1), CaptureRequest::Release(true)] {
        assert_eq!(
            tell(&mut task, TaskEvent::Request(request)),
            Action::Hook(HookState::Error)
        );
        assert_eq!(
            tell(&mut task, TaskEvent::HookDone(true)),
            notify(ICaptureEvent::ClientFailed)
        );
        assert_eq!(tell(&mut task, TaskEvent::Done), Action::Park);
    }
    let bind = CaptureRequest::SetReleaseBind(vec![1, 2]);
    assert_eq!(tell(&mut task, TaskEvent::Request(bind)), Action::Park);
    assert_eq!(task.release_bind(), &vec![1, 2]);
    let destroy = CaptureRequest::Destroy(3);
    assert_eq!(tell(&mut task, TaskEvent::Request(destroy)), Action::Park);
    assert_eq!(tell(&mut task, TaskEvent::Cancelled), Action::Stop);
    assert!(!task.accepts(&TaskEvent::Cancelled));
}

#[test]
fn the_release_bind_can_be_changed() {
    let mut task = two_clients(true);
    let bind = CaptureRequest::SetReleaseBind(vec![1]);
    assert_eq!(tell(&mut task, TaskEvent::Request(bind)), waiting());
    assert_eq!(task.release_bind(), &vec![1]);
}

#[test]
fn a_leave_without_an_active_client_gives_the_input_back() {
    let mut task = two_clients(false);
    let leave = TaskEvent::Received {
        handle: 2,
        event: ProtoEvent::Leave(4),
    };
    assert_eq!(tell(&mut task, leave), Action::TakePressedKeys);
    assert_eq!(
        tell(&mut task, TaskEvent::Keys(vec![30])),
        Action::Release { center: false }
    );
    assert_eq!(
        tell(&mut task, TaskEvent::BackendDone(true)),
        Action::Hook(HookState::Local)
    );
    assert_eq!(tell(&mut task, TaskEvent::HookDone(false)), waiting());
}

#[test]
fn a_cleanup_ends_two_hundred_milliseconds_after_it_began() {
    assert_eq!(cleanup_deadline(0), 200_000_000);
    assert_eq!(cleanup_deadline(7 * SEC), 7_200_000_000);
    assert_eq!(
        cleanup_deadline(u128::MAX - CLEANUP_TIMEOUT_NANOS as u128),
        u128::MAX
    );
}

#[test]
fn captures_are_added_in_order_and_removed_by_handle() {
    let (mut task, _) = CaptureTask::new(vec![], false);
    task.add_capture(1, Position::Left, CaptureType::EnterOnly);
    task.add_capture(2, Position::Right, CaptureType::Default);
    task.add_capture(1, Position::Top, CaptureType::Default);
    // the first entry of a handle counts
    assert_eq!(task.get_pos(1), Position::Left);
    assert_eq!(task.get_type(1), CaptureType::EnterOnly);
    assert!(!task.is_default_capture_at(Position::Left));
    assert!(task.is_default_capture_at(Position::Top));
    // every entry of the handle goes, the others stay
    task.remove_capture(1);
    assert!(!task.is_default_capture_at(Position::Top));
    assert_eq!(task.get_pos(2), Position::Right);
    assert_eq!(task.get_type(2), CaptureType::Default);
    // an unknown handle changes nothing
    task.remove_capture(1);
    assert!(task.is_default_capture_at(Position::Right));
    // adding a new one and removing it again leaves no trace
    task.add_capture(3, Position::Bottom, CaptureType::Default);
    task.remove_capture(3);
    assert!(!task.is_default_capture_at(Position::Bottom));
    assert!(task.is_default_capture_at(Position::Right));
}
