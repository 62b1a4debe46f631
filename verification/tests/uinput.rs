use evdev::{EventType, KeyCode, RelativeAxisCode};
use lan_mouse::event::{Event, KeyboardEvent, PointerEvent};
use lan_mouse::uinput::{
    consume, key, keyboard_keys, motion_events, mouse_axes, mouse_buttons, rel, to_evdev,
    DeviceEvent, Emulation, WheelAccum, BTN_BACK, BTN_EXTRA, BTN_FORWARD, BTN_LEFT, BTN_MIDDLE,
    BTN_RIGHT, BTN_SIDE, BTN_TASK, EV_KEY, EV_REL, KEY_MAX, REL_HWHEEL, REL_HWHEEL_HI_RES,
    REL_WHEEL, REL_WHEEL_HI_RES, REL_X, REL_Y,
};

#[test]
fn codes_are_those_of_the_kernel() {
    assert_eq!(EV_KEY, EventType::KEY.0);
    assert_eq!(EV_REL, EventType::RELATIVE.0);
    assert_eq!(REL_X, RelativeAxisCode::REL_X.0);
    assert_eq!(REL_Y, RelativeAxisCode::REL_Y.0);
    assert_eq!(REL_WHEEL, RelativeAxisCode::REL_WHEEL.0);
    assert_eq!(REL_HWHEEL, RelativeAxisCode::REL_HWHEEL.0);
    assert_eq!(REL_WHEEL_HI_RES, RelativeAxisCode::REL_WHEEL_HI_RES.0);
    assert_eq!(REL_HWHEEL_HI_RES, RelativeAxisCode::REL_HWHEEL_HI_RES.0);
    assert_eq!(BTN_LEFT, KeyCode::BTN_LEFT.code());
    assert_eq!(BTN_RIGHT, KeyCode::BTN_RIGHT.code());
    assert_eq!(BTN_MIDDLE, KeyCode::BTN_MIDDLE.code());
    assert_eq!(BTN_SIDE, KeyCode::BTN_SIDE.code());
    assert_eq!(BTN_EXTRA, KeyCode::BTN_EXTRA.code());
    assert_eq!(BTN_FORWARD, KeyCode::BTN_FORWARD.code());
    assert_eq!(BTN_BACK, KeyCode::BTN_BACK.code());
    assert_eq!(BTN_TASK, KeyCode::BTN_TASK.code());
}

#[test]
fn keyboard_has_every_key() {
    let keys = keyboard_keys();
    let codes: Vec<u16> = keys.attributes().iter().map(|k| k.code()).collect();
    let expected: Vec<u16> = (0..=KEY_MAX).collect();
    assert_eq!(codes, expected);
    assert!(keys.attributes().contains(KeyCode::KEY_A));
    assert!(keys.attributes().contains(KeyCode::new(0x2ff)));
}

#[test]
fn mouse_has_its_buttons() {
    let buttons = mouse_buttons();
    let codes: Vec<u16> = buttons.attributes().iter().map(|k| k.code()).collect();
    assert_eq!(
        codes,
        vec![0x110, 0x111, 0x112, 0x113, 0x114, 0x115, 0x116, 0x117]
    );
    assert!(!buttons.attributes().contains(KeyCode::KEY_A));
}

#[test]
fn mouse_has_its_axes() {
    let axes = mouse_axes();
    let codes: Vec<u16> = axes.attributes().iter().map(|a| a.0).collect();
    assert_eq!(codes, vec![0x00, 0x01, 0x06, 0x08, 0x0b, 0x0c]);
    assert!(!axes.attributes().contains(RelativeAxisCode::REL_DIAL));
}

#[test]
fn device_events_keep_their_fields() {
    let events = to_evdev(&vec![rel(REL_WHEEL, -3), key(KeyCode::KEY_A.code(), 1)]);
    assert_eq!(events.len(), 2);
    assert_eq!(events[0].event_type(), EventType::RELATIVE);
    assert_eq!(events[0].code(), REL_WHEEL);
    assert_eq!(events[0].value(), -3);
    assert_eq!(events[1].event_type(), EventType::KEY);
    assert_eq!(events[1].code(), KeyCode::KEY_A.code());
    assert_eq!(events[1].value(), 1);
    assert!(to_evdev(&Vec::new()).is_empty());
}

#[test]
fn motion_moves_each_axis_that_has_any() {
    assert!(motion_events(0, 0).is_empty());
    assert_eq!(motion_events(5, 0), vec![rel(REL_X, 5)]);
    assert_eq!(motion_events(0, -7), vec![rel(REL_Y, -7)]);
    assert_eq!(motion_events(-1, 2), vec![rel(REL_X, -1), rel(REL_Y, 2)]);
}

#[test]
fn vertical_scrolling_is_turned_round() {
    let mut wheels = WheelAccum::new();
    assert_eq!(
        wheels.emit_scroll_hi_res(0, 120),
        vec![rel(REL_WHEEL_HI_RES, -120), rel(REL_WHEEL, -1)]
    );
    assert_eq!(
        wheels.emit_scroll_hi_res(0, -240),
        vec![rel(REL_WHEEL_HI_RES, 240), rel(REL_WHEEL, 2)]
    );
    assert_eq!(wheels, WheelAccum::new());
}

#[test]
fn horizontal_scrolling_keeps_its_direction() {
    let mut wheels = WheelAccum::new();
    assert_eq!(
        wheels.emit_scroll_hi_res(1, 130),
        vec![rel(REL_HWHEEL_HI_RES, 130), rel(REL_HWHEEL, 1)]
    );
    assert_eq!(wheels, WheelAccum { vertical: 0, horizontal: 10 });
    assert_eq!(
        wheels.emit_scroll_hi_res(7, 5),
        vec![rel(REL_HWHEEL_HI_RES, 5)]
    );
    assert_eq!(wheels.horizontal, 15);
}

#[test]
fn nothing_is_emitted_without_a_whole_unit() {
    let mut wheels = WheelAccum { vertical: 30, horizontal: -30 };
    assert!(wheels.emit_scroll_hi_res(0, 0).is_empty());
    assert_eq!(wheels, WheelAccum { vertical: 30, horizontal: -30 });
}

#[test]
fn small_scrolls_add_up_to_notches() {
    let mut wheels = WheelAccum::new();
    let mut hi_res = 0;
    let mut notches = 0;
    for _ in 0..25 {
        for event in wheels.emit_scroll_hi_res(0, -50) {
            if event.code == REL_WHEEL {
                notches += event.value;
            } else {
                assert_eq!(event.code, REL_WHEEL_HI_RES);
                hi_res += event.value;
            }
        }
    }
    assert_eq!(hi_res, 1250);
    assert_eq!(notches, 10);
    assert_eq!(wheels.vertical, 50);
    assert_eq!(wheels.horizontal, 0);
}

#[test]
fn both_wheels_add_up_in_any_order() {
    let mut wheels = WheelAccum::new();
    let mut sums = std::collections::BTreeMap::new();
    for (axis, whole) in [(0, 70), (1, 70), (0, 70), (1, -200), (0, 0), (1, 45), (0, -300)] {
        for event in wheels.emit_scroll_hi_res(axis, whole) {
            *sums.entry(event.code).or_insert(0) += event.value;
        }
    }
    assert_eq!(sums[&REL_WHEEL_HI_RES], 160);
    assert_eq!(sums[&REL_WHEEL], 1);
    assert_eq!(wheels.vertical, 40);
    assert_eq!(sums[&REL_HWHEEL_HI_RES], -85);
    assert_eq!(sums[&REL_HWHEEL], -1);
    assert_eq!(wheels.horizontal, 35);
}

#[test]
fn scrolling_that_overflows_is_recognised() {
    let wheels = WheelAccum { vertical: 1, horizontal: 1 };
    assert!(!wheels.can_scroll(0, i32::MIN));
    assert!(!wheels.can_scroll(0, -i32::MAX));
    assert!(!wheels.can_scroll(1, i32::MAX));
    assert!(wheels.can_scroll(1, i32::MIN));
    assert!(wheels.can_scroll(0, i32::MAX));
    assert!(WheelAccum::new().can_scroll(1, i32::MAX));
}

#[test]
fn keys_in_range_reach_the_keyboard() {
    let press = |key: u32, state: u8| {
        consume(Event::Keyboard(KeyboardEvent::Key { time: 9, key, state }))
    };
    assert_eq!(press(30, 1), Emulation::Keyboard(key(30, 1)));
    assert_eq!(press(30, 255), Emulation::Keyboard(key(30, 255)));
    assert_eq!(press(0x2ff, 0), Emulation::Keyboard(key(0x2ff, 0)));
    assert_eq!(press(0x300, 1), Emulation::Nothing);
    assert_eq!(press(0x1_001e, 1), Emulation::Nothing);
}

#[test]
fn buttons_in_range_reach_the_mouse() {
    let click = |button: u32, state: u32| {
        consume(Event::Pointer(PointerEvent::Button { time: 0, button, state }))
    };
    assert_eq!(
        click(0x110, 1),
        Emulation::Mouse(DeviceEvent { event_type: EV_KEY, code: 0x110, value: 1 })
    );
    assert_eq!(click(0xffff, 0), Emulation::Mouse(key(0xffff, 0)));
    assert_eq!(click(0x110, u32::MAX), Emulation::Mouse(key(0x110, -1)));
    assert_eq!(click(0x1_0000, 1), Emulation::Nothing);
}

#[test]
fn fractions_are_handed_on() {
    let dx = 0.25f64.to_bits();
    let dy = (-1.5f64).to_bits();
    assert_eq!(
        consume(Event::Pointer(PointerEvent::Motion { time: 0, dx, dy })),
        Emulation::Motion { dx, dy }
    );
    assert_eq!(
        consume(Event::Pointer(PointerEvent::Axis { time: 0, axis: 1, value: dx })),
        Emulation::Scroll { axis: 1, value: dx }
    );
    assert_eq!(
        consume(Event::Pointer(PointerEvent::AxisDiscrete120 { axis: 0, value: -120 })),
        Emulation::ScrollHiRes { axis: 0, value: -120 }
    );
}

#[test]
fn modifier_masks_are_dropped() {
    let event = Event::Keyboard(KeyboardEvent::Modifiers {
        depressed: 1,
        latched: 0,
        locked: 2,
        group: 0,
    });
    assert_eq!(consume(event), Emulation::Nothing);
}
