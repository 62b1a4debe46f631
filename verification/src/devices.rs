//! What the virtual keyboard and mouse do for their clients: laws on the events
//! that motion, scrolling, buttons and keys make them emit.

use crate::event::{Event, KeyboardEvent, PointerEvent};
use crate::uinput::{
    all_axes, all_buttons, all_keys, distance, emulation, law_no_scrolling_is_lost, motion,
    scroll_events, scrolls_fit, sum_of, Emulation, WheelAccum,
};
use vstd::prelude::*;

verus! {

// ---------------------------------------------------------------- scrolling

/// The sum of what was asked for on the vertical axis, or on all others.
pub open spec fn asked_for(vertical: bool, scrolls: Seq<(u8, i32)>) -> int
    decreases scrolls.len(),
{
    if scrolls.len() == 0 {
        0
    } else if vertical == (scrolls.last().0 == 0) {
        asked_for(vertical, scrolls.drop_last()) + scrolls.last().1
    } else {
        asked_for(vertical, scrolls.drop_last())
    }
}

/// Several scrolls, large or small and on either axis in turn: the high-resolution
/// events add up to exactly what was asked for, turned round on the vertical axis,
/// as the kernel counts that upwards.
pub proof fn law_scrolling_adds_up(wheels: WheelAccum, scrolls: Seq<(u8, i32)>)
    requires
        wheels.wf(),
        scrolls_fit(wheels, scrolls),
    ensures
        sum_of(scroll_events(wheels, scrolls), 0x0b) + asked_for(true, scrolls) == 0,
        sum_of(scroll_events(wheels, scrolls), 0x0c) == asked_for(false, scrolls),
{
    law_no_scrolling_is_lost(wheels, scrolls);
    lemma_distance(scrolls);
}

proof fn lemma_distance(scrolls: Seq<(u8, i32)>)
    ensures
        distance(true, scrolls) + asked_for(true, scrolls) == 0,
        distance(false, scrolls) == asked_for(false, scrolls),
    decreases scrolls.len(),
{
    if scrolls.len() > 0 {
        lemma_distance(scrolls.drop_last());
    }
}

/// One scroll downwards by `whole`: the high-resolution event moves up by minus
/// `whole`. With what was left on the wheel that makes up the full notches, which
/// the wheel event reports if there are any, and what is left then: less than a
/// notch of 120, in the same direction. The other wheel is not touched.
pub proof fn law_a_vertical_scroll(wheels: WheelAccum, whole: i32)
    requires
        whole != 0,
        wheels.fits(0, whole),
    ensures
        ({
            let events = wheels.scroll(0, whole);
            let after = wheels.after_scroll(0, whole);
            let total = wheels.vertical - whole;
            let notches = if events.len() == 2 {
                events[1].value as int
            } else {
                0
            };
            &&& events.len() == 1 || events.len() == 2
            &&& events[0].event_type == 2
            &&& events[0].code == 0x0b
            &&& events[0].value + whole == 0
            &&& events.len() == 2 ==> events[1].event_type == 2 && events[1].code == 0x08
            &&& events.len() == 2 <==> total >= 120 || total <= -120
            &&& total == 120 * notches + after.vertical
            &&& -120 < after.vertical < 120
            &&& total >= 0 ==> after.vertical >= 0
            &&& total <= 0 ==> after.vertical <= 0
            &&& after.horizontal == wheels.horizontal
        }),
{
}

/// One scroll to the right by `whole`, on any axis but the vertical one: as on that,
/// but not turned round.
pub proof fn law_a_horizontal_scroll(wheels: WheelAccum, axis: u8, whole: i32)
    requires
        axis != 0,
        whole != 0,
        wheels.fits(axis, whole),
    ensures
        ({
            let events = wheels.scroll(axis, whole);
            let after = wheels.after_scroll(axis, whole);
            let total = wheels.horizontal + whole;
            let notches = if events.len() == 2 {
                events[1].value as int
            } else {
                0
            };
            &&& events.len() == 1 || events.len() == 2
            &&& events[0].event_type == 2
            &&& events[0].code == 0x0c
            &&& events[0].value == whole
            &&& events.len() == 2 ==> events[1].event_type == 2 && events[1].code == 0x06
            &&& events.len() == 2 <==> total >= 120 || total <= -120
            &&& total == 120 * notches + after.horizontal
            &&& -120 < after.horizontal < 120
            &&& total >= 0 ==> after.horizontal >= 0
            &&& total <= 0 ==> after.horizontal <= 0
            &&& after.vertical == wheels.vertical
        }),
{
}

/// Where nothing is scrolled nothing is emitted. Every scroll is possible that the
/// numbers of the kernel can hold, and thus any by less than two thousand million.
pub proof fn law_which_scrolls_are_possible(wheels: WheelAccum, axis: u8, whole: i32)
    ensures
        wheels.scroll(axis, 0).len() == 0,
        axis == 0 ==> (wheels.fits(axis, whole) <==> whole > i32::MIN && i32::MIN
            <= wheels.vertical - whole <= i32::MAX),
        axis != 0 ==> (wheels.fits(axis, whole) <==> i32::MIN <= wheels.horizontal + whole
            <= i32::MAX),
        -120 < wheels.vertical < 120 && -120 < wheels.horizontal < 120 && -2_000_000_000 < whole
            < 2_000_000_000 ==> wheels.fits(axis, whole),
{
}

/// What two scrolls on one axis leave on the wheels is, up to full notches, what one
/// scroll by their sum leaves.
pub proof fn law_scrolls_can_be_split(wheels: WheelAccum, axis: u8, a: i32, b: i32, sum: i32)
    requires
        sum == a + b,
        wheels.fits(axis, a),
        wheels.after_scroll(axis, a).fits(axis, b),
        wheels.fits(axis, sum),
    ensures
        ({
            let twice = wheels.after_scroll(axis, a).after_scroll(axis, b);
            let once = wheels.after_scroll(axis, sum);
            &&& (twice.vertical - once.vertical) % 120 == 0
            &&& (twice.horizontal - once.horizontal) % 120 == 0
        }),
{
}

// ---------------------------------------------------------------- motion

/// Motion is emitted in full: on each axis the events add up to the steps, there is
/// at most one for an axis and none by zero, and the horizontal axis comes first.
pub proof fn law_motion_is_emitted_in_full(ix: i32, iy: i32)
    ensures
        ({
            let events = motion(ix, iy);
            &&& sum_of(events, 0x00) == ix
            &&& sum_of(events, 0x01) == iy
            &&& forall|i: int|
                0 <= i < events.len() ==> {
                    &&& (#[trigger] events[i]).event_type == 2
                    &&& events[i].code == 0x00 || events[i].code == 0x01
                    &&& events[i].value != 0
                }
            &&& forall|i: int, j: int|
                0 <= i < j < events.len() ==> (#[trigger] events[i]).code < (#[trigger] events[j]).code
        }),
{
    reveal_with_fuel(sum_of, 3);
    let events = motion(ix, iy);
    if events.len() == 2 {
        assert(events.drop_last().drop_last().len() == 0);
    } else if events.len() == 1 {
        assert(events.drop_last().len() == 0);
    }
}

// ---------------------------------------------------------------- input

/// Every pointer event reaches the mouse as it is: motion and scrolling with all of
/// their amounts, and a button with its code, unless that is no code of the kernel,
/// and with its state, whose bits are kept.
pub proof fn law_the_mouse_follows_the_pointer(event: PointerEvent)
    ensures
        ({
            let emitted = emulation(Event::Pointer(event));
            match event {
                PointerEvent::Motion { dx, dy, .. } => emitted matches Emulation::Motion {
                    dx: x,
                    dy: y,
                } && x == dx && y == dy,
                PointerEvent::Axis { axis, value, .. } => emitted matches Emulation::Scroll {
                    axis: a,
                    value: v,
                } && a == axis && v == value,
                PointerEvent::AxisDiscrete120 { axis, value } => emitted matches
                    Emulation::ScrollHiRes { axis: a, value: v } && a == axis && v == value,
                PointerEvent::Button { button, state, .. } => {
                    &&& button > 0xffff <==> emitted is Nothing
                    &&& button <= 0xffff ==> (emitted matches Emulation::Mouse(e) && {
                        &&& e.event_type == 1
                        &&& e.code == button
                        &&& (e.value - state) % 0x1_0000_0000 == 0
                        &&& state < 0x8000_0000 ==> e.value == state
                    })
                },
            }
        }),
{
}

/// Every key event reaches the keyboard with its code and its state, unless the code
/// is greater than any that a keyboard has; masks of modifiers reach no device.
pub proof fn law_the_keyboard_follows_the_keys(event: KeyboardEvent)
    ensures
        ({
            let emitted = emulation(Event::Keyboard(event));
            match event {
                KeyboardEvent::Key { key, state, .. } => {
                    &&& key > 0x2ff <==> emitted is Nothing
                    &&& key <= 0x2ff ==> (emitted matches Emulation::Keyboard(e) && e.event_type
                        == 1 && e.code == key && e.value == state)
                },
                KeyboardEvent::Modifiers { .. } => emitted is Nothing,
            }
        }),
{
}

/// Different events on the same button or key make the devices emit different events:
/// nothing that they can emit is confused.
pub proof fn law_emitted_events_are_told_apart(a: Event, b: Event)
    requires
        emulation(a) == emulation(b),
        !(emulation(a) is Nothing),
    ensures
        a matches Event::Keyboard(KeyboardEvent::Key { key, state, .. }) ==> (b matches
            Event::Keyboard(KeyboardEvent::Key { key: k, state: s, .. }) && k == key && s == state),
        a matches Event::Pointer(PointerEvent::Button { button, state, .. }) ==> (b matches
            Event::Pointer(PointerEvent::Button { button: n, state: s, .. }) && n == button && s
            == state),
{
}

/// The devices are made with every key code there is, the eight buttons of a mouse,
/// and the axes for motion and for both wheels in both resolutions, and nothing else.
pub proof fn law_what_the_devices_can_emit(code: u16)
    ensures
        all_keys().contains(code) <==> code <= 0x2ff,
        all_buttons().contains(code) <==> 0x110 <= code <= 0x117,
        all_axes().contains(code) <==> code == 0x00 || code == 0x01 || code == 0x06 || code == 0x08
            || code == 0x0b || code == 0x0c,
{
}

} // verus!
