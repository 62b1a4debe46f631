//! The events of a virtual keyboard and a virtual mouse.
//!
//! Two devices stand for the clients' input: what they can emit is fixed when
//! they are made ([`keyboard_keys`], [`mouse_buttons`], [`mouse_axes`]), and
//! [`consume`] decides what an input event makes them emit. The codes are those
//! of the kernel's input subsystem.

use crate::event::{Event, KeyboardEvent, PointerEvent};
use vstd::prelude::*;

verus! {

/// The type of an event that reports a key or a button.
pub const EV_KEY: u16 = 0x01;

/// The type of an event that reports movement on a relative axis.
pub const EV_REL: u16 = 0x02;

pub const REL_X: u16 = 0x00;

pub const REL_Y: u16 = 0x01;

pub const REL_HWHEEL: u16 = 0x06;

pub const REL_WHEEL: u16 = 0x08;

pub const REL_WHEEL_HI_RES: u16 = 0x0b;

pub const REL_HWHEEL_HI_RES: u16 = 0x0c;

pub const BTN_LEFT: u16 = 0x110;

pub const BTN_RIGHT: u16 = 0x111;

pub const BTN_MIDDLE: u16 = 0x112;

pub const BTN_SIDE: u16 = 0x113;

pub const BTN_EXTRA: u16 = 0x114;

pub const BTN_FORWARD: u16 = 0x115;

pub const BTN_BACK: u16 = 0x116;

pub const BTN_TASK: u16 = 0x117;

/// Key codes range over `0..=KEY_MAX`; all of them are registered, so that any
/// scancode the capturing side sends is accepted by the kernel.
pub const KEY_MAX: u16 = 0x2ff;

/// How many key codes a set of keys has room for.
pub const KEY_COUNT: u16 = 0x300;

/// How many axis codes a set of relative axes has room for.
pub const REL_COUNT: u16 = 0x10;

/// One notch of a scroll wheel in high-resolution units.
pub const HI_RES_NOTCH: i32 = 120;

// ---------------------------------------------------------------- capabilities

/// Declares `evdev::KeyCode`, the code of a key or a button.
#[verifier::external_type_specification]
#[verifier::external_body]
pub struct ExKeyCode(evdev::KeyCode);

/// Declares `evdev::RelativeAxisCode`, the code of a relative axis.
#[verifier::external_type_specification]
#[verifier::external_body]
pub struct ExRelativeAxisCode(evdev::RelativeAxisCode);

/// Declares `evdev::AttributeSetRef`, the borrowed form of a set of codes, in
/// which a device takes its capabilities.
#[verifier::external_type_specification]
#[verifier::external_body]
#[verifier::reject_recursive_types(T)]
pub struct ExAttributeSetRef<T>(evdev::AttributeSetRef<T>);

/// A set of keys and buttons, held in an `evdev::AttributeSet`. Verus cannot be
/// told of that type itself, as the bound of its parameter has no public name.
#[verifier::external_body]
pub struct KeySet {
    attributes: evdev::AttributeSet<evdev::KeyCode>,
}

/// A set of relative axes, held in an `evdev::AttributeSet`.
#[verifier::external_body]
pub struct AxisSet {
    attributes: evdev::AttributeSet<evdev::RelativeAxisCode>,
}

/// The codes in a set of keys.
pub uninterp spec fn key_codes(keys: KeySet) -> Set<u16>;

/// The codes in a set of axes.
pub uninterp spec fn axis_codes(axes: AxisSet) -> Set<u16>;

/// The codes in a borrowed set of keys.
pub uninterp spec fn key_ref_codes(keys: &evdev::AttributeSetRef<evdev::KeyCode>) -> Set<u16>;

/// The codes in a borrowed set of axes.
pub uninterp spec fn axis_ref_codes(
    axes: &evdev::AttributeSetRef<evdev::RelativeAxisCode>,
) -> Set<u16>;

/// Calls `evdev::AttributeSet::new` for keys: the new set is empty.
#[verifier::external_body]
fn empty_keys() -> (res: KeySet)
    ensures
        key_codes(res) == Set::<u16>::empty(),
{
    KeySet { attributes: evdev::AttributeSet::<evdev::KeyCode>::new() }
}

/// Calls `evdev::AttributeSetRef::insert` for keys: the code is in the set
/// afterwards, and nothing else changes. The call panics on a code for which the
/// set has no bit.
#[verifier::external_body]
fn insert_key(keys: &mut KeySet, code: u16)
    requires
        code < KEY_COUNT,
    ensures
        key_codes(*final(keys)) == key_codes(*old(keys)).insert(code),
{
    keys.attributes.insert(evdev::KeyCode::new(code));
}

/// Calls `deref` of `evdev::AttributeSet` for keys: the borrowed form holds the
/// same codes.
#[verifier::external_body]
fn borrow_keys(keys: &KeySet) -> (res: &evdev::AttributeSetRef<evdev::KeyCode>)
    ensures
        key_ref_codes(res) == key_codes(*keys),
{
    &keys.attributes
}

/// Calls `evdev::AttributeSet::new` for relative axes: the new set is empty.
#[verifier::external_body]
fn empty_axes() -> (res: AxisSet)
    ensures
        axis_codes(res) == Set::<u16>::empty(),
{
    AxisSet { attributes: evdev::AttributeSet::<evdev::RelativeAxisCode>::new() }
}

/// Calls `evdev::AttributeSetRef::insert` for relative axes: the code is in the
/// set afterwards, and nothing else changes. The call panics on a code for which
/// the set has no bit.
#[verifier::external_body]
fn insert_axis(axes: &mut AxisSet, code: u16)
    requires
        code < REL_COUNT,
    ensures
        axis_codes(*final(axes)) == axis_codes(*old(axes)).insert(code),
{
    axes.attributes.insert(evdev::RelativeAxisCode(code));
}

/// Calls `deref` of `evdev::AttributeSet` for relative axes: the borrowed form
/// holds the same codes.
#[verifier::external_body]
fn borrow_axes(axes: &AxisSet) -> (res: &evdev::AttributeSetRef<evdev::RelativeAxisCode>)
    ensures
        axis_ref_codes(res) == axis_codes(*axes),
{
    &axes.attributes
}

impl KeySet {
    /// The set in the form in which a device takes it.
    pub fn attributes(&self) -> (res: &evdev::AttributeSetRef<evdev::KeyCode>)
        ensures
            key_ref_codes(res) == key_codes(*self),
    {
        borrow_keys(self)
    }
}

impl AxisSet {
    /// The set in the form in which a device takes it.
    pub fn attributes(&self) -> (res: &evdev::AttributeSetRef<evdev::RelativeAxisCode>)
        ensures
            axis_ref_codes(res) == axis_codes(*self),
    {
        borrow_axes(self)
    }
}

/// The key codes.
pub open spec fn all_keys() -> Set<u16> {
    Set::new(|code: u16| code <= KEY_MAX)
}

/// The buttons of the mouse.
pub open spec fn all_buttons() -> Set<u16> {
    set![
        BTN_LEFT,
        BTN_RIGHT,
        BTN_MIDDLE,
        BTN_SIDE,
        BTN_EXTRA,
        BTN_FORWARD,
        BTN_BACK,
        BTN_TASK,
    ]
}

/// The axes of the mouse: motion, and both wheels in both resolutions.
pub open spec fn all_axes() -> Set<u16> {
    set![REL_X, REL_Y, REL_WHEEL, REL_HWHEEL, REL_WHEEL_HI_RES, REL_HWHEEL_HI_RES]
}

/// The keys of the virtual keyboard.
pub fn keyboard_keys() -> (res: KeySet)
    ensures
        key_codes(res) == all_keys(),
{
    let mut keys = empty_keys();
    let mut code: u16 = 0;
    while code <= KEY_MAX
        invariant
            code <= KEY_COUNT,
            KEY_COUNT == KEY_MAX + 1,
            key_codes(keys) =~= Set::new(|c: u16| c < code),
        decreases KEY_COUNT - code,
    {
        insert_key(&mut keys, code);
        code = code + 1;
    }
    keys
}

/// The buttons of the virtual mouse.
pub fn mouse_buttons() -> (res: KeySet)
    ensures
        key_codes(res) == all_buttons(),
{
    let mut buttons = empty_keys();
    insert_key(&mut buttons, BTN_LEFT);
    insert_key(&mut buttons, BTN_RIGHT);
    insert_key(&mut buttons, BTN_MIDDLE);
    insert_key(&mut buttons, BTN_SIDE);
    insert_key(&mut buttons, BTN_EXTRA);
    insert_key(&mut buttons, BTN_FORWARD);
    insert_key(&mut buttons, BTN_BACK);
    insert_key(&mut buttons, BTN_TASK);
    buttons
}

/// The axes of the virtual mouse.
pub fn mouse_axes() -> (res: AxisSet)
    ensures
        axis_codes(res) == all_axes(),
{
    let mut axes = empty_axes();
    insert_axis(&mut axes, REL_X);
    insert_axis(&mut axes, REL_Y);
    insert_axis(&mut axes, REL_WHEEL);
    insert_axis(&mut axes, REL_HWHEEL);
    insert_axis(&mut axes, REL_WHEEL_HI_RES);
    insert_axis(&mut axes, REL_HWHEEL_HI_RES);
    axes
}

// ---------------------------------------------------------------- events

/// An event of a virtual device.
#[derive(Clone, Copy, Debug, PartialEq, Eq, Structural)]
pub struct DeviceEvent {
    pub event_type: u16,
    pub code: u16,
    pub value: i32,
}

/// Movement by `value` on a relative axis.
pub fn rel(code: u16, value: i32) -> (res: DeviceEvent)
    ensures
        res == (DeviceEvent { event_type: EV_REL, code, value }),
{
    DeviceEvent { event_type: EV_REL, code, value }
}

/// A key or button in the given state.
pub fn key(code: u16, state: i32) -> (res: DeviceEvent)
    ensures
        res == (DeviceEvent { event_type: EV_KEY, code, value: state }),
{
    DeviceEvent { event_type: EV_KEY, code, value: state }
}

/// Declares `evdev::InputEvent`, the form in which a device emits an event.
#[verifier::external_type_specification]
#[verifier::external_body]
pub struct ExInputEvent(evdev::InputEvent);

/// What `evdev::InputEvent::new` makes of a type, a code and a value.
pub uninterp spec fn evdev_event(event_type: u16, code: u16, value: i32) -> evdev::InputEvent;

/// Specifies `evdev::InputEvent::new`: the event is made of the three arguments
/// and nothing else, as its time is zero, and it holds all three of them, so that
/// no other arguments make the same event.
pub assume_specification[ evdev::InputEvent::new ](
    type_: u16,
    code: u16,
    value: i32,
) -> (res: evdev::InputEvent)
    ensures
        res == evdev_event(type_, code, value),
        forall|t: u16, c: u16, v: i32| #[trigger]
            evdev_event(t, c, v) == res ==> t == type_ && c == code && v == value,
;

/// The events in the form in which a device emits them, in the same order; each
/// of them is the form of no other event.
pub fn to_evdev(events: &Vec<DeviceEvent>) -> (res: Vec<evdev::InputEvent>)
    ensures
        res@.len() == events@.len(),
        forall|i: int|
            0 <= i < events@.len() ==> #[trigger] res@[i] == evdev_event(
                events@[i].event_type,
                events@[i].code,
                events@[i].value,
            ),
        forall|i: int, t: u16, c: u16, v: i32|
            #![trigger res@[i], evdev_event(t, c, v)]
            0 <= i < events@.len() && res@[i] == evdev_event(t, c, v) ==> events@[i] == (
            DeviceEvent { event_type: t, code: c, value: v }),
{
    let mut res: Vec<evdev::InputEvent> = Vec::new();
    let mut i: usize = 0;
    while i < events.len()
        invariant
            i <= events.len(),
            res@.len() == i,
            forall|j: int|
                0 <= j < i ==> #[trigger] res@[j] == evdev_event(
                    events@[j].event_type,
                    events@[j].code,
                    events@[j].value,
                ),
            forall|j: int, t: u16, c: u16, v: i32|
                #![trigger res@[j], evdev_event(t, c, v)]
                0 <= j < i && res@[j] == evdev_event(t, c, v) ==> events@[j] == (DeviceEvent {
                    event_type: t,
                    code: c,
                    value: v,
                }),
        decreases events.len() - i,
    {
        res.push(evdev::InputEvent::new(events[i].event_type, events[i].code, events[i].value));
        i = i + 1;
    }
    res
}

// ---------------------------------------------------------------- motion

/// The events for a motion by whole steps: one for each axis on which there is any.
pub open spec fn motion(ix: i32, iy: i32) -> Seq<DeviceEvent> {
    let x = if ix != 0 {
        seq![DeviceEvent { event_type: EV_REL, code: REL_X, value: ix }]
    } else {
        seq![]
    };
    let y = if iy != 0 {
        seq![DeviceEvent { event_type: EV_REL, code: REL_Y, value: iy }]
    } else {
        seq![]
    };
    x + y
}

/// The events for a motion by whole steps; there is nothing to emit if the list is empty.
pub fn motion_events(ix: i32, iy: i32) -> (events: Vec<DeviceEvent>)
    ensures
        events@ == motion(ix, iy),
{
    let mut events: Vec<DeviceEvent> = Vec::new();
    if ix != 0 {
        events.push(rel(REL_X, ix));
    }
    if iy != 0 {
        events.push(rel(REL_Y, iy));
    }
    events
}

// ---------------------------------------------------------------- scrolling

/// How many full notches lie between zero and `total`, with the sign of `total`.
pub open spec fn notches_in(total: int) -> int {
    if total >= 0 {
        total / (HI_RES_NOTCH as int)
    } else {
        -(-total / (HI_RES_NOTCH as int))
    }
}

/// The kernel's value for scrolling by `whole`. Its vertical axis points up,
/// while vertical scrolling is counted downwards; the horizontal axes agree.
pub open spec fn wheel_value(axis: u8, whole: i32) -> int {
    if axis == 0 {
        -whole
    } else {
        whole as int
    }
}

/// High-resolution scrolling since the last full notch, for each wheel.
#[derive(Clone, Copy, Debug, PartialEq, Eq, Structural)]
pub struct WheelAccum {
    pub vertical: i32,
    pub horizontal: i32,
}

impl WheelAccum {
    /// What is left on each wheel is less than a notch.
    pub open spec fn wf(self) -> bool {
        &&& -HI_RES_NOTCH < self.vertical < HI_RES_NOTCH
        &&& -HI_RES_NOTCH < self.horizontal < HI_RES_NOTCH
    }

    /// What is left on the wheel of the given axis: 0 is vertical, any other horizontal.
    pub open spec fn on(self, axis: u8) -> int {
        if axis == 0 {
            self.vertical as int
        } else {
            self.horizontal as int
        }
    }

    /// The scrolling on the given axis since the last full notch, with `whole` added.
    pub open spec fn total(self, axis: u8, whole: i32) -> int {
        self.on(axis) + wheel_value(axis, whole)
    }

    /// Whether scrolling by `whole` stays within the numbers that an event can hold.
    pub open spec fn fits(self, axis: u8, whole: i32) -> bool {
        &&& wheel_value(axis, whole) <= i32::MAX
        &&& i32::MIN <= self.total(axis, whole) <= i32::MAX
    }

    /// The events for scrolling by `whole`.
    pub open spec fn scroll(self, axis: u8, whole: i32) -> Seq<DeviceEvent> {
        let hi_res = DeviceEvent {
            event_type: EV_REL,
            code: if axis == 0 {
                REL_WHEEL_HI_RES
            } else {
                REL_HWHEEL_HI_RES
            },
            value: wheel_value(axis, whole) as i32,
        };
        let notches = notches_in(self.total(axis, whole));
        let notched = DeviceEvent {
            event_type: EV_REL,
            code: if axis == 0 {
                REL_WHEEL
            } else {
                REL_HWHEEL
            },
            value: notches as i32,
        };
        if whole == 0 {
            seq![]
        } else if notches == 0 {
            seq![hi_res]
        } else {
            seq![hi_res, notched]
        }
    }

    /// What is left on the wheels after scrolling by `whole`.
    pub open spec fn after_scroll(self, axis: u8, whole: i32) -> WheelAccum {
        let total = self.total(axis, whole);
        let left = total - HI_RES_NOTCH * notches_in(total);
        if axis == 0 {
            WheelAccum { vertical: left as i32, ..self }
        } else {
            WheelAccum { horizontal: left as i32, ..self }
        }
    }

    /// Wheels at which nothing is left.
    pub fn new() -> (res: WheelAccum)
        ensures
            res == (WheelAccum { vertical: 0, horizontal: 0 }),
            res.wf(),
    {
        WheelAccum { vertical: 0, horizontal: 0 }
    }

    /// Whether [`Self::emit_scroll_hi_res`] can be called with a `whole` other than zero.
    pub fn can_scroll(&self, axis: u8, whole: i32) -> (res: bool)
        ensures
            res == self.fits(axis, whole),
    {
        let value: i64 = if axis == 0 {
            -(whole as i64)
        } else {
            whole as i64
        };
        let left: i32 = if axis == 0 {
            self.vertical
        } else {
            self.horizontal
        };
        let total: i64 = left as i64 + value;
        value <= i32::MAX as i64 && i32::MIN as i64 <= total && total <= i32::MAX as i64
    }

    /// The events for scrolling by `whole` high-resolution units: one on the
    /// high-resolution axis, and one on the wheel axis, for consumers that ignore
    /// the former, when full notches have come together. There is nothing to emit
    /// if the list is empty.
    pub fn emit_scroll_hi_res(&mut self, axis: u8, whole: i32) -> (events: Vec<DeviceEvent>)
        requires
            whole != 0 ==> old(self).fits(axis, whole),
        ensures
            old(self).wf() ==> final(self).wf(),
            events@ == old(self).scroll(axis, whole),
            *final(self) == (if whole == 0 {
                *old(self)
            } else {
                old(self).after_scroll(axis, whole)
            }),
    {
        let mut events: Vec<DeviceEvent> = Vec::new();
        if whole == 0 {
            return events;
        }
        let vertical = axis == 0;
        let value: i32 = if vertical {
            -whole
        } else {
            whole
        };
        let hi_res_code: u16 = if vertical {
            REL_WHEEL_HI_RES
        } else {
            REL_HWHEEL_HI_RES
        };
        let wheel_code: u16 = if vertical {
            REL_WHEEL
        } else {
            REL_HWHEEL
        };
        events.push(rel(hi_res_code, value));
        let total: i32 = if vertical {
            self.vertical + value
        } else {
            self.horizontal + value
        };
        let notches: i32 = total / HI_RES_NOTCH;
        if notches != 0 {
            events.push(rel(wheel_code, notches));
        }
        let left: i32 = total - notches * HI_RES_NOTCH;
        if vertical {
            self.vertical = left;
        } else {
            self.horizontal = left;
        }
        events
    }
}

// ---------------------------------------------------------------- consuming

/// What an input event makes the devices do.
#[derive(Clone, Copy, Debug, PartialEq, Eq, Structural)]
pub enum Emulation {
    /// nothing
    Nothing,
    /// move the pointer by fractions of a step, given as bit patterns
    Motion { dx: u64, dy: u64 },
    /// scroll by fractions of a pixel, given as a bit pattern
    Scroll { axis: u8, value: u64 },
    /// scroll by high-resolution units
    ScrollHiRes { axis: u8, value: i32 },
    /// emit an event on the mouse
    Mouse(DeviceEvent),
    /// emit an event on the keyboard
    Keyboard(DeviceEvent),
}

/// The number whose two's complement bits are those of `state`.
pub open spec fn signed(state: u32) -> int {
    if state <= i32::MAX {
        state as int
    } else {
        state - 0x1_0000_0000
    }
}

/// What `event` makes the devices do. A button or a key whose code is out of
/// range is dropped. The modifier masks are dropped too: a kernel device knows
/// none, its readers derive them from the keys.
pub open spec fn emulation(event: Event) -> Emulation {
    match event {
        Event::Pointer(PointerEvent::Motion { dx, dy, .. }) => Emulation::Motion { dx, dy },
        Event::Pointer(PointerEvent::Axis { axis, value, .. }) => Emulation::Scroll {
            axis,
            value,
        },
        Event::Pointer(PointerEvent::AxisDiscrete120 { axis, value }) => Emulation::ScrollHiRes {
            axis,
            value,
        },
        Event::Pointer(PointerEvent::Button { button, state, .. }) => if button <= u16::MAX {
            Emulation::Mouse(
                DeviceEvent {
                    event_type: EV_KEY,
                    code: button as u16,
                    value: signed(state) as i32,
                },
            )
        } else {
            Emulation::Nothing
        },
        Event::Keyboard(KeyboardEvent::Key { key, state, .. }) => if key <= KEY_MAX {
            Emulation::Keyboard(
                DeviceEvent { event_type: EV_KEY, code: key as u16, value: state as i32 },
            )
        } else {
            Emulation::Nothing
        },
        Event::Keyboard(KeyboardEvent::Modifiers { .. }) => Emulation::Nothing,
    }
}

/// Decides what `event` makes the devices do.
pub fn consume(event: Event) -> (res: Emulation)
    ensures
        res == emulation(event),
{
    match event {
        Event::Pointer(e) => match e {
            PointerEvent::Motion { dx, dy, .. } => Emulation::Motion { dx, dy },
            PointerEvent::Button { button, state, .. } => {
                if button <= u16::MAX as u32 {
                    proof {
                        assert(state <= 0x7fff_ffff ==> state as i32 == state) by (bit_vector);
                        assert(state > 0x7fff_ffff ==> state as i32 == state - 0x1_0000_0000)
                            by (bit_vector);
                    }
                    Emulation::Mouse(key(button as u16, state as i32))
                } else {
                    Emulation::Nothing
                }
            },
            PointerEvent::Axis { axis, value, .. } => Emulation::Scroll { axis, value },
            PointerEvent::AxisDiscrete120 { axis, value } => Emulation::ScrollHiRes {
                axis,
                value,
            },
        },
        Event::Keyboard(e) => match e {
            KeyboardEvent::Key { key: code, state, .. } => {
                if code <= KEY_MAX as u32 {
                    Emulation::Keyboard(key(code as u16, state as i32))
                } else {
                    Emulation::Nothing
                }
            },
            KeyboardEvent::Modifiers { .. } => Emulation::Nothing,
        },
    }
}

// ---------------------------------------------------------------- laws

/// The keyboard is made with every key that it is ever asked to emit, and drops
/// exactly the keys that are out of range.
pub proof fn law_emitted_keys_are_registered(event: Event)
    ensures
        emulation(event) matches Emulation::Keyboard(e) ==> all_keys().contains(e.code)
            && e.event_type == EV_KEY,
        event matches Event::Keyboard(KeyboardEvent::Key { key, .. }) ==> (emulation(event) is Nothing
            <==> key > KEY_MAX),
{
}

/// The mouse is made with every axis on which motion and scrolling are emitted.
pub proof fn law_emitted_axes_are_registered(
    ix: i32,
    iy: i32,
    wheels: WheelAccum,
    axis: u8,
    whole: i32,
)
    ensures
        forall|i: int|
            0 <= i < motion(ix, iy).len() ==> all_axes().contains(
                (#[trigger] motion(ix, iy)[i]).code,
            ),
        forall|i: int|
            0 <= i < wheels.scroll(axis, whole).len() ==> all_axes().contains(
                (#[trigger] wheels.scroll(axis, whole)[i]).code,
            ),
{
}

/// What is left on the wheels after several scrolls, each on an axis of its own.
pub open spec fn wheels_after(wheels: WheelAccum, scrolls: Seq<(u8, i32)>) -> WheelAccum
    decreases scrolls.len(),
{
    if scrolls.len() == 0 {
        wheels
    } else {
        let before = wheels_after(wheels, scrolls.drop_last());
        let (axis, whole) = scrolls.last();
        if whole == 0 {
            before
        } else {
            before.after_scroll(axis, whole)
        }
    }
}

/// The events that several scrolls emit.
pub open spec fn scroll_events(wheels: WheelAccum, scrolls: Seq<(u8, i32)>) -> Seq<DeviceEvent>
    decreases scrolls.len(),
{
    if scrolls.len() == 0 {
        seq![]
    } else {
        let (axis, whole) = scrolls.last();
        scroll_events(wheels, scrolls.drop_last()) + wheels_after(
            wheels,
            scrolls.drop_last(),
        ).scroll(axis, whole)
    }
}

/// Each of several scrolls stays within the numbers that an event can hold.
pub open spec fn scrolls_fit(wheels: WheelAccum, scrolls: Seq<(u8, i32)>) -> bool
    decreases scrolls.len(),
{
    scrolls.len() == 0 || {
        let (axis, whole) = scrolls.last();
        &&& scrolls_fit(wheels, scrolls.drop_last())
        &&& whole != 0 ==> wheels_after(wheels, scrolls.drop_last()).fits(axis, whole)
    }
}

/// The sum of the values of the events with the given code.
pub open spec fn sum_of(events: Seq<DeviceEvent>, code: u16) -> int
    decreases events.len(),
{
    if events.len() == 0 {
        0
    } else {
        sum_of(events.drop_last(), code) + if events.last().code == code {
            events.last().value as int
        } else {
            0
        }
    }
}

/// The distance that several scrolls cover on the vertical wheel, or on the
/// horizontal one, counted as the kernel counts it.
pub open spec fn distance(vertical: bool, scrolls: Seq<(u8, i32)>) -> int
    decreases scrolls.len(),
{
    if scrolls.len() == 0 {
        0
    } else {
        let (axis, whole) = scrolls.last();
        distance(vertical, scrolls.drop_last()) + if vertical == (axis == 0) {
            wheel_value(axis, whole)
        } else {
            0
        }
    }
}

proof fn lemma_sum_of_scroll(events: Seq<DeviceEvent>, wheels: WheelAccum, axis: u8, whole: i32)
    requires
        wheels.wf(),
        whole != 0 ==> wheels.fits(axis, whole),
    ensures
        ({
            let all = events + wheels.scroll(axis, whole);
            let value = wheel_value(axis, whole);
            let notches = if whole == 0 {
                0
            } else {
                notches_in(wheels.total(axis, whole))
            };
            &&& axis == 0 ==> {
                &&& sum_of(all, REL_WHEEL_HI_RES) == sum_of(events, REL_WHEEL_HI_RES) + value
                &&& sum_of(all, REL_WHEEL) == sum_of(events, REL_WHEEL) + notches
                &&& sum_of(all, REL_HWHEEL_HI_RES) == sum_of(events, REL_HWHEEL_HI_RES)
                &&& sum_of(all, REL_HWHEEL) == sum_of(events, REL_HWHEEL)
            }
            &&& axis != 0 ==> {
                &&& sum_of(all, REL_HWHEEL_HI_RES) == sum_of(events, REL_HWHEEL_HI_RES) + value
                &&& sum_of(all, REL_HWHEEL) == sum_of(events, REL_HWHEEL) + notches
                &&& sum_of(all, REL_WHEEL_HI_RES) == sum_of(events, REL_WHEEL_HI_RES)
                &&& sum_of(all, REL_WHEEL) == sum_of(events, REL_WHEEL)
            }
        }),
{
    reveal_with_fuel(sum_of, 3);
    let scrolled = wheels.scroll(axis, whole);
    let all = events + scrolled;
    if scrolled.len() == 0 {
        assert(all =~= events);
    } else if scrolled.len() == 1 {
        assert(all.drop_last() =~= events);
    } else {
        assert(all.drop_last().drop_last() =~= events);
    }
}

/// No scrolling is lost, in whatever order the wheels turn: for each wheel the
/// high-resolution events add up to the distance scrolled, and the wheel events to
/// its full notches; what is left is less than a notch and is carried on. A wheel
/// that does not turn is not touched.
pub proof fn law_no_scrolling_is_lost(wheels: WheelAccum, scrolls: Seq<(u8, i32)>)
    requires
        wheels.wf(),
        scrolls_fit(wheels, scrolls),
    ensures
        ({
            let after = wheels_after(wheels, scrolls);
            let events = scroll_events(wheels, scrolls);
            &&& after.wf()
            &&& sum_of(events, REL_WHEEL_HI_RES) == distance(true, scrolls)
            &&& sum_of(events, REL_HWHEEL_HI_RES) == distance(false, scrolls)
            &&& wheels.vertical + sum_of(events, REL_WHEEL_HI_RES) == HI_RES_NOTCH * sum_of(
                events,
                REL_WHEEL,
            ) + after.vertical
            &&& wheels.horizontal + sum_of(events, REL_HWHEEL_HI_RES) == HI_RES_NOTCH * sum_of(
                events,
                REL_HWHEEL,
            ) + after.horizontal
            &&& (forall|i: int| 0 <= i < scrolls.len() ==> (#[trigger] scrolls[i]).0 != 0)
                ==> after.vertical == wheels.vertical
            &&& (forall|i: int| 0 <= i < scrolls.len() ==> (#[trigger] scrolls[i]).0 == 0)
                ==> after.horizontal == wheels.horizontal
        }),
    decreases scrolls.len(),
{
    if scrolls.len() > 0 {
        let init = scrolls.drop_last();
        let (axis, whole) = scrolls.last();
        law_no_scrolling_is_lost(wheels, init);
        lemma_sum_of_scroll(
            scroll_events(wheels, init),
            wheels_after(wheels, init),
            axis,
            whole,
        );
        if forall|i: int| 0 <= i < scrolls.len() ==> (#[trigger] scrolls[i]).0 != 0 {
            assert forall|i: int| 0 <= i < init.len() implies (#[trigger] init[i]).0 != 0 by {
                assert(scrolls[i].0 != 0);
            }
        }
        if forall|i: int| 0 <= i < scrolls.len() ==> (#[trigger] scrolls[i]).0 == 0 {
            assert forall|i: int| 0 <= i < init.len() implies (#[trigger] init[i]).0 == 0 by {
                assert(scrolls[i].0 == 0);
            }
        }
        assert(scrolls[scrolls.len() - 1] == scrolls.last());
    }
}

} // verus!
