//! Input events as they are captured, sent and emulated.

use vstd::prelude::*;

verus! {

/// A pointer event. Motion and continuous scrolling are measured in fractions
/// of a pixel: such a field holds the IEEE 754 bit pattern of the number.
#[derive(Clone, Copy, Debug, PartialEq, Eq, Structural)]
pub enum PointerEvent {
    /// relative motion
    Motion { time: u32, dx: u64, dy: u64 },
    /// a button changed its state
    Button { time: u32, button: u32, state: u32 },
    /// continuous scrolling
    Axis { time: u32, axis: u8, value: u64 },
    /// wheel scrolling in 1/120 of a notch
    AxisDiscrete120 { axis: u8, value: i32 },
}

/// A keyboard event.
#[derive(Clone, Copy, Debug, PartialEq, Eq, Structural)]
pub enum KeyboardEvent {
    /// a key changed its state: 0 is up, 1 is down
    Key { time: u32, key: u32, state: u8 },
    /// the modifier masks changed
    Modifiers { depressed: u32, latched: u32, locked: u32, group: u32 },
}

/// An input event.
#[derive(Clone, Copy, Debug, PartialEq, Eq, Structural)]
pub enum Event {
    Pointer(PointerEvent),
    Keyboard(KeyboardEvent),
}

/// What a capture backend reports of a client's screen side.
#[derive(Clone, Copy, Debug, PartialEq, Eq, Structural)]
pub enum CaptureEvent {
    /// the client's side was entered
    Begin,
    /// input while the client's side is entered
    Input(Event),
}

/// The event that lets go of `key`.
pub open spec fn key_up_event(key: u32) -> Event {
    Event::Keyboard(KeyboardEvent::Key { time: 0, key, state: 0 })
}

/// The event that clears every modifier mask.
pub open spec fn no_modifiers_event() -> Event {
    Event::Keyboard(KeyboardEvent::Modifiers { depressed: 0, latched: 0, locked: 0, group: 0 })
}

} // verus!
