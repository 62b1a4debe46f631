//! The messages between a capturing machine and its clients.

use crate::event::Event;
use crate::position::ProtoPosition;
use vstd::prelude::*;

verus! {

/// A message.
#[derive(Clone, Copy, Debug, PartialEq, Eq, Structural)]
pub enum ProtoEvent {
    /// the pointer crossed over to the client, which it enters at the given side
    Enter(ProtoPosition),
    /// a hotkey moved the input to the client; the serial tells the entries apart
    HotkeyEnter { pos: ProtoPosition, serial: u32 },
    /// the input leaves: with the serial of the entry that it ends
    Leave(u32),
    /// an entry is acknowledged: with its serial
    Ack(u32),
    /// an input event
    Input(Event),
    /// a message that capturing pays no attention to
    Other,
}

} // verus!
