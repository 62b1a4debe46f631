//! The sides of a screen, as the frontend, the capture backend and the protocol name them.

use vstd::prelude::*;

verus! {

/// The side at which the frontend places a client.
#[derive(Clone, Copy, Debug, PartialEq, Eq, Structural)]
pub enum ClientPosition {
    Left,
    Right,
    Top,
    Bottom,
}

/// The side at which a capture waits for the pointer.
#[derive(Clone, Copy, Debug, PartialEq, Eq, Structural)]
pub enum Position {
    Left,
    Right,
    Top,
    Bottom,
}

/// The side that a message names.
#[derive(Clone, Copy, Debug, PartialEq, Eq, Structural)]
pub enum ProtoPosition {
    Left,
    Right,
    Top,
    Bottom,
}

/// Where a side lies as seen from the middle of the screen: x grows to the
/// right and y grows downwards.
pub struct Direction {
    pub x: int,
    pub y: int,
}

impl Direction {
    /// The direction the other way round.
    pub open spec fn reversed(self) -> Direction {
        Direction { x: -self.x, y: -self.y }
    }
}

impl ClientPosition {
    pub open spec fn direction(self) -> Direction {
        match self {
            ClientPosition::Left => Direction { x: -1, y: 0 },
            ClientPosition::Right => Direction { x: 1, y: 0 },
            ClientPosition::Top => Direction { x: 0, y: -1 },
            ClientPosition::Bottom => Direction { x: 0, y: 1 },
        }
    }
}

impl Position {
    pub open spec fn direction(self) -> Direction {
        match self {
            Position::Left => Direction { x: -1, y: 0 },
            Position::Right => Direction { x: 1, y: 0 },
            Position::Top => Direction { x: 0, y: -1 },
            Position::Bottom => Direction { x: 0, y: 1 },
        }
    }

    /// The side across the screen.
    pub fn opposite(self) -> (res: Position)
        ensures
            res.direction() == self.direction().reversed(),
    {
        match self {
            Position::Left => Position::Right,
            Position::Right => Position::Left,
            Position::Top => Position::Bottom,
            Position::Bottom => Position::Top,
        }
    }
}

impl ProtoPosition {
    pub open spec fn direction(self) -> Direction {
        match self {
            ProtoPosition::Left => Direction { x: -1, y: 0 },
            ProtoPosition::Right => Direction { x: 1, y: 0 },
            ProtoPosition::Top => Direction { x: 0, y: -1 },
            ProtoPosition::Bottom => Direction { x: 0, y: 1 },
        }
    }
}

/// The side of the client's screen that borders on the side `pos` of this
/// screen, as a message names it.
pub open spec fn facing(pos: Position) -> ProtoPosition {
    match pos {
        Position::Left => ProtoPosition::Right,
        Position::Right => ProtoPosition::Left,
        Position::Top => ProtoPosition::Bottom,
        Position::Bottom => ProtoPosition::Top,
    }
}

/// The capture side for a client that the frontend places at `pos`.
pub fn to_capture_pos(pos: ClientPosition) -> (res: Position)
    ensures
        res.direction() == pos.direction(),
{
    match pos {
        ClientPosition::Left => Position::Left,
        ClientPosition::Right => Position::Right,
        ClientPosition::Top => Position::Top,
        ClientPosition::Bottom => Position::Bottom,
    }
}

/// The name of a capture side in a message.
pub fn to_proto_pos(pos: Position) -> (res: ProtoPosition)
    ensures
        res.direction() == pos.direction(),
{
    match pos {
        Position::Left => ProtoPosition::Left,
        Position::Right => ProtoPosition::Right,
        Position::Top => ProtoPosition::Top,
        Position::Bottom => ProtoPosition::Bottom,
    }
}

} // verus!
