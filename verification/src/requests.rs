//! The inbound protocol: the actions a client may request. The wire decode
//! of these lives outside the library; the handler receives them as plain
//! values.

use vstd::prelude::*;

verus! {

/// The three recognized client actions.
#[derive(Clone, Copy, Debug, PartialEq, Eq, Structural)]
pub enum Action {
    MakeMove,
    StartGame,
    RestartGame,
}

/// The cell a move targets, as sent by the client.
#[derive(Clone, Copy, Debug, PartialEq, Eq, Structural)]
pub struct MakeMovePayload {
    pub x: u8,
    pub y: u8,
}

/// One decoded inbound message: an action, and for a move its target cell.
#[derive(Clone, Copy, Debug, PartialEq, Eq, Structural)]
pub struct Payload {
    pub action: Action,
    pub move_payload: Option<MakeMovePayload>,
}

} // verus!
