//! The error taxonomy: every recoverable condition the server reports to the
//! connection that triggered it, with its stable machine-readable token.

use vstd::prelude::*;

verus! {

/// A local, recoverable failure of a join, a game action or a lookup. Each
/// variant is reported only to the connection that caused it and never
/// disturbs the rest of the room.
#[derive(Clone, Copy, Debug, PartialEq, Eq, Structural)]
pub enum ErrorCode {
    /// A join was rejected because the room already holds two connections.
    RoomFull,
    /// A start was requested while a game is already running.
    GameAlreadyStarted,
    /// A start or restart was requested with fewer than two connections.
    NotEnoughPlayers,
    /// A move was made before any game was started.
    GameNotStarted,
    /// A move was made after a winner was decided.
    GameAlreadyFinished,
    /// A move was made by the player whose turn it is not.
    NotYourTurn,
    /// A move named a cell outside the 3x3 board.
    OutOfBounds,
    /// A move named a cell that already holds a mark.
    CellOccupied,
    /// An inbound message could not be decoded.
    InvalidJson,
    /// A move action arrived without its move payload.
    MissingMovePayload,
    /// The named room no longer exists.
    RoomNotFound,
}

/// The stable wire token of each error.
pub open spec fn code_str(c: ErrorCode) -> Seq<char> {
    match c {
        ErrorCode::RoomFull => "room_full"@,
        ErrorCode::GameAlreadyStarted => "game_already_started"@,
        ErrorCode::NotEnoughPlayers => "not_enough_players"@,
        ErrorCode::GameNotStarted => "game_not_started"@,
        ErrorCode::GameAlreadyFinished => "game_already_finished"@,
        ErrorCode::NotYourTurn => "not_your_turn"@,
        ErrorCode::OutOfBounds => "out_of_bounds"@,
        ErrorCode::CellOccupied => "cell_occupied"@,
        ErrorCode::InvalidJson => "invalid_json"@,
        ErrorCode::MissingMovePayload => "missing_move_payload"@,
        ErrorCode::RoomNotFound => "room_not_found"@,
    }
}

impl ErrorCode {
    /// The machine-readable token of this error.
    pub fn code(&self) -> (r: String)
        ensures
            r@ == code_str(*self),
    {
        match self {
            ErrorCode::RoomFull => "room_full".to_owned(),
            ErrorCode::GameAlreadyStarted => "game_already_started".to_owned(),
            ErrorCode::NotEnoughPlayers => "not_enough_players".to_owned(),
            ErrorCode::GameNotStarted => "game_not_started".to_owned(),
            ErrorCode::GameAlreadyFinished => "game_already_finished".to_owned(),
            ErrorCode::NotYourTurn => "not_your_turn".to_owned(),
            ErrorCode::OutOfBounds => "out_of_bounds".to_owned(),
            ErrorCode::CellOccupied => "cell_occupied".to_owned(),
            ErrorCode::InvalidJson => "invalid_json".to_owned(),
            ErrorCode::MissingMovePayload => "missing_move_payload".to_owned(),
            ErrorCode::RoomNotFound => "room_not_found".to_owned(),
        }
    }
}

} // verus!
