//! The outbound protocol: the three response bodies and the functions that
//! build them from the library's state. The JSON envelope around them is
//! encoded outside the library; every field here is pinned down exactly, so
//! the encoder has nothing to decide.

use vstd::prelude::*;

use crate::errors::{code_str, ErrorCode};
use crate::game::{mark_str, PlayerMark};
use crate::room::{reported_turn, Connection, GameView, Room};

verus! {

/// The discriminant of the response envelope.
#[derive(Clone, Copy, Debug, PartialEq, Eq, Structural)]
pub enum ResponseType {
    RoomState,
    GameState,
    Error,
}

/// A join/leave/full notice: the recipient's room, the occupancy that
/// resulted, a human-readable message, whether the request succeeded, and
/// the recipient's own mark.
pub struct RoomStateResponse {
    pub room_id: String,
    pub num_connections: usize,
    pub message: String,
    pub success: bool,
    pub my_mark: String,
}

/// A full picture of one room's game, broadcast after every successful
/// action.
pub struct GameStateResponse {
    pub room_id: String,
    pub board: Vec<Vec<Option<String>>>,
    pub current_turn: Option<String>,
    pub winner: Option<String>,
    pub started: bool,
    pub moves_count: u8,
}

/// An error notice, sent only to the connection that caused it.
pub struct ErrorResponse {
    pub room_id: String,
    pub code: String,
    pub message: String,
}

/// An optional mark rendered as an optional token: occupied cells, the
/// current turn and the winner are all written this way.
pub open spec fn cell_matches(s: Option<String>, c: Option<PlayerMark>) -> bool {
    match c {
        Some(m) => s matches Some(t) && t@ == mark_str(m),
        None => s is None,
    }
}

/// Renders one optional mark as its optional token.
fn render_cell(c: &Option<PlayerMark>) -> (r: Option<String>)
    ensures
        cell_matches(r, *c),
{
    match c {
        Some(m) => Some(m.to_string()),
        None => None,
    }
}

/// Renders the flat nine-cell board as three rows of three optional
/// tokens: the cell `(x, y)` of the board appears at row `y`, column `x`.
pub fn serialize_board(board: &Vec<Option<PlayerMark>>) -> (r: Vec<Vec<Option<String>>>)
    requires
        board@.len() == 9,
    ensures
        r@.len() == 3,
        forall|y: int| 0 <= y < 3 ==> (#[trigger] r@[y])@.len() == 3,
        forall|y: int, x: int|
            0 <= y < 3 && 0 <= x < 3 ==> cell_matches(#[trigger] r@[y]@[x], board@[y * 3 + x]),
{
    let mut r: Vec<Vec<Option<String>>> = Vec::new();
    let mut y: usize = 0;
    while y < 3
        invariant
            board@.len() == 9,
            y <= 3,
            r@.len() == y,
            forall|v: int| 0 <= v < y ==> (#[trigger] r@[v])@.len() == 3,
            forall|v: int, x: int|
                0 <= v < y && 0 <= x < 3 ==> cell_matches(#[trigger] r@[v]@[x], board@[v * 3 + x]),
        decreases 3 - y,
    {
        let mut row: Vec<Option<String>> = Vec::new();
        let mut x: usize = 0;
        while x < 3
            invariant
                board@.len() == 9,
                y < 3,
                x <= 3,
                row@.len() == x,
                forall|u: int|
                    0 <= u < x ==> cell_matches(#[trigger] row@[u], board@[y * 3 + u]),
            decreases 3 - x,
        {
            row.push(render_cell(&board[y * 3 + x]));
            x = x + 1;
        }
        r.push(row);
        y = y + 1;
    }
    r
}

impl GameStateResponse {
    /// Every field of a game-state response, pinned to the room's view:
    /// the board cell by cell, the reported turn (absent before a start and
    /// after a conclusion, including a full-board draw), the winner, and
    /// the bookkeeping.
    pub open spec fn describes(self, room_id: Seq<char>, g: GameView) -> bool {
        &&& self.room_id@ == room_id
        &&& self.board@.len() == 3
        &&& forall|y: int| 0 <= y < 3 ==> (#[trigger] self.board@[y])@.len() == 3
        &&& forall|y: int, x: int|
            0 <= y < 3 && 0 <= x < 3 ==> cell_matches(
                #[trigger] self.board@[y]@[x],
                g.board[y * 3 + x],
            )
        &&& cell_matches(self.current_turn, reported_turn(g))
        &&& cell_matches(self.winner, g.winner)
        &&& self.started == g.started
        &&& self.moves_count as int == g.moves_count
    }
}

/// Builds the game-state response for one room.
pub fn build_game_state(room_id: &String, room: &Room) -> (r: GameStateResponse)
    requires
        room@.board.len() == 9,
    ensures
        r.describes(room_id@, room@),
{
    let current_turn: Option<String> = if room.started && room.winner.is_none()
        && room.moves_count < 9 {
        Some(room.current_turn.to_string())
    } else {
        None
    };
    GameStateResponse {
        room_id: room_id.clone(),
        board: serialize_board(&room.board),
        current_turn,
        winner: render_cell(&room.winner),
        started: room.started,
        moves_count: room.moves_count,
    }
}

/// The notice a rejected join receives. The recipient holds no seat, so
/// `my_mark` carries the first mark as a placeholder.
pub fn build_room_full_response(room_id: &String, num_connections: usize) -> (r: RoomStateResponse)
    ensures
        r.room_id@ == room_id@,
        r.num_connections == num_connections,
        r.message@ == "Room is full"@,
        !r.success,
        r.my_mark@ == mark_str(PlayerMark::X),
{
    RoomStateResponse {
        room_id: room_id.clone(),
        num_connections,
        message: "Room is full".to_owned(),
        success: false,
        my_mark: PlayerMark::X.to_string(),
    }
}

/// The per-recipient join announcements for a snapshot: every participant
/// is told the new occupancy and its own mark.
pub fn build_join_responses(room_id: &String, snapshot: &Vec<Connection>) -> (rs: Vec<
    RoomStateResponse,
>)
    ensures
        rs@.len() == snapshot@.len(),
        forall|k: int|
            0 <= k < snapshot@.len() ==> {
                let r = #[trigger] rs@[k];
                &&& r.room_id@ == room_id@
                &&& r.num_connections == snapshot@.len()
                &&& r.message@ == "Someone joined the room"@
                &&& r.success
                &&& r.my_mark@ == mark_str(snapshot@[k].mark)
            },
{
    let mut rs: Vec<RoomStateResponse> = Vec::new();
    let n = snapshot.len();
    let mut k: usize = 0;
    while k < n
        invariant
            n == snapshot@.len(),
            k <= n,
            rs@.len() == k,
            forall|v: int|
                0 <= v < k ==> {
                    let r = #[trigger] rs@[v];
                    &&& r.room_id@ == room_id@
                    &&& r.num_connections == snapshot@.len()
                    &&& r.message@ == "Someone joined the room"@
                    &&& r.success
                    &&& r.my_mark@ == mark_str(snapshot@[v].mark)
                },
        decreases n - k,
    {
        rs.push(
            RoomStateResponse {
                room_id: room_id.clone(),
                num_connections: n,
                message: "Someone joined the room".to_owned(),
                success: true,
                my_mark: snapshot[k].mark.to_string(),
            },
        );
        k = k + 1;
    }
    rs
}

/// The text of a leave notice, which names the recipient's own mark.
pub open spec fn leave_message(m: PlayerMark) -> Seq<char> {
    match m {
        PlayerMark::X => "Player x left the room"@,
        PlayerMark::O => "Player o left the room"@,
    }
}

/// The per-recipient leave announcements for a snapshot of the remaining
/// participants: each is told the resulting occupancy and its own mark.
pub fn build_leave_responses(room_id: &String, snapshot: &Vec<Connection>) -> (rs: Vec<
    RoomStateResponse,
>)
    ensures
        rs@.len() == snapshot@.len(),
        forall|k: int|
            0 <= k < snapshot@.len() ==> {
                let r = #[trigger] rs@[k];
                &&& r.room_id@ == room_id@
                &&& r.num_connections == snapshot@.len()
                &&& r.message@ == leave_message(snapshot@[k].mark)
                &&& r.success
                &&& r.my_mark@ == mark_str(snapshot@[k].mark)
            },
{
    let mut rs: Vec<RoomStateResponse> = Vec::new();
    let n = snapshot.len();
    let mut k: usize = 0;
    while k < n
        invariant
            n == snapshot@.len(),
            k <= n,
            rs@.len() == k,
            forall|v: int|
                0 <= v < k ==> {
                    let r = #[trigger] rs@[v];
                    &&& r.room_id@ == room_id@
                    &&& r.num_connections == snapshot@.len()
                    &&& r.message@ == leave_message(snapshot@[v].mark)
                    &&& r.success
                    &&& r.my_mark@ == mark_str(snapshot@[v].mark)
                },
        decreases n - k,
    {
        let message = match snapshot[k].mark {
            PlayerMark::X => "Player x left the room".to_owned(),
            PlayerMark::O => "Player o left the room".to_owned(),
        };
        rs.push(
            RoomStateResponse {
                room_id: room_id.clone(),
                num_connections: n,
                message,
                success: true,
                my_mark: snapshot[k].mark.to_string(),
            },
        );
        k = k + 1;
    }
    rs
}

/// The error notice for one failure: the code token serves as both the
/// machine-readable code and the human-readable message.
pub fn build_error_response(room_id: &String, code: ErrorCode) -> (r: ErrorResponse)
    ensures
        r.room_id@ == room_id@,
        r.code@ == code_str(code),
        r.message@ == code_str(code),
{
    ErrorResponse { room_id: room_id.clone(), code: code.code(), message: code.code() }
}

} // verus!
