//! A room: up to two connected participants and one game of tic-tac-toe.
//!
//! The game part of a room is modelled by [`GameView`]; every method's
//! contract pins the new view down as a function of the old one, and the
//! laws at the end of the file state the properties a caller may rely on:
//! the move-count bookkeeping, turn alternation, draw detection and the
//! rejection of a second start.

use vstd::prelude::*;

use crate::errors::ErrorCode;
use crate::game::{
    cell_index, count_marks, empty_board, lemma_count_bounds, lemma_count_update,
    lemma_empty_board_count, lemma_no_win_no_winner, mark_wins, other, spec_winner, PlayerMark,
};

verus! {

/// An opaque connection identifier, unique for the process lifetime.
pub type ConnectionId = u64;

/// One participant of a room: its identifier, the outbound channel its
/// messages are queued on, and its assigned mark.
pub struct Connection {
    pub id: ConnectionId,
    pub sender: tokio::sync::mpsc::UnboundedSender<String>,
    pub mark: PlayerMark,
}

/// The mathematical model of a room's game part.
pub struct GameView {
    pub board: Seq<Option<PlayerMark>>,
    pub started: bool,
    pub current_turn: PlayerMark,
    pub winner: Option<PlayerMark>,
    pub moves_count: int,
}

/// One match context: the connected participants and the game state.
pub struct Room {
    pub connections: Vec<Connection>,
    pub board: Vec<Option<PlayerMark>>,
    pub started: bool,
    pub current_turn: PlayerMark,
    pub winner: Option<PlayerMark>,
    pub moves_count: u8,
}

impl View for Room {
    type V = GameView;

    open spec fn view(&self) -> GameView {
        GameView {
            board: self.board@,
            started: self.started,
            current_turn: self.current_turn,
            winner: self.winner,
            moves_count: self.moves_count as int,
        }
    }
}

/// The game bookkeeping is consistent: nine cells, and `moves_count` counts
/// exactly the occupied ones.
pub open spec fn game_wf(g: GameView) -> bool {
    &&& g.board.len() == 9
    &&& g.moves_count == count_marks(g.board)
}

/// A room's internal invariant: consistent game bookkeeping and at most two
/// participants. (Identifier reuse after the allocator wraps is accepted, so
/// distinctness of the two identifiers is not part of the invariant.)
pub open spec fn room_wf(r: Room) -> bool {
    &&& game_wf(r@)
    &&& r.connections@.len() <= 2
}

/// A game reset to its starting position, as both start and restart produce.
pub open spec fn fresh_game() -> GameView {
    GameView {
        board: empty_board(),
        started: true,
        current_turn: PlayerMark::X,
        winner: None,
        moves_count: 0,
    }
}

/// Starting is allowed when no game is running and both seats are taken.
pub open spec fn start_ok(g: GameView, num_connections: int) -> bool {
    !g.started && num_connections >= 2
}

/// The error a rejected start reports.
pub open spec fn start_err(g: GameView) -> ErrorCode {
    if g.started {
        ErrorCode::GameAlreadyStarted
    } else {
        ErrorCode::NotEnoughPlayers
    }
}

/// A move by `m` at `(x, y)` is allowed: the game runs, it is `m`'s turn,
/// and the cell is on the board and free.
pub open spec fn move_ok(g: GameView, m: PlayerMark, x: u8, y: u8) -> bool {
    &&& g.started
    &&& g.winner is None
    &&& m == g.current_turn
    &&& x <= 2 && y <= 2
    &&& g.board[cell_index(x as int, y as int)] is None
}

/// The error a rejected move reports, checked in the order the rules are.
pub open spec fn move_err(g: GameView, m: PlayerMark, x: u8, y: u8) -> ErrorCode {
    if !g.started {
        ErrorCode::GameNotStarted
    } else if g.winner is Some {
        ErrorCode::GameAlreadyFinished
    } else if m != g.current_turn {
        ErrorCode::NotYourTurn
    } else if x > 2 || y > 2 {
        ErrorCode::OutOfBounds
    } else {
        ErrorCode::CellOccupied
    }
}

/// The game after an allowed move by `m` at `(x, y)`: the mark is written,
/// the winner re-evaluated, and the turn passes on only while the game
/// continues.
pub open spec fn move_result(g: GameView, m: PlayerMark, x: u8, y: u8) -> GameView {
    let b = g.board.update(cell_index(x as int, y as int), Some(m));
    let w = spec_winner(b);
    GameView {
        board: b,
        started: g.started,
        current_turn: if w is Some || g.moves_count + 1 >= 9 {
            g.current_turn
        } else {
            other(m)
        },
        winner: w,
        moves_count: g.moves_count + 1,
    }
}

/// The game is still in progress after this view: no winner yet and free
/// cells remain.
pub open spec fn game_continues(g: GameView) -> bool {
    g.winner is None && g.moves_count < 9
}

impl Room {
    /// A fresh, empty room: no participants, no game started.
    pub fn new() -> (r: Room)
        ensures
            r.connections@.len() == 0,
            r@ == (GameView {
                board: empty_board(),
                started: false,
                current_turn: PlayerMark::X,
                winner: None,
                moves_count: 0,
            }),
            room_wf(r),
    {
        let r = Room {
            connections: Vec::new(),
            board: new_board(),
            started: false,
            current_turn: PlayerMark::X,
            winner: None,
            moves_count: 0,
        };
        proof {
            lemma_empty_board_count();
        }
        r
    }

    /// Starts the game: rejected if one is already running or a seat is
    /// empty, otherwise the board is reset and `X` moves first.
    pub fn start_game(&mut self) -> (r: Result<(), ErrorCode>)
        requires
            game_wf(old(self)@),
        ensures
            r is Ok <==> start_ok(old(self)@, old(self).connections@.len() as int),
            r is Ok ==> final(self)@ == fresh_game(),
            r is Err ==> *final(self) == *old(self) && r == Err::<(), ErrorCode>(
                start_err(old(self)@),
            ),
            final(self).connections == old(self).connections,
            game_wf(final(self)@),
    {
        if self.started {
            return Err(ErrorCode::GameAlreadyStarted);
        }
        if self.connections.len() < 2 {
            return Err(ErrorCode::NotEnoughPlayers);
        }
        self.reset_game();
        Ok(())
    }

    /// Restarts the game: permitted even after a game concluded, but still
    /// requires both seats taken.
    pub fn restart_game(&mut self) -> (r: Result<(), ErrorCode>)
        requires
            game_wf(old(self)@),
        ensures
            r is Ok <==> old(self).connections@.len() >= 2,
            r is Ok ==> final(self)@ == fresh_game(),
            r is Err ==> *final(self) == *old(self) && r == Err::<(), ErrorCode>(
                ErrorCode::NotEnoughPlayers,
            ),
            final(self).connections == old(self).connections,
            game_wf(final(self)@),
    {
        if self.connections.len() < 2 {
            return Err(ErrorCode::NotEnoughPlayers);
        }
        self.reset_game();
        Ok(())
    }

    /// The shared reset: empty board, `X` to move, no winner, counted from
    /// zero, game running.
    fn reset_game(&mut self)
        ensures
            final(self)@ == fresh_game(),
            final(self).connections == old(self).connections,
            game_wf(final(self)@),
    {
        self.started = true;
        self.current_turn = PlayerMark::X;
        self.winner = None;
        self.moves_count = 0;
        self.board = new_board();
        proof {
            lemma_empty_board_count();
        }
    }

    /// Plays `player` at `(x, y)`. On success the mark is written, the
    /// winner re-evaluated and the turn passed on while the game continues;
    /// on failure the room is unchanged and the error says which rule was
    /// violated, in the order of `move_err`.
    pub fn make_move(&mut self, player: PlayerMark, x: u8, y: u8) -> (r: Result<(), ErrorCode>)
        requires
            game_wf(old(self)@),
        ensures
            r is Ok <==> move_ok(old(self)@, player, x, y),
            r is Ok ==> final(self)@ == move_result(old(self)@, player, x, y),
            r is Err ==> *final(self) == *old(self) && r == Err::<(), ErrorCode>(
                move_err(old(self)@, player, x, y),
            ),
            final(self).connections == old(self).connections,
            game_wf(final(self)@),
    {
        if !self.started {
            return Err(ErrorCode::GameNotStarted);
        }
        if self.winner.is_some() {
            return Err(ErrorCode::GameAlreadyFinished);
        }
        if player != self.current_turn {
            return Err(ErrorCode::NotYourTurn);
        }
        if x > 2 || y > 2 {
            return Err(ErrorCode::OutOfBounds);
        }
        let idx: usize = (y as usize) * 3 + (x as usize);
        if self.board[idx].is_some() {
            return Err(ErrorCode::CellOccupied);
        }
        proof {
            lemma_count_bounds(old(self)@.board);
            lemma_count_update(old(self)@.board, idx as int, player);
        }
        self.board[idx] = Some(player);
        self.moves_count = self.moves_count + 1;
        let won = crate::game::check_winner(&self.board);
        if let Some(w) = won {
            self.winner = Some(w);
        } else if self.moves_count >= 9 {
            // a full board without a winner is a draw: the turn stays put
        } else {
            self.current_turn = self.current_turn.opponent();
        }
        Ok(())
    }
}

/// A fresh nine-cell board with no marks.
fn new_board() -> (r: Vec<Option<PlayerMark>>)
    ensures
        r@ == empty_board(),
{
    let r: Vec<Option<PlayerMark>> = vec![
        None,
        None,
        None,
        None,
        None,
        None,
        None,
        None,
        None,
    ];
    proof {
        assert(r@ =~= empty_board());
    }
    r
}

/// LAW: a valid move keeps the bookkeeping consistent — after it,
/// `moves_count` still equals the number of occupied cells.
pub proof fn lemma_moves_count_invariant(g: GameView, m: PlayerMark, x: u8, y: u8)
    requires
        game_wf(g),
        move_ok(g, m, x, y),
    ensures
        game_wf(move_result(g, m, x, y)),
        move_result(g, m, x, y).moves_count == g.moves_count + 1,
{
    lemma_count_update(g.board, cell_index(x as int, y as int), m);
}

/// LAW: the opening move belongs to `X` — in a freshly started game only
/// the first mark's moves are accepted.
pub proof fn lemma_first_move_is_x(m: PlayerMark, x: u8, y: u8)
    requires
        move_ok(fresh_game(), m, x, y),
    ensures
        m == PlayerMark::X,
{
}

/// LAW: turns alternate — a move is only ever accepted from the player
/// whose turn it is, and when that move leaves the game in progress, the
/// next accepted move comes from the other player.
pub proof fn lemma_turn_alternation(
    g: GameView,
    m: PlayerMark,
    x: u8,
    y: u8,
    m2: PlayerMark,
    x2: u8,
    y2: u8,
)
    requires
        move_ok(g, m, x, y),
        game_continues(move_result(g, m, x, y)),
        move_ok(move_result(g, m, x, y), m2, x2, y2),
    ensures
        m == g.current_turn,
        m2 == other(m),
{
}

/// LAW: draw detection — a ninth move that completes no line for either
/// mark leaves the winner unset, and such a drawn game reports no current
/// turn.
pub proof fn lemma_draw_detection(g: GameView, m: PlayerMark, x: u8, y: u8)
    requires
        game_wf(g),
        move_ok(g, m, x, y),
        g.moves_count == 8,
        !mark_wins(move_result(g, m, x, y).board, PlayerMark::X),
        !mark_wins(move_result(g, m, x, y).board, PlayerMark::O),
    ensures
        move_result(g, m, x, y).winner is None,
        move_result(g, m, x, y).moves_count == 9,
        reported_turn(move_result(g, m, x, y)) is None,
{
    lemma_no_win_no_winner(move_result(g, m, x, y).board);
}

/// LAW: a second start is rejected — after a successful start the game is
/// running, so starting again is not allowed (and by the contract of
/// `start_game` the failed call leaves the room unchanged).
pub proof fn lemma_start_idempotent_rejection(g: GameView, num_connections: int)
    requires
        start_ok(g, num_connections),
    ensures
        !start_ok(fresh_game(), num_connections),
        start_err(fresh_game()) == ErrorCode::GameAlreadyStarted,
{
}

/// The turn a game-state report shows: only a running, undecided game with
/// free cells has a current turn.
pub open spec fn reported_turn(g: GameView) -> Option<PlayerMark> {
    if g.started && g.winner is None && g.moves_count < 9 {
        Some(g.current_turn)
    } else {
        None
    }
}

} // verus!
