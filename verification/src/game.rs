//! The pure game state machine: marks, the 3x3 board and win detection.
//!
//! The board is a flat sequence of 9 optional marks; cell `(x, y)` with
//! `0 <= x, y <= 2` lives at index `y * 3 + x`. Eight lines (three rows,
//! three columns, two diagonals) decide the winner.

use vstd::prelude::*;

verus! {

/// The two sides of a match. The first connection of a room plays `X`,
/// the second plays `O`.
#[derive(Clone, Copy, Debug, PartialEq, Eq, Structural)]
pub enum PlayerMark {
    X,
    O,
}

/// The lowercase single-letter token a mark is written as on the wire.
pub open spec fn mark_str(m: PlayerMark) -> Seq<char> {
    match m {
        PlayerMark::X => "x"@,
        PlayerMark::O => "o"@,
    }
}

/// The opposing mark.
pub open spec fn other(m: PlayerMark) -> PlayerMark {
    match m {
        PlayerMark::X => PlayerMark::O,
        PlayerMark::O => PlayerMark::X,
    }
}

impl PlayerMark {
    /// The mark's wire token: `"x"` or `"o"`.
    pub fn to_string(&self) -> (r: String)
        ensures
            r@ == mark_str(*self),
    {
        match self {
            PlayerMark::X => "x".to_owned(),
            PlayerMark::O => "o".to_owned(),
        }
    }

    /// The opposing mark.
    pub fn opponent(&self) -> (r: PlayerMark)
        ensures
            r == other(*self),
    {
        match self {
            PlayerMark::X => PlayerMark::O,
            PlayerMark::O => PlayerMark::X,
        }
    }
}

/// The flat board index of cell `(x, y)`.
pub open spec fn cell_index(x: int, y: int) -> int {
    y * 3 + x
}

/// The board index of the `k`-th cell (`0 <= k < 3`) of line `l`
/// (`0 <= l < 8`): lines 0-2 are the rows, 3-5 the columns, 6 the main
/// diagonal and 7 the anti-diagonal.
pub open spec fn line_cell(l: int, k: int) -> int {
    if l < 3 {
        l * 3 + k
    } else if l < 6 {
        k * 3 + (l - 3)
    } else if l == 6 {
        k * 3 + k
    } else {
        k * 3 + (2 - k)
    }
}

/// All three cells of line `l` hold mark `m`.
pub open spec fn line_complete(b: Seq<Option<PlayerMark>>, l: int, m: PlayerMark) -> bool {
    &&& b[line_cell(l, 0)] == Some(m)
    &&& b[line_cell(l, 1)] == Some(m)
    &&& b[line_cell(l, 2)] == Some(m)
}

/// Mark `m` has completed at least one of the eight lines.
pub open spec fn mark_wins(b: Seq<Option<PlayerMark>>, m: PlayerMark) -> bool {
    exists|l: int| 0 <= l < 8 && #[trigger] line_complete(b, l, m)
}

/// The winner found by scanning the lines from `l` upward, preferring `X`
/// on each line, as the executable scan does.
pub open spec fn winner_from(b: Seq<Option<PlayerMark>>, l: int) -> Option<PlayerMark>
    decreases 8 - l,
{
    if l < 0 || l >= 8 {
        None
    } else if line_complete(b, l, PlayerMark::X) {
        Some(PlayerMark::X)
    } else if line_complete(b, l, PlayerMark::O) {
        Some(PlayerMark::O)
    } else {
        winner_from(b, l + 1)
    }
}

/// The winner of a board: the mark of the first complete line, if any.
pub open spec fn spec_winner(b: Seq<Option<PlayerMark>>) -> Option<PlayerMark> {
    winner_from(b, 0)
}

/// The number of occupied cells of a board.
pub open spec fn count_marks(b: Seq<Option<PlayerMark>>) -> int
    decreases b.len(),
{
    if b.len() == 0 {
        0
    } else {
        count_marks(b.drop_last()) + if b.last() is Some {
            1int
        } else {
            0int
        }
    }
}

/// The empty board: nine unoccupied cells.
pub open spec fn empty_board() -> Seq<Option<PlayerMark>> {
    Seq::new(9, |i: int| None::<PlayerMark>)
}

/// The empty board has no occupied cells.
pub proof fn lemma_empty_board_count()
    ensures
        count_marks(empty_board()) == 0,
{
    lemma_count_none(empty_board());
}

proof fn lemma_count_none(b: Seq<Option<PlayerMark>>)
    requires
        forall|i: int| 0 <= i < b.len() ==> b[i] is None,
    ensures
        count_marks(b) == 0,
    decreases b.len(),
{
    if b.len() > 0 {
        lemma_count_none(b.drop_last());
    }
}

/// A board never holds more occupied cells than cells.
pub proof fn lemma_count_bounds(b: Seq<Option<PlayerMark>>)
    ensures
        0 <= count_marks(b) <= b.len(),
    decreases b.len(),
{
    if b.len() > 0 {
        lemma_count_bounds(b.drop_last());
    }
}

/// Writing a mark into an empty cell raises the occupied-cell count by one.
pub proof fn lemma_count_update(b: Seq<Option<PlayerMark>>, i: int, m: PlayerMark)
    requires
        0 <= i < b.len(),
        b[i] is None,
    ensures
        count_marks(b.update(i, Some(m))) == count_marks(b) + 1,
    decreases b.len(),
{
    let u = b.update(i, Some(m));
    if i == b.len() - 1 {
        assert(u.drop_last() =~= b.drop_last());
    } else {
        assert(u.drop_last() =~= b.drop_last().update(i, Some(m)));
        lemma_count_update(b.drop_last(), i, m);
    }
}

/// The executable twin of `line_cell`.
fn line_cell_exec(l: usize, k: usize) -> (r: usize)
    requires
        l < 8,
        k < 3,
    ensures
        r == line_cell(l as int, k as int),
        r < 9,
{
    if l < 3 {
        l * 3 + k
    } else if l < 6 {
        k * 3 + (l - 3)
    } else if l == 6 {
        k * 3 + k
    } else {
        k * 3 + (2 - k)
    }
}

/// Scans the eight lines in order and returns the mark of the first
/// complete one, if any.
pub fn check_winner(board: &Vec<Option<PlayerMark>>) -> (r: Option<PlayerMark>)
    requires
        board@.len() == 9,
    ensures
        r == spec_winner(board@),
{
    let mut l: usize = 0;
    while l < 8
        invariant
            board@.len() == 9,
            l <= 8,
            winner_from(board@, 0) == winner_from(board@, l as int),
        decreases 8 - l,
    {
        let c0 = board[line_cell_exec(l, 0)];
        let c1 = board[line_cell_exec(l, 1)];
        let c2 = board[line_cell_exec(l, 2)];
        if let (Some(m0), Some(m1), Some(m2)) = (c0, c1, c2) {
            if m0 == m1 && m1 == m2 {
                assert(line_complete(board@, l as int, m0));
                return Some(m0);
            }
        }
        assert(!line_complete(board@, l as int, PlayerMark::X));
        assert(!line_complete(board@, l as int, PlayerMark::O));
        l = l + 1;
    }
    None
}

/// Completing a line for `m` while the opponent holds no complete line
/// makes `m` the winner: win detection fires exactly when the third cell
/// of a line is filled.
pub proof fn lemma_win_detection(b: Seq<Option<PlayerMark>>, l: int, m: PlayerMark)
    requires
        0 <= l < 8,
        line_complete(b, l, m),
        !mark_wins(b, other(m)),
    ensures
        spec_winner(b) == Some(m),
{
    lemma_winner_from_sole(b, 0, l, m);
}

proof fn lemma_winner_from_sole(b: Seq<Option<PlayerMark>>, l: int, l0: int, m: PlayerMark)
    requires
        0 <= l <= l0 < 8,
        line_complete(b, l0, m),
        !mark_wins(b, other(m)),
    ensures
        winner_from(b, l) == Some(m),
    decreases 8 - l,
{
    if line_complete(b, l, PlayerMark::X) {
        assert(m == PlayerMark::X) by {
            if m != PlayerMark::X {
                assert(line_complete(b, l, other(m)));
            }
        }
    } else if line_complete(b, l, PlayerMark::O) {
        assert(m == PlayerMark::O) by {
            if m != PlayerMark::O {
                assert(line_complete(b, l, other(m)));
            }
        }
    } else {
        assert(l != l0) by {
            if l == l0 {
                assert(line_complete(b, l, PlayerMark::X) || line_complete(b, l, PlayerMark::O));
            }
        }
        lemma_winner_from_sole(b, l + 1, l0, m);
    }
}

/// While no line is complete for either mark there is no winner: win
/// detection never fires before a line's third cell is placed.
pub proof fn lemma_no_win_no_winner(b: Seq<Option<PlayerMark>>)
    requires
        !mark_wins(b, PlayerMark::X),
        !mark_wins(b, PlayerMark::O),
    ensures
        spec_winner(b) is None,
{
    lemma_winner_from_none(b, 0);
}

proof fn lemma_winner_from_none(b: Seq<Option<PlayerMark>>, l: int)
    requires
        0 <= l <= 8,
        !mark_wins(b, PlayerMark::X),
        !mark_wins(b, PlayerMark::O),
    ensures
        winner_from(b, l) is None,
    decreases 8 - l,
{
    if l < 8 {
        assert(!line_complete(b, l, PlayerMark::X));
        assert(!line_complete(b, l, PlayerMark::O));
        lemma_winner_from_none(b, l + 1);
    }
}

/// A declared winner always holds a complete line.
pub proof fn lemma_winner_wins(b: Seq<Option<PlayerMark>>, m: PlayerMark)
    requires
        spec_winner(b) == Some(m),
    ensures
        mark_wins(b, m),
{
    lemma_winner_from_wins(b, 0, m);
}

proof fn lemma_winner_from_wins(b: Seq<Option<PlayerMark>>, l: int, m: PlayerMark)
    requires
        0 <= l <= 8,
        winner_from(b, l) == Some(m),
    ensures
        mark_wins(b, m),
    decreases 8 - l,
{
    if l < 8 {
        if line_complete(b, l, PlayerMark::X) {
        } else if line_complete(b, l, PlayerMark::O) {
        } else {
            lemma_winner_from_wins(b, l + 1, m);
        }
    }
}

} // verus!
