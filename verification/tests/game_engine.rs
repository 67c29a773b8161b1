use tic_tac_toe_server::errors::ErrorCode;
use tic_tac_toe_server::game::PlayerMark;
use tic_tac_toe_server::room::{Connection, Room};

fn sender() -> tokio::sync::mpsc::UnboundedSender<String> {
    let (tx, rx) = tokio::sync::mpsc::unbounded_channel::<String>();
    // the engine tests never read the queue; keep the channel open anyway
    std::mem::forget(rx);
    tx
}

fn room_with_two_players() -> Room {
    let mut room = Room::new();
    room.connections.push(Connection { id: 1, sender: sender(), mark: PlayerMark::X });
    room.connections.push(Connection { id: 2, sender: sender(), mark: PlayerMark::O });
    room
}

fn started_room() -> Room {
    let mut room = room_with_two_players();
    assert!(room.start_game().is_ok());
    room
}

#[test]
fn new_room_is_blank() {
    let room = Room::new();
    assert_eq!(room.connections.len(), 0);
    assert!(!room.started);
    assert!(room.winner.is_none());
    assert_eq!(room.moves_count, 0);
    assert_eq!(room.board.len(), 9);
    assert!(room.board.iter().all(|c| c.is_none()));
}

#[test]
fn start_requires_two_players() {
    let mut room = Room::new();
    assert_eq!(room.start_game(), Err(ErrorCode::NotEnoughPlayers));
    room.connections.push(Connection { id: 1, sender: sender(), mark: PlayerMark::X });
    assert_eq!(room.start_game(), Err(ErrorCode::NotEnoughPlayers));
    room.connections.push(Connection { id: 2, sender: sender(), mark: PlayerMark::O });
    assert_eq!(room.start_game(), Ok(()));
    assert!(room.started);
    assert_eq!(room.current_turn, PlayerMark::X);
}

#[test]
fn second_start_rejected_and_harmless() {
    let mut room = started_room();
    assert_eq!(room.make_move(PlayerMark::X, 0, 0), Ok(()));
    let board_before: Vec<Option<PlayerMark>> = room.board.clone();
    let turn_before = room.current_turn;
    let moves_before = room.moves_count;
    assert_eq!(room.start_game(), Err(ErrorCode::GameAlreadyStarted));
    assert_eq!(room.board, board_before);
    assert_eq!(room.current_turn, turn_before);
    assert_eq!(room.moves_count, moves_before);
    assert!(room.winner.is_none());
}

#[test]
fn restart_allowed_after_conclusion() {
    let mut room = started_room();
    play(&mut room, &[(0, 0), (1, 1), (1, 0), (2, 2), (2, 0)]);
    assert_eq!(room.winner, Some(PlayerMark::X));
    assert_eq!(room.restart_game(), Ok(()));
    assert!(room.started);
    assert!(room.winner.is_none());
    assert_eq!(room.moves_count, 0);
    assert_eq!(room.current_turn, PlayerMark::X);
    assert!(room.board.iter().all(|c| c.is_none()));
}

#[test]
fn restart_requires_two_players() {
    let mut room = Room::new();
    room.connections.push(Connection { id: 1, sender: sender(), mark: PlayerMark::X });
    assert_eq!(room.restart_game(), Err(ErrorCode::NotEnoughPlayers));
}

#[test]
fn move_before_start_rejected() {
    let mut room = room_with_two_players();
    assert_eq!(room.make_move(PlayerMark::X, 0, 0), Err(ErrorCode::GameNotStarted));
    assert_eq!(room.moves_count, 0);
}

#[test]
fn move_out_of_turn_rejected() {
    let mut room = started_room();
    assert_eq!(room.make_move(PlayerMark::O, 0, 0), Err(ErrorCode::NotYourTurn));
    assert_eq!(room.make_move(PlayerMark::X, 0, 0), Ok(()));
    assert_eq!(room.make_move(PlayerMark::X, 1, 0), Err(ErrorCode::NotYourTurn));
}

#[test]
fn move_out_of_bounds_rejected() {
    let mut room = started_room();
    assert_eq!(room.make_move(PlayerMark::X, 3, 0), Err(ErrorCode::OutOfBounds));
    assert_eq!(room.make_move(PlayerMark::X, 0, 3), Err(ErrorCode::OutOfBounds));
    assert_eq!(room.moves_count, 0);
}

#[test]
fn occupied_cell_rejected() {
    let mut room = started_room();
    assert_eq!(room.make_move(PlayerMark::X, 1, 1), Ok(()));
    assert_eq!(room.make_move(PlayerMark::O, 1, 1), Err(ErrorCode::CellOccupied));
    assert_eq!(room.moves_count, 1);
}

#[test]
fn move_after_conclusion_rejected() {
    let mut room = started_room();
    play(&mut room, &[(0, 0), (1, 1), (1, 0), (2, 2), (2, 0)]);
    assert_eq!(room.winner, Some(PlayerMark::X));
    assert_eq!(room.make_move(PlayerMark::O, 0, 1), Err(ErrorCode::GameAlreadyFinished));
}

// Plays the given cells in order, alternating from X, expecting every move
// to be accepted.
fn play(room: &mut Room, cells: &[(u8, u8)]) {
    let mut mark = PlayerMark::X;
    for &(x, y) in cells {
        assert_eq!(room.make_move(mark, x, y), Ok(()));
        mark = mark.opponent();
    }
}

#[test]
fn turns_alternate_until_conclusion() {
    let mut room = started_room();
    assert_eq!(room.current_turn, PlayerMark::X);
    assert_eq!(room.make_move(PlayerMark::X, 0, 0), Ok(()));
    assert_eq!(room.current_turn, PlayerMark::O);
    assert_eq!(room.make_move(PlayerMark::O, 1, 1), Ok(()));
    assert_eq!(room.current_turn, PlayerMark::X);
    assert_eq!(room.make_move(PlayerMark::X, 1, 0), Ok(()));
    assert_eq!(room.current_turn, PlayerMark::O);
}

#[test]
fn moves_count_matches_occupied_cells() {
    let mut room = started_room();
    let cells = [(0u8, 0u8), (1, 1), (1, 0), (2, 2)];
    let mut mark = PlayerMark::X;
    for (i, &(x, y)) in cells.iter().enumerate() {
        assert_eq!(room.make_move(mark, x, y), Ok(()));
        let occupied = room.board.iter().filter(|c| c.is_some()).count();
        assert_eq!(room.moves_count as usize, i + 1);
        assert_eq!(occupied, i + 1);
        mark = mark.opponent();
    }
    // a rejected move changes neither the count nor the board
    assert_eq!(room.make_move(mark, 0, 0), Err(ErrorCode::CellOccupied));
    assert_eq!(room.moves_count, 4);
    assert_eq!(room.board.iter().filter(|c| c.is_some()).count(), 4);
}

// Fills `line` with X (interleaved with two O moves elsewhere) and checks
// that the winner appears exactly when the third cell of the line is placed.
fn check_line_win(line: [(u8, u8); 3], fillers: [(u8, u8); 2]) {
    let mut room = started_room();
    assert_eq!(room.make_move(PlayerMark::X, line[0].0, line[0].1), Ok(()));
    assert!(room.winner.is_none());
    assert_eq!(room.make_move(PlayerMark::O, fillers[0].0, fillers[0].1), Ok(()));
    assert!(room.winner.is_none());
    assert_eq!(room.make_move(PlayerMark::X, line[1].0, line[1].1), Ok(()));
    assert!(room.winner.is_none());
    assert_eq!(room.make_move(PlayerMark::O, fillers[1].0, fillers[1].1), Ok(()));
    assert!(room.winner.is_none());
    assert_eq!(room.make_move(PlayerMark::X, line[2].0, line[2].1), Ok(()));
    assert_eq!(room.winner, Some(PlayerMark::X));
    // once decided, the turn no longer advances
    assert_eq!(room.current_turn, PlayerMark::X);
}

#[test]
fn win_detected_on_each_row() {
    check_line_win([(0, 0), (1, 0), (2, 0)], [(0, 1), (1, 1)]);
    check_line_win([(0, 1), (1, 1), (2, 1)], [(0, 0), (1, 0)]);
    check_line_win([(0, 2), (1, 2), (2, 2)], [(0, 0), (1, 0)]);
}

#[test]
fn win_detected_on_each_column() {
    check_line_win([(0, 0), (0, 1), (0, 2)], [(1, 0), (2, 0)]);
    check_line_win([(1, 0), (1, 1), (1, 2)], [(0, 0), (2, 0)]);
    check_line_win([(2, 0), (2, 1), (2, 2)], [(0, 0), (1, 0)]);
}

#[test]
fn win_detected_on_each_diagonal() {
    check_line_win([(0, 0), (1, 1), (2, 2)], [(1, 0), (2, 0)]);
    check_line_win([(2, 0), (1, 1), (0, 2)], [(0, 0), (1, 0)]);
}

#[test]
fn full_board_without_line_is_a_draw() {
    let mut room = started_room();
    play(
        &mut room,
        &[
            (0, 0),
            (1, 0),
            (2, 0),
            (1, 1),
            (0, 1),
            (2, 1),
            (1, 2),
            (0, 2),
            (2, 2),
        ],
    );
    assert_eq!(room.moves_count, 9);
    assert!(room.winner.is_none());
    assert!(room.started);
    // every cell is occupied and no further move is possible
    assert!(room.board.iter().all(|c| c.is_some()));
    assert_eq!(room.make_move(PlayerMark::X, 0, 0), Err(ErrorCode::CellOccupied));
}

#[test]
fn mark_tokens() {
    assert_eq!(PlayerMark::X.to_string(), "x");
    assert_eq!(PlayerMark::O.to_string(), "o");
    assert_eq!(PlayerMark::X.opponent(), PlayerMark::O);
    assert_eq!(PlayerMark::O.opponent(), PlayerMark::X);
}
