//! The decision core of the connection handler: what one decoded client
//! action does to the shared state. The surrounding loops (reading the
//! transport, holding the lock, delivering responses) stand outside the
//! library and call in with plain values.

use vstd::prelude::*;

use crate::errors::ErrorCode;
use crate::game::PlayerMark;
use crate::registry::{has_room_id, room_index, state_wf, AppState};
use crate::requests::{Action, Payload};
use crate::room::{fresh_game, move_err, move_ok, move_result, start_err, start_ok, GameView};

verus! {

/// A request is accepted exactly when its action's own precondition holds
/// against the room's game and occupancy.
pub open spec fn action_ok(g: GameView, num_connections: int, p: Payload, mark: PlayerMark) -> bool {
    match p.action {
        Action::StartGame => start_ok(g, num_connections),
        Action::RestartGame => num_connections >= 2,
        Action::MakeMove => p.move_payload matches Some(mp) && move_ok(g, mark, mp.x, mp.y),
    }
}

/// The error a rejected request reports.
pub open spec fn action_err(g: GameView, p: Payload, mark: PlayerMark) -> ErrorCode {
    match p.action {
        Action::StartGame => start_err(g),
        Action::RestartGame => ErrorCode::NotEnoughPlayers,
        Action::MakeMove => match p.move_payload {
            Some(mp) => move_err(g, mark, mp.x, mp.y),
            None => ErrorCode::MissingMovePayload,
        },
    }
}

/// The game after an accepted request.
pub open spec fn action_result(g: GameView, p: Payload, mark: PlayerMark) -> GameView {
    match p.action {
        Action::StartGame => fresh_game(),
        Action::RestartGame => fresh_game(),
        Action::MakeMove => match p.move_payload {
            Some(mp) => move_result(g, mark, mp.x, mp.y),
            None => g,
        },
    }
}

/// Executes one decoded action for the connection playing `mark` against
/// the room stored under `room_id`. Only that room's game can change: a
/// rejected request, of any kind, leaves the whole state untouched, and an
/// accepted one touches neither the membership nor any other room.
pub fn apply_action(
    state: &mut AppState,
    room_id: &String,
    payload: &Payload,
    mark: PlayerMark,
) -> (r: Result<(), ErrorCode>)
    requires
        state_wf(*old(state)),
    ensures
        state_wf(*final(state)),
        !has_room_id(old(state).rooms@, room_id@) ==> *final(state) == *old(state) && r == Err::<
            (),
            ErrorCode,
        >(ErrorCode::RoomNotFound),
        has_room_id(old(state).rooms@, room_id@) ==> ({
            let i = room_index(old(state).rooms@, room_id@);
            let g = old(state).rooms@[i].1@;
            let n = old(state).rooms@[i].1.connections@.len() as int;
            &&& (r is Ok <==> action_ok(g, n, *payload, mark))
            &&& r is Err ==> final(state).rooms@ == old(state).rooms@
                && final(state).next_connection_id == old(state).next_connection_id
                && r == Err::<(), ErrorCode>(action_err(g, *payload, mark))
            &&& r is Ok ==> ({
                &&& final(state).rooms@.len() == old(state).rooms@.len()
                &&& final(state).rooms@[i].0 == old(state).rooms@[i].0
                &&& final(state).rooms@[i].1@ == action_result(g, *payload, mark)
                &&& final(state).rooms@[i].1.connections == old(state).rooms@[i].1.connections
                &&& forall|k: int|
                    0 <= k < old(state).rooms@.len() && k != i ==> final(state).rooms@[k] == old(
                        state,
                    ).rooms@[k]
                &&& final(state).next_connection_id == old(state).next_connection_id
            })
        }),
{
    let idx_opt = find_room_for_action(state, room_id);
    let i = match idx_opt {
        Some(i) => i,
        None => {
            return Err(ErrorCode::RoomNotFound);
        },
    };
    let res: Result<(), ErrorCode> = match payload.action {
        Action::StartGame => {
            let pair = &mut state.rooms[i];
            pair.1.start_game()
        },
        Action::RestartGame => {
            let pair = &mut state.rooms[i];
            pair.1.restart_game()
        },
        Action::MakeMove => {
            match payload.move_payload {
                Some(mp) => {
                    let pair = &mut state.rooms[i];
                    pair.1.make_move(mark, mp.x, mp.y)
                },
                None => Err(ErrorCode::MissingMovePayload),
            }
        },
    };
    proof {
        if res is Err {
            assert(state.rooms@ =~= old(state).rooms@);
        }
        assert forall|k: int| 0 <= k < state.rooms@.len() implies crate::room::room_wf(
            (#[trigger] state.rooms@[k]).1,
        ) && state.rooms@[k].1.connections@.len() >= 1 by {
            assert(crate::room::room_wf(old(state).rooms@[k].1));
            assert(old(state).rooms@[k].1.connections@.len() >= 1);
            if k != i as int {
                assert(state.rooms@[k] == old(state).rooms@[k]);
            }
        }
        assert forall|k: int| 0 <= k < state.rooms@.len() implies (#[trigger] state.rooms@[k]).0
            == old(state).rooms@[k].0 by {
            if k != i as int {
                assert(state.rooms@[k] == old(state).rooms@[k]);
            }
        }
        assert(state_wf(*state));
    }
    res
}

/// The room lookup the dispatch uses, tied to `room_index` so the caller's
/// contract can name the room that changed.
fn find_room_for_action(state: &AppState, room_id: &String) -> (r: Option<usize>)
    requires
        state_wf(*state),
    ensures
        r is Some <==> has_room_id(state.rooms@, room_id@),
        r matches Some(i) ==> 0 <= i < state.rooms@.len() && i as int == room_index(
            state.rooms@,
            room_id@,
        ),
{
    let mut i: usize = 0;
    while i < state.rooms.len()
        invariant
            state_wf(*state),
            i <= state.rooms@.len(),
            forall|j: int| 0 <= j < i ==> (#[trigger] state.rooms@[j].0@) != room_id@,
        decreases state.rooms@.len() - i,
    {
        if state.rooms[i].0 == *room_id {
            proof {
                crate::registry::lemma_room_index_of(state.rooms@, room_id@, i as int);
            }
            return Some(i);
        }
        i = i + 1;
    }
    None
}

/// Starts the game automatically when a join has just filled the room: with
/// exactly two connections and no game running, the game begins and the
/// caller broadcasts the fresh state. In every other case nothing changes.
pub fn try_auto_start(state: &mut AppState, room_id: &String) -> (started: bool)
    requires
        state_wf(*old(state)),
    ensures
        state_wf(*final(state)),
        started <==> (has_room_id(old(state).rooms@, room_id@) && ({
            let i = room_index(old(state).rooms@, room_id@);
            old(state).rooms@[i].1.connections@.len() == 2 && !old(state).rooms@[i].1@.started
        })),
        !started ==> *final(state) == *old(state),
        started ==> ({
            let i = room_index(old(state).rooms@, room_id@);
            &&& final(state).rooms@.len() == old(state).rooms@.len()
            &&& final(state).rooms@[i].0 == old(state).rooms@[i].0
            &&& final(state).rooms@[i].1@ == fresh_game()
            &&& final(state).rooms@[i].1.connections == old(state).rooms@[i].1.connections
            &&& forall|k: int|
                0 <= k < old(state).rooms@.len() && k != i ==> final(state).rooms@[k] == old(
                    state,
                ).rooms@[k]
            &&& final(state).next_connection_id == old(state).next_connection_id
        }),
{
    let idx_opt = find_room_for_action(state, room_id);
    let i = match idx_opt {
        Some(i) => i,
        None => {
            return false;
        },
    };
    let two = state.rooms[i].1.connections.len() == 2;
    let running = state.rooms[i].1.started;
    if two && !running {
        let pair = &mut state.rooms[i];
        let res = pair.1.start_game();
        proof {
            assert(res is Ok);
            assert forall|k: int| 0 <= k < state.rooms@.len() implies crate::room::room_wf(
                (#[trigger] state.rooms@[k]).1,
            ) && state.rooms@[k].1.connections@.len() >= 1 by {
                assert(crate::room::room_wf(old(state).rooms@[k].1));
                assert(old(state).rooms@[k].1.connections@.len() >= 1);
                if k != i as int {
                    assert(state.rooms@[k] == old(state).rooms@[k]);
                }
            }
            assert forall|k: int| 0 <= k < state.rooms@.len() implies (#[trigger] state.rooms@[k]).0
                == old(state).rooms@[k].0 by {
                if k != i as int {
                    assert(state.rooms@[k] == old(state).rooms@[k]);
                }
            }
            assert(state_wf(*state));
        }
        true
    } else {
        false
    }
}
} // verus!
