//! The registry: the single shared map of rooms plus the connection-id
//! allocator. All room membership and game state is mutated through it, so
//! its contracts carry the system's central invariant: no room ever holds
//! more than two connections, and joins are admitted or rejected atomically.
//!
//! Rooms are kept as a vector of `(identifier, room)` pairs with pairwise
//! distinct identifiers; `room_index` names the position of an identifier's
//! room wherever a contract needs it.

use vstd::prelude::*;

use crate::errors::ErrorCode;
use crate::game::{empty_board, PlayerMark};
use crate::room::{room_wf, Connection, ConnectionId, GameView, Room};

verus! {

/// The process-wide shared state: all rooms, and the counter the next
/// connection identifier is taken from.
pub struct AppState {
    pub rooms: Vec<(String, Room)>,
    pub next_connection_id: ConnectionId,
}

/// What a successful join hands back: the allocated identifier, the
/// assigned mark, and the room's occupancy after the join.
#[derive(Clone, Copy, Debug, PartialEq, Eq, Structural)]
pub struct Joined {
    pub connection_id: ConnectionId,
    pub mark: PlayerMark,
    pub num_connections: usize,
}

/// Some room is stored under `id`.
pub open spec fn has_room_id(s: Seq<(String, Room)>, id: Seq<char>) -> bool {
    exists|i: int| 0 <= i < s.len() && (#[trigger] s[i].0@) == id
}

/// The position of the room stored under `id` (meaningful only when
/// `has_room_id` holds; identifiers are pairwise distinct, so it is unique).
pub open spec fn room_index(s: Seq<(String, Room)>, id: Seq<char>) -> int {
    choose|i: int| 0 <= i < s.len() && (#[trigger] s[i].0@) == id
}

/// How many connections the room stored under `id` holds; 0 when there is
/// no such room.
pub open spec fn occupancy(s: Seq<(String, Room)>, id: Seq<char>) -> int {
    if has_room_id(s, id) {
        s[room_index(s, id)].1.connections@.len() as int
    } else {
        0
    }
}

/// The connection counter after one allocation: it wraps on overflow.
pub open spec fn wrap_inc(x: u64) -> u64 {
    if x == u64::MAX {
        0
    } else {
        (x + 1) as u64
    }
}

/// The registry's invariant: every stored room is well formed (at most two
/// connections, consistent game bookkeeping), no stored room is empty, and
/// room identifiers are pairwise distinct.
pub open spec fn state_wf(st: AppState) -> bool {
    &&& forall|i: int| 0 <= i < st.rooms@.len() ==> room_wf(#[trigger] st.rooms@[i].1)
    &&& forall|i: int|
        0 <= i < st.rooms@.len() ==> (#[trigger] st.rooms@[i].1.connections@.len()) >= 1
    &&& forall|i: int, j: int|
        #![trigger st.rooms@[i].0@, st.rooms@[j].0@]
        0 <= i < j < st.rooms@.len() ==> st.rooms@[i].0@ != st.rooms@[j].0@
}

/// LAW: capacity — in every well-formed registry state, every room holds at
/// most two connections.
pub proof fn lemma_capacity_invariant(st: AppState, i: int)
    requires
        state_wf(st),
        0 <= i < st.rooms@.len(),
    ensures
        st.rooms@[i].1.connections@.len() <= 2,
{
}

/// A position holding `id` is the position `room_index` names (room
/// identifiers being pairwise distinct).
pub proof fn lemma_room_index_of(s: Seq<(String, Room)>, id: Seq<char>, i: int)
    requires
        0 <= i < s.len(),
        s[i].0@ == id,
        forall|a: int, b: int|
            #![trigger s[a].0@, s[b].0@]
            0 <= a < b < s.len() ==> s[a].0@ != s[b].0@,
    ensures
        has_room_id(s, id),
        room_index(s, id) == i,
{
    assert(has_room_id(s, id));
    let j = room_index(s, id);
    if i < j {
        assert(s[i].0@ != s[j].0@);
    } else if j < i {
        assert(s[j].0@ != s[i].0@);
    }
}

/// The identifiers and marks of a connection list, in order.
pub open spec fn conn_pairs(s: Seq<Connection>) -> Seq<(u64, PlayerMark)> {
    s.map_values(|c: Connection| (c.id, c.mark))
}

/// The identifiers and marks of a connection list with one connection left
/// out, in order.
pub open spec fn pairs_without(s: Seq<Connection>, ex: u64) -> Seq<(u64, PlayerMark)>
    decreases s.len(),
{
    if s.len() == 0 {
        Seq::empty()
    } else {
        let rest = pairs_without(s.drop_last(), ex);
        if s.last().id == ex {
            rest
        } else {
            rest.push((s.last().id, s.last().mark))
        }
    }
}

/// The connections that survive removing the listed identifiers, in order.
pub open spec fn kept_conns(s: Seq<Connection>, ids: Seq<u64>) -> Seq<Connection>
    decreases s.len(),
{
    if s.len() == 0 {
        Seq::empty()
    } else {
        let rest = kept_conns(s.drop_last(), ids);
        if ids.contains(s.last().id) {
            rest
        } else {
            rest.push(s.last())
        }
    }
}

/// Removal never grows a connection list.
pub proof fn lemma_kept_len(s: Seq<Connection>, ids: Seq<u64>)
    ensures
        kept_conns(s, ids).len() <= s.len(),
    decreases s.len(),
{
    if s.len() > 0 {
        lemma_kept_len(s.drop_last(), ids);
    }
}

/// A copy of a connection entry: same identifier and mark, a cloned handle
/// to the same outbound channel.
fn clone_connection(c: &Connection) -> (r: Connection)
    ensures
        r.id == c.id,
        r.mark == c.mark,
{
    Connection { id: c.id, sender: c.sender.clone(), mark: c.mark }
}

/// Whether `x` is among the listed identifiers.
fn contains_id(ids: &Vec<u64>, x: u64) -> (r: bool)
    ensures
        r == ids@.contains(x),
{
    let mut j: usize = 0;
    while j < ids.len()
        invariant
            j <= ids@.len(),
            forall|k: int| 0 <= k < j ==> ids@[k] != x,
        decreases ids@.len() - j,
    {
        if ids[j] == x {
            return true;
        }
        j = j + 1;
    }
    false
}

impl AppState {
    /// A fresh registry: no rooms, identifiers allocated from zero.
    pub fn new() -> (r: AppState)
        ensures
            r.rooms@.len() == 0,
            r.next_connection_id == 0,
            state_wf(r),
    {
        AppState { rooms: Vec::new(), next_connection_id: 0 }
    }

    /// The position of the room stored under `room_id`, if any.
    fn find_room(&self, room_id: &String) -> (r: Option<usize>)
        ensures
            match r {
                Some(i) => 0 <= i < self.rooms@.len() && self.rooms@[i as int].0@ == room_id@,
                None => !has_room_id(self.rooms@, room_id@),
            },
    {
        let mut i: usize = 0;
        while i < self.rooms.len()
            invariant
                i <= self.rooms@.len(),
                forall|j: int| 0 <= j < i ==> (#[trigger] self.rooms@[j].0@) != room_id@,
            decreases self.rooms@.len() - i,
        {
            if self.rooms[i].0 == *room_id {
                return Some(i);
            }
            i = i + 1;
        }
        None
    }

    /// A borrow of the room stored under `room_id`, if any.
    pub fn get_room(&self, room_id: &String) -> (r: Option<&Room>)
        requires
            state_wf(*self),
        ensures
            r is Some <==> has_room_id(self.rooms@, room_id@),
            r matches Some(room) ==> *room == self.rooms@[room_index(self.rooms@, room_id@)].1
                && room_wf(*room),
    {
        match self.find_room(room_id) {
            Some(i) => {
                proof {
                    lemma_room_index_of(self.rooms@, room_id@, i as int);
                }
                Some(&self.rooms[i].1)
            },
            None => None,
        }
    }

    /// The number of rooms the registry currently holds.
    pub fn room_count(&self) -> (r: usize)
        ensures
            r == self.rooms@.len(),
    {
        self.rooms.len()
    }

    /// How many connections the room stored under `room_id` holds; 0 when
    /// there is no such room.
    pub fn occupancy_of(&self, room_id: &String) -> (r: usize)
        requires
            state_wf(*self),
        ensures
            r as int == occupancy(self.rooms@, room_id@),
    {
        match self.find_room(room_id) {
            Some(i) => {
                proof {
                    lemma_room_index_of(self.rooms@, room_id@, i as int);
                }
                self.rooms[i].1.connections.len()
            },
            None => 0,
        }
    }

    /// The atomic join. Under one critical section it reads the occupancy of
    /// `room_id` (0 when the room does not exist yet), rejects with
    /// `RoomFull` when two connections are already present — mutating
    /// nothing — and otherwise allocates the next connection identifier,
    /// assigns `X` to a room's first connection and `O` to its second,
    /// creates the room lazily, and inserts the connection.
    pub fn register(
        &mut self,
        room_id: &String,
        sender: tokio::sync::mpsc::UnboundedSender<String>,
    ) -> (r: Result<Joined, ErrorCode>)
        requires
            state_wf(*old(self)),
        ensures
            state_wf(*final(self)),
            r is Err <==> occupancy(old(self).rooms@, room_id@) >= 2,
            r is Err ==> *final(self) == *old(self) && r == Err::<Joined, ErrorCode>(
                ErrorCode::RoomFull,
            ),
            r matches Ok(j) ==> ({
                let occ = occupancy(old(self).rooms@, room_id@);
                let conn = Connection { id: j.connection_id, sender: sender, mark: j.mark };
                &&& j.connection_id == old(self).next_connection_id
                &&& final(self).next_connection_id == wrap_inc(old(self).next_connection_id)
                &&& j.mark == (if occ == 0 {
                    PlayerMark::X
                } else {
                    PlayerMark::O
                })
                &&& j.num_connections as int == occ + 1
                &&& has_room_id(final(self).rooms@, room_id@)
                &&& occupancy(final(self).rooms@, room_id@) == occ + 1
                &&& (if has_room_id(old(self).rooms@, room_id@) {
                    let i = room_index(old(self).rooms@, room_id@);
                    &&& final(self).rooms@.len() == old(self).rooms@.len()
                    &&& room_index(final(self).rooms@, room_id@) == i
                    &&& final(self).rooms@[i].0 == old(self).rooms@[i].0
                    &&& final(self).rooms@[i].1.connections@ == old(
                        self,
                    ).rooms@[i].1.connections@.push(conn)
                    &&& final(self).rooms@[i].1@ == old(self).rooms@[i].1@
                    &&& forall|k: int|
                        0 <= k < old(self).rooms@.len() && k != i ==> final(self).rooms@[k] == old(
                            self,
                        ).rooms@[k]
                } else {
                    &&& final(self).rooms@.len() == old(self).rooms@.len() + 1
                    &&& forall|k: int|
                        0 <= k < old(self).rooms@.len() ==> final(self).rooms@[k] == old(
                            self,
                        ).rooms@[k]
                    &&& final(self).rooms@.last().0@ == room_id@
                    &&& final(self).rooms@.last().1.connections@ == seq![conn]
                    &&& final(self).rooms@.last().1@ == (GameView {
                        board: empty_board(),
                        started: false,
                        current_turn: PlayerMark::X,
                        winner: None,
                        moves_count: 0,
                    })
                })
            }),
    {
        let idx_opt = self.find_room(room_id);
        match idx_opt {
            Some(i) => {
                proof {
                    lemma_room_index_of(self.rooms@, room_id@, i as int);
                }
                if self.rooms[i].1.connections.len() >= 2 {
                    return Err(ErrorCode::RoomFull);
                }
                let cid = self.next_connection_id;
                self.next_connection_id = if cid == u64::MAX {
                    0
                } else {
                    cid + 1
                };
                let mark = PlayerMark::O;
                let occ = self.rooms[i].1.connections.len();
                let pair = &mut self.rooms[i];
                pair.1.connections.push(Connection { id: cid, sender, mark });
                proof {
                    assert forall|k: int| 0 <= k < self.rooms@.len() implies (#[trigger] self.rooms@[k]).0
                        == old(self).rooms@[k].0 by {
                        if k != i as int {
                            assert(self.rooms@[k] == old(self).rooms@[k]);
                        }
                    }
                    lemma_room_index_of(self.rooms@, room_id@, i as int);
                    assert forall|k: int| 0 <= k < self.rooms@.len() implies room_wf(
                        (#[trigger] self.rooms@[k]).1,
                    ) && self.rooms@[k].1.connections@.len() >= 1 by {
                        assert(room_wf(old(self).rooms@[k].1));
                        assert(old(self).rooms@[k].1.connections@.len() >= 1);
                        if k != i as int {
                            assert(self.rooms@[k] == old(self).rooms@[k]);
                        }
                    }
                    assert(state_wf(*self));
                }
                Ok(Joined { connection_id: cid, mark, num_connections: occ + 1 })
            },
            None => {
                let cid = self.next_connection_id;
                self.next_connection_id = if cid == u64::MAX {
                    0
                } else {
                    cid + 1
                };
                let mark = PlayerMark::X;
                let mut room = Room::new();
                room.connections.push(Connection { id: cid, sender, mark });
                self.rooms.push((room_id.clone(), room));
                proof {
                    assert forall|a: int, b: int|
                        0 <= a < b < self.rooms@.len() implies (#[trigger] self.rooms@[a].0@)
                        != (#[trigger] self.rooms@[b].0@) by {
                        if b < self.rooms@.len() - 1 {
                            assert(old(self).rooms@[a].0@ != old(self).rooms@[b].0@);
                        } else {
                            if self.rooms@[a].0@ == room_id@ {
                                assert(old(self).rooms@[a].0@ == room_id@);
                                assert(has_room_id(old(self).rooms@, room_id@));
                            }
                        }
                    }
                    lemma_room_index_of(self.rooms@, room_id@, self.rooms@.len() - 1);
                    assert forall|k: int| 0 <= k < self.rooms@.len() implies room_wf(
                        (#[trigger] self.rooms@[k]).1,
                    ) && self.rooms@[k].1.connections@.len() >= 1 by {
                        if k < self.rooms@.len() - 1 {
                            assert(self.rooms@[k] == old(self).rooms@[k]);
                            assert(room_wf(old(self).rooms@[k].1));
                            assert(old(self).rooms@[k].1.connections@.len() >= 1);
                        }
                    }
                    assert(state_wf(*self));
                }
                Ok(Joined { connection_id: cid, mark, num_connections: 1 })
            },
        }
    }

    /// Removes the listed connections from the room stored under `room_id`,
    /// deleting the room entirely when it becomes empty. Without such a room
    /// nothing changes.
    pub fn remove_connections(&mut self, room_id: &String, ids: &Vec<u64>)
        requires
            state_wf(*old(self)),
        ensures
            state_wf(*final(self)),
            final(self).next_connection_id == old(self).next_connection_id,
            !has_room_id(old(self).rooms@, room_id@) ==> *final(self) == *old(self),
            has_room_id(old(self).rooms@, room_id@) ==> ({
                let i = room_index(old(self).rooms@, room_id@);
                let kept = kept_conns(old(self).rooms@[i].1.connections@, ids@);
                if kept.len() == 0 {
                    final(self).rooms@ == old(self).rooms@.remove(i)
                } else {
                    &&& final(self).rooms@.len() == old(self).rooms@.len()
                    &&& final(self).rooms@[i].0 == old(self).rooms@[i].0
                    &&& final(self).rooms@[i].1.connections@ == kept
                    &&& final(self).rooms@[i].1@ == old(self).rooms@[i].1@
                    &&& forall|k: int|
                        0 <= k < old(self).rooms@.len() && k != i ==> final(self).rooms@[k] == old(
                            self,
                        ).rooms@[k]
                }
            }),
    {
        let idx_opt = self.find_room(room_id);
        if let Some(i) = idx_opt {
            proof {
                lemma_room_index_of(self.rooms@, room_id@, i as int);
            }
            let ghost orig = self.rooms@[i as int].1.connections@;
            let ghost t: int = 0;
            let mut j: usize = 0;
            while j < self.rooms[i].1.connections.len()
                invariant
                    state_wf(*old(self)),
                    0 <= i < self.rooms@.len(),
                    self.rooms@.len() == old(self).rooms@.len(),
                    self.rooms@[i as int].0 == old(self).rooms@[i as int].0,
                    self.rooms@[i as int].1@ == old(self).rooms@[i as int].1@,
                    forall|k: int|
                        0 <= k < old(self).rooms@.len() && k != i ==> self.rooms@[k] == old(
                            self,
                        ).rooms@[k],
                    self.next_connection_id == old(self).next_connection_id,
                    orig == old(self).rooms@[i as int].1.connections@,
                    0 <= t <= orig.len(),
                    j as int == kept_conns(orig.subrange(0, t), ids@).len(),
                    self.rooms@[i as int].1.connections@ =~= kept_conns(orig.subrange(0, t), ids@)
                        + orig.subrange(t, orig.len() as int),
                decreases orig.len() - t,
            {
                proof {
                    lemma_kept_len(orig.subrange(0, t), ids@);
                    assert(orig.subrange(0, t + 1).drop_last() =~= orig.subrange(0, t));
                    assert(orig.subrange(0, t + 1).last() == orig[t]);
                }
                let cur_id = self.rooms[i].1.connections[j].id;
                assert(cur_id == orig[t].id);
                if contains_id(ids, cur_id) {
                    let pair = &mut self.rooms[i];
                    pair.1.connections.remove(j);
                    proof {
                        assert(self.rooms@[i as int].1.connections@ =~= kept_conns(
                            orig.subrange(0, t + 1),
                            ids@,
                        ) + orig.subrange(t + 1, orig.len() as int));
                    }
                } else {
                    j = j + 1;
                    proof {
                        assert(self.rooms@[i as int].1.connections@ =~= kept_conns(
                            orig.subrange(0, t + 1),
                            ids@,
                        ) + orig.subrange(t + 1, orig.len() as int));
                    }
                }
                proof {
                    t = t + 1;
                }
            }
            proof {
                lemma_kept_len(orig.subrange(0, t), ids@);
                assert(orig.subrange(t, orig.len() as int).len() == 0);
                assert(orig.subrange(0, orig.len() as int) =~= orig);
                lemma_kept_len(orig, ids@);
            }
            if self.rooms[i].1.connections.len() == 0 {
                self.rooms.remove(i);
                proof {
                    assert(self.rooms@ =~= old(self).rooms@.remove(i as int));
                    assert forall|k: int| 0 <= k < self.rooms@.len() implies room_wf(
                        (#[trigger] self.rooms@[k]).1,
                    ) && self.rooms@[k].1.connections@.len() >= 1 by {
                        if k < i as int {
                            assert(self.rooms@[k] == old(self).rooms@[k]);
                            assert(room_wf(old(self).rooms@[k].1));
                            assert(old(self).rooms@[k].1.connections@.len() >= 1);
                        } else {
                            assert(self.rooms@[k] == old(self).rooms@[k + 1]);
                            assert(room_wf(old(self).rooms@[k + 1].1));
                            assert(old(self).rooms@[k + 1].1.connections@.len() >= 1);
                        }
                    }
                    assert forall|a: int, b: int|
                        0 <= a < b < self.rooms@.len() implies (#[trigger] self.rooms@[a].0@)
                        != (#[trigger] self.rooms@[b].0@) by {
                        let a0 = if a < i as int { a } else { a + 1 };
                        let b0 = if b < i as int { b } else { b + 1 };
                        assert(self.rooms@[a] == old(self).rooms@[a0]);
                        assert(self.rooms@[b] == old(self).rooms@[b0]);
                        assert(old(self).rooms@[a0].0@ != old(self).rooms@[b0].0@);
                    }
                    assert(state_wf(*self));
                }
            } else {
                proof {
                    assert(room_wf(old(self).rooms@[i as int].1));
                    assert forall|k: int| 0 <= k < self.rooms@.len() implies room_wf(
                        (#[trigger] self.rooms@[k]).1,
                    ) && self.rooms@[k].1.connections@.len() >= 1 by {
                        assert(room_wf(old(self).rooms@[k].1));
                        assert(old(self).rooms@[k].1.connections@.len() >= 1);
                        if k != i as int {
                            assert(self.rooms@[k] == old(self).rooms@[k]);
                        }
                    }
                    assert forall|k: int| 0 <= k < self.rooms@.len() implies (#[trigger] self.rooms@[k]).0
                        == old(self).rooms@[k].0 by {
                        if k != i as int {
                            assert(self.rooms@[k] == old(self).rooms@[k]);
                        }
                    }
                    assert(state_wf(*self));
                }
            }
        }
    }

    /// A snapshot of the room's participants, taken under the registry lock
    /// so that no delivery happens while it is held: the same identifiers
    /// and marks in the same order, each with a cloned channel handle.
    pub fn snapshot_senders(&self, room_id: &String) -> (r: Option<Vec<Connection>>)
        requires
            state_wf(*self),
        ensures
            r is Some <==> has_room_id(self.rooms@, room_id@),
            r matches Some(v) ==> conn_pairs(v@) == conn_pairs(
                self.rooms@[room_index(self.rooms@, room_id@)].1.connections@,
            ),
    {
        let idx_opt = self.find_room(room_id);
        match idx_opt {
            Some(i) => {
                proof {
                    lemma_room_index_of(self.rooms@, room_id@, i as int);
                }
                let mut v: Vec<Connection> = Vec::new();
                let mut j: usize = 0;
                let n = self.rooms[i].1.connections.len();
                while j < n
                    invariant
                        0 <= i < self.rooms@.len(),
                        n == self.rooms@[i as int].1.connections@.len(),
                        j <= n,
                        v@.len() == j,
                        forall|k: int|
                            0 <= k < j ==> (#[trigger] v@[k]).id
                                == self.rooms@[i as int].1.connections@[k].id && v@[k].mark
                                == self.rooms@[i as int].1.connections@[k].mark,
                    decreases n - j,
                {
                    let c = clone_connection(&self.rooms[i].1.connections[j]);
                    v.push(c);
                    j = j + 1;
                }
                proof {
                    assert(conn_pairs(v@) =~= conn_pairs(
                        self.rooms@[room_index(self.rooms@, room_id@)].1.connections@,
                    ));
                }
                Some(v)
            },
            None => None,
        }
    }

    /// A snapshot of the room's participants other than `exclude`: used for
    /// leave announcements, which the departing connection cannot receive.
    pub fn snapshot_excluding(&self, room_id: &String, exclude: u64) -> (r: Option<
        Vec<Connection>,
    >)
        requires
            state_wf(*self),
        ensures
            r is Some <==> has_room_id(self.rooms@, room_id@),
            r matches Some(v) ==> conn_pairs(v@) == pairs_without(
                self.rooms@[room_index(self.rooms@, room_id@)].1.connections@,
                exclude,
            ),
    {
        let idx_opt = self.find_room(room_id);
        match idx_opt {
            Some(i) => {
                proof {
                    lemma_room_index_of(self.rooms@, room_id@, i as int);
                }
                let ghost conns = self.rooms@[i as int].1.connections@;
                let mut v: Vec<Connection> = Vec::new();
                let mut j: usize = 0;
                let n = self.rooms[i].1.connections.len();
                while j < n
                    invariant
                        0 <= i < self.rooms@.len(),
                        conns == self.rooms@[i as int].1.connections@,
                        n == conns.len(),
                        j <= n,
                        conn_pairs(v@) =~= pairs_without(conns.subrange(0, j as int), exclude),
                    decreases n - j,
                {
                    proof {
                        assert(conns.subrange(0, j + 1).drop_last() =~= conns.subrange(0, j as int));
                        assert(conns.subrange(0, j + 1).last() == conns[j as int]);
                    }
                    let c = &self.rooms[i].1.connections[j];
                    if c.id != exclude {
                        let copy = clone_connection(c);
                        let ghost prev = v@;
                        v.push(copy);
                        proof {
                            assert(conn_pairs(v@) =~= conn_pairs(prev).push(
                                (conns[j as int].id, conns[j as int].mark),
                            ));
                        }
                    }
                    j = j + 1;
                }
                proof {
                    assert(conns.subrange(0, n as int) =~= conns);
                }
                Some(v)
            },
            None => None,
        }
    }
}

} // verus!
