//! The delivery pass of the broadcast engine. A snapshot of a room's
//! participants is taken under the registry lock; the passes here run after
//! the lock is released, send to each recipient's queue in order, and report
//! the connections whose queue is gone so the caller can prune them.

use vstd::prelude::*;

use crate::channel::send_text;
use crate::room::Connection;

verus! {

/// The identifiers of a connection list, in order.
pub open spec fn ids_of(s: Seq<Connection>) -> Seq<u64> {
    s.map_values(|c: Connection| c.id)
}

/// Sends `message` to every connection of the snapshot, in order. The
/// result lists the identifiers whose delivery failed — dead connections
/// for the caller to remove. Whether a given send fails depends on the
/// peer, so the contract pins only that every reported identifier is one of
/// the snapshot's.
pub fn send_to_all(snapshot: &Vec<Connection>, message: &String) -> (dead: Vec<u64>)
    ensures
        dead@.len() <= snapshot@.len(),
        forall|k: int| 0 <= k < dead@.len() ==> ids_of(snapshot@).contains(#[trigger] dead@[k]),
{
    let mut dead: Vec<u64> = Vec::new();
    let mut j: usize = 0;
    while j < snapshot.len()
        invariant
            j <= snapshot@.len(),
            dead@.len() <= j,
            forall|k: int| 0 <= k < dead@.len() ==> ids_of(snapshot@).contains(#[trigger] dead@[k]),
        decreases snapshot@.len() - j,
    {
        let c = &snapshot[j];
        if !send_text(&c.sender, message.clone()) {
            proof {
                assert(ids_of(snapshot@)[j as int] == snapshot@[j as int].id);
            }
            dead.push(c.id);
        }
        j = j + 1;
    }
    dead
}

/// Sends `messages[k]` to `snapshot[k]`, in order: the per-recipient
/// delivery used for join and leave announcements, whose text differs per
/// recipient. The result lists the identifiers whose delivery failed.
pub fn send_each(snapshot: &Vec<Connection>, messages: &Vec<String>) -> (dead: Vec<u64>)
    requires
        messages@.len() == snapshot@.len(),
    ensures
        dead@.len() <= snapshot@.len(),
        forall|k: int| 0 <= k < dead@.len() ==> ids_of(snapshot@).contains(#[trigger] dead@[k]),
{
    let mut dead: Vec<u64> = Vec::new();
    let mut j: usize = 0;
    while j < snapshot.len()
        invariant
            j <= snapshot@.len(),
            messages@.len() == snapshot@.len(),
            dead@.len() <= j,
            forall|k: int| 0 <= k < dead@.len() ==> ids_of(snapshot@).contains(#[trigger] dead@[k]),
        decreases snapshot@.len() - j,
    {
        let c = &snapshot[j];
        if !send_text(&c.sender, messages[j].clone()) {
            proof {
                assert(ids_of(snapshot@)[j as int] == snapshot@[j as int].id);
            }
            dead.push(c.id);
        }
        j = j + 1;
    }
    dead
}

/// Sends `message` to the one connection of the snapshot whose identifier
/// is `to`, if present: targeted delivery for error responses. Returns
/// whether a send failed, in which case `to` is dead and should be removed.
pub fn send_to_one(snapshot: &Vec<Connection>, to: u64, message: &String) -> (failed: bool)
    ensures
        failed ==> ids_of(snapshot@).contains(to),
{
    let mut j: usize = 0;
    while j < snapshot.len()
        invariant
            j <= snapshot@.len(),
        decreases snapshot@.len() - j,
    {
        let c = &snapshot[j];
        if c.id == to {
            proof {
                assert(ids_of(snapshot@)[j as int] == snapshot@[j as int].id);
            }
            return !send_text(&c.sender, message.clone());
        }
        j = j + 1;
    }
    false
}

} // verus!
