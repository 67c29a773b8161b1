//! The outbound channel boundary: each connection owns an unbounded queue
//! that its outbound loop drains, and the library writes into it through the
//! trusted items below. A failed write means the connection is gone and
//! drives the dead-connection cleanup.

use vstd::prelude::*;

verus! {

/// tokio's unbounded channel sender, opaque to the library: the contracts of
/// the registry and of the broadcast engine never look inside it.
#[verifier::external_type_specification]
#[verifier::external_body]
#[verifier::reject_recursive_types(T)]
pub struct ExUnboundedSender<T>(tokio::sync::mpsc::UnboundedSender<T>);

/// Relies on tokio's `UnboundedSender::clone`: the clone is a handle to the
/// same channel. Nothing is claimed of the returned value; delivery through
/// it is observable only at run time.
pub assume_specification<T>[ <tokio::sync::mpsc::UnboundedSender<T> as Clone>::clone ](
    tx: &tokio::sync::mpsc::UnboundedSender<T>,
) -> tokio::sync::mpsc::UnboundedSender<T>;

/// Relies on tokio's `UnboundedSender::send`: it queues the message for the
/// receiver and fails exactly when the receive half is closed or dropped.
/// Whether a given send succeeds depends on the peer, so nothing is claimed
/// of the result; callers state what holds either way.
#[verifier::external_body]
pub(crate) fn send_text(tx: &tokio::sync::mpsc::UnboundedSender<String>, msg: String) -> (ok:
    bool) {
    match tx.send(msg) {
        Ok(()) => true,
        Err(_) => false,
    }
}

} // verus!
