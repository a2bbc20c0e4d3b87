//! A minimal single-leader election and heartbeat core for a fixed-membership
//! cluster: terms, roles, quorum counting, the wire codecs for election
//! messages, and the timeout rules that drive elections.
//!
//! The crate holds only the cluster logic. Listening, connecting and the
//! scheduler loop live with the caller, which feeds received frames to
//! [`manager::ClusterManager::process_operation`] and performs the sends and
//! waits that the library's results ask for.
use vstd::prelude::*;

pub mod manager;
pub mod membership;
pub mod message;
pub mod operation;

verus! {

/// Interval in milliseconds between two heartbeats of a leader.
pub const HEARTBEAT_INTERVAL: u64 = 1500;

/// Number of votes needed to lead a cluster of `n` members: a strict majority.
pub open spec fn spec_quorum(n: int) -> int {
    n / 2 + 1
}

/// Required votes for a cluster of `n` members.
pub fn quorum(n: usize) -> (r: usize)
    requires
        n < usize::MAX,
    ensures
        r == spec_quorum(n as int),
{
    n / 2 + 1
}

} // verus!
