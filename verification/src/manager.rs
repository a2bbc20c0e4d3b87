//! The cluster state machine: the `(term, role)` pair of one node, the rules
//! that resolve term conflicts and count quorum votes, and the role-dependent
//! timeout that drives elections and heartbeats.
//!
//! The caller owns the wires and the clock. It feeds every received frame to
//! [`ClusterManager::process_operation`], performs the [`Outbound`] sends the
//! library hands back, and asks [`ClusterManager::state_action`] how long to
//! wait before calling [`ClusterManager::handle_timeout`].
use rand::Rng;
use vstd::prelude::*;

use crate::membership::addr_of_id;
use crate::membership::distinct_ids;
use crate::membership::has_id;
use crate::membership::peer_addrs;
use crate::membership::Membership;
use crate::message::Message;
use crate::message::MessageType;
use crate::message::Response;

pub mod operation;

verus! {

/// Role of a node within the cluster.
///
/// A candidate carries the number of votes received for the current term,
/// starting with its own.
#[derive(Clone, Copy, Debug, PartialEq, Eq, Structural)]
pub enum Role {
    /// The only role that emits heartbeats; there should be one per cluster.
    Leader,
    /// Passive: waits for heartbeats or vote requests.
    Follower,
    /// Accumulating votes for the current term.
    Candidate(u8),
}

/// A send that the caller performs on the library's behalf.
#[derive(Debug)]
pub enum Outbound {
    /// Write the operation, framed, to this one address.
    Unicast(String, operation::Operation),
    /// Write the operation, framed, to every other member of the cluster.
    Broadcast(operation::Operation),
}

/// The `(term, role, voters)` triple after a frame from peer `peer_id` at
/// `peer_term` carrying `m` is processed by a node at `term` with `role` in
/// a cluster of `n` members, `voters` being the identifiers whose votes the
/// node has already counted for the current term (its own among them).
///
/// A stale message changes nothing. A newer term is adopted and demotes to
/// follower, discarding any candidacy and its counted voters. At equal
/// terms, a heartbeat demotes a candidate (a leader for this term exists), a
/// granted vote from a voter not yet counted advances a candidate and crowns
/// it once the count reaches quorum, a grant replayed from an
/// already-counted voter changes nothing (one vote per member per term), and
/// a vote request is refused (at equal terms this node has a vote of its own
/// to protect).
pub open spec fn step(
    term: u8,
    role: Role,
    n: nat,
    voters: Seq<u8>,
    peer_id: u8,
    peer_term: u8,
    m: operation::OperationModel,
) -> (u8, Role, Seq<u8>) {
    if peer_term < term {
        (term, role, voters)
    } else if peer_term > term {
        (peer_term, Role::Follower, Seq::empty())
    } else {
        match m {
            operation::OperationModel::Heartbeat => (
                term,
                if role is Candidate {
                    Role::Follower
                } else {
                    role
                },
                voters,
            ),
            operation::OperationModel::Vote(Some(_)) => (term, role, voters),
            operation::OperationModel::Vote(None) => match role {
                Role::Candidate(c) => if voters.contains(peer_id) {
                    (term, role, voters)
                } else if c + 1 >= crate::spec_quorum(n as int) {
                    (term, Role::Leader, voters.push(peer_id))
                } else {
                    (term, Role::Candidate((c + 1) as u8), voters.push(peer_id))
                },
                _ => (term, role, voters),
            },
        }
    }
}

/// Whether the frame is acted on, as opposed to ignored: anything from a
/// newer term; at equal terms a heartbeat, or a granted vote reaching a
/// candidate from a voter not counted yet. The caller wakes the timeout
/// scheduler exactly in these cases.
pub open spec fn spec_accepts(
    term: u8,
    role: Role,
    voters: Seq<u8>,
    peer_id: u8,
    peer_term: u8,
    m: operation::OperationModel,
) -> bool {
    if peer_term < term {
        false
    } else if peer_term > term {
        true
    } else {
        match m {
            operation::OperationModel::Heartbeat => true,
            operation::OperationModel::Vote(None) => role is Candidate && !voters.contains(
                peer_id,
            ),
            operation::OperationModel::Vote(Some(_)) => false,
        }
    }
}

/// The membership after the frame: a stale vote request from an unknown
/// sender registers the sender's address (late-joining discovery); nothing
/// else touches it.
pub open spec fn cluster_after(
    pre: Seq<(u8, Seq<char>)>,
    term: u8,
    peer_id: u8,
    peer_term: u8,
    m: operation::OperationModel,
) -> Seq<(u8, Seq<char>)> {
    match m {
        operation::OperationModel::Vote(Some(a)) => if peer_term < term && !has_id(pre, peer_id) {
            pre.push((peer_id, a))
        } else {
            pre
        },
        _ => pre,
    }
}

/// The address a vote grant is owed to: the address carried by a vote
/// request from a newer term. Equal or older vote requests get no grant.
pub open spec fn spec_reply_to(term: u8, peer_term: u8, m: operation::OperationModel) -> Option<
    Seq<char>,
> {
    match m {
        operation::OperationModel::Vote(Some(a)) => if peer_term > term {
            Some(a)
        } else {
            None
        },
        _ => None,
    }
}

/// The operation carried by a raw frame `[sender id, sender term, payload..]`,
/// if the frame is long enough and its payload decodes.
pub open spec fn spec_frame_op(raw: Seq<u8>) -> Option<operation::OperationModel> {
    if raw.len() < 2 {
        None
    } else {
        operation::spec_decode_op(raw.skip(2))
    }
}

/// The `(term, role)` pair after a request frame of the persistent-connection
/// exchange. The rules of [`step`] carried over to that frame set, with one
/// exception: a replication request from a term this node has never seen a
/// heartbeat for is a protocol violation and is refused without adopting the
/// term.
pub open spec fn message_step(term: u8, role: Role, message: Message) -> (u8, Role) {
    if message.term < term {
        (term, role)
    } else if message.term > term {
        match message.body {
            MessageType::AppendEntry => (term, role),
            _ => (message.term, Role::Follower),
        }
    } else {
        match message.body {
            MessageType::Heartbeat => (
                term,
                if role is Candidate {
                    Role::Follower
                } else {
                    role
                },
            ),
            _ => (term, role),
        }
    }
}

/// The reply owed to a request frame: stale requests and same-term vote
/// requests are refused, replication requests from an unseen term are
/// refused, everything else is acknowledged.
pub open spec fn message_response(term: u8, role: Role, message: Message) -> Response {
    if message.term < term {
        Response::Nack
    } else if message.term > term {
        match message.body {
            MessageType::AppendEntry => Response::Nack,
            _ => Response::Ack,
        }
    } else {
        match message.body {
            MessageType::RequestVote => Response::Nack,
            _ => Response::Ack,
        }
    }
}

/// The `(term, role, voters)` triple after a whole sequence of frames, each
/// given as `(cluster size, sender id, sender term, operation)`, is
/// processed in order.
pub open spec fn run(
    term: u8,
    role: Role,
    voters: Seq<u8>,
    frames: Seq<(nat, u8, u8, operation::OperationModel)>,
) -> (u8, Role, Seq<u8>)
    decreases frames.len(),
{
    if frames.len() == 0 {
        (term, role, voters)
    } else {
        let first = step(term, role, frames[0].0, voters, frames[0].1, frames[0].2, frames[0].3);
        run(first.0, first.1, first.2, frames.drop_first())
    }
}

/// Law: one processed operation never lowers the term.
pub proof fn lemma_step_term_monotonic(
    term: u8,
    role: Role,
    n: nat,
    voters: Seq<u8>,
    peer_id: u8,
    peer_term: u8,
    m: operation::OperationModel,
)
    ensures
        term <= step(term, role, n, voters, peer_id, peer_term, m).0,
{
}

/// Law: over any sequence of processed operations, the term never decreases.
pub proof fn lemma_term_monotonic(
    term: u8,
    role: Role,
    voters: Seq<u8>,
    frames: Seq<(nat, u8, u8, operation::OperationModel)>,
)
    ensures
        term <= run(term, role, voters, frames).0,
    decreases frames.len(),
{
    if frames.len() > 0 {
        let first = step(term, role, frames[0].0, voters, frames[0].1, frames[0].2, frames[0].3);
        lemma_term_monotonic(first.0, first.1, first.2, frames.drop_first());
    }
}

/// Law: a message from an older term changes nothing, and is never acted on.
pub proof fn lemma_stale_rejected(
    term: u8,
    role: Role,
    n: nat,
    voters: Seq<u8>,
    peer_id: u8,
    peer_term: u8,
    m: operation::OperationModel,
)
    requires
        peer_term < term,
    ensures
        step(term, role, n, voters, peer_id, peer_term, m) == (term, role, voters),
        !spec_accepts(term, role, voters, peer_id, peer_term, m),
{
}

/// Law: a message from a newer term always leaves the node at that term and
/// as a follower — in particular never as a leader — with its counted
/// voters discarded.
pub proof fn lemma_higher_term_adoption(
    term: u8,
    role: Role,
    n: nat,
    voters: Seq<u8>,
    peer_id: u8,
    peer_term: u8,
    m: operation::OperationModel,
)
    requires
        peer_term > term,
    ensures
        step(term, role, n, voters, peer_id, peer_term, m).0 == peer_term,
        step(term, role, n, voters, peer_id, peer_term, m).1 == Role::Follower,
        !(step(term, role, n, voters, peer_id, peer_term, m).1 is Leader),
        step(term, role, n, voters, peer_id, peer_term, m).2 == Seq::<u8>::empty(),
{
}

/// Law: a same-term heartbeat delivered to a candidate demotes it to
/// follower: the heartbeat proves a leader for this term already exists.
pub proof fn lemma_heartbeat_demotes_candidate(
    term: u8,
    c: u8,
    n: nat,
    voters: Seq<u8>,
    peer_id: u8,
)
    ensures
        step(
            term,
            Role::Candidate(c),
            n,
            voters,
            peer_id,
            term,
            operation::OperationModel::Heartbeat,
        ).1 == Role::Follower,
{
}

/// Law: a same-term granted vote from a voter not counted yet advances a
/// candidate, and crowns it exactly when the new count reaches quorum.
pub proof fn lemma_vote_accumulation(term: u8, c: u8, n: nat, voters: Seq<u8>, peer_id: u8)
    requires
        !voters.contains(peer_id),
    ensures
        step(
            term,
            Role::Candidate(c),
            n,
            voters,
            peer_id,
            term,
            operation::OperationModel::Vote(None),
        ).1 == (if c + 1 >= crate::spec_quorum(n as int) {
            Role::Leader
        } else {
            Role::Candidate((c + 1) as u8)
        }),
        step(
            term,
            Role::Candidate(c),
            n,
            voters,
            peer_id,
            term,
            operation::OperationModel::Vote(None),
        ).2 == voters.push(peer_id),
{
}

/// Law: a grant replayed from an already-counted voter — the sender's own
/// duplicated vote included — changes nothing and is not acted on: one vote
/// per member per term, however often its frame is delivered.
pub proof fn lemma_replayed_vote_not_counted(term: u8, c: u8, n: nat, voters: Seq<u8>, peer_id: u8)
    requires
        voters.contains(peer_id),
    ensures
        step(
            term,
            Role::Candidate(c),
            n,
            voters,
            peer_id,
            term,
            operation::OperationModel::Vote(None),
        ) == (term, Role::Candidate(c), voters),
        !spec_accepts(
            term,
            Role::Candidate(c),
            voters,
            peer_id,
            term,
            operation::OperationModel::Vote(None),
        ),
{
}

/// Law: a raw frame built from a sender, a term and an operation carries all
/// three back out unchanged — [`ClusterManager::frame`] produces exactly
/// this byte sequence. The one exception stays the vote request with an
/// empty address, which the wire cannot tell from a granted vote.
pub proof fn lemma_frame_round_trip(id: u8, term: u8, m: operation::OperationModel)
    requires
        m matches operation::OperationModel::Vote(Some(a)) ==> a.len() > 0,
    ensures
        ({
            let raw = seq![id, term] + operation::spec_encode_op(m);
            raw[0] == id && raw[1] == term && spec_frame_op(raw) == Some(m)
        }),
{
    operation::lemma_operation_model_round_trip(m);
    assert((seq![id, term] + operation::spec_encode_op(m)).skip(2) =~= operation::spec_encode_op(
        m,
    ));
}

/// Law: one processed request frame never lowers the term.
pub proof fn lemma_message_term_monotonic(term: u8, role: Role, message: Message)
    ensures
        term <= message_step(term, role, message).0,
{
}

/// Law: a stale request frame changes neither term nor role and is refused.
pub proof fn lemma_message_stale_rejected(term: u8, role: Role, message: Message)
    requires
        message.term < term,
    ensures
        message_step(term, role, message) == (term, role),
        message_response(term, role, message) == Response::Nack,
{
}

/// Law: a vote request or heartbeat from a newer term always leaves the node
/// at that term and as a follower, never as a leader. A replication request
/// is the one frame that does not carry a term forward: it is refused
/// instead.
pub proof fn lemma_message_higher_term_adoption(term: u8, role: Role, message: Message)
    requires
        message.term > term,
        !(message.body is AppendEntry),
    ensures
        message_step(term, role, message).0 == message.term,
        message_step(term, role, message).1 == Role::Follower,
        !(message_step(term, role, message).1 is Leader),
{
}

/// Law: a same-term heartbeat request demotes a candidate to follower.
pub proof fn lemma_message_heartbeat_demotes_candidate(term: u8, c: u8)
    ensures
        message_step(
            term,
            Role::Candidate(c),
            Message { term, body: MessageType::Heartbeat },
        ).1 == Role::Follower,
{
}

/// Relies on `rand::Rng::gen_range` over a `Range<u64>`: it panics only on an
/// empty range, ruled out here, and otherwise samples a value of the range,
/// upper bound excluded.
#[verifier::external_body]
fn random_in_range(low: u64, high: u64) -> (r: u64)
    requires
        low < high,
    ensures
        low <= r < high,
{
    rand::thread_rng().gen_range(low..high)
}

/// The authoritative state of this node: its term and role, the identifiers
/// whose votes it has counted for the current term, the cluster's
/// membership, and this node's own identifier.
///
/// Term and role only ever change together under one exclusive borrow; a
/// caller that shares the manager between a listener and a scheduler wraps
/// the whole value in one lock.
pub struct ClusterManager {
    state: Role,
    term: u8,
    voters: Vec<u8>,
    cluster_map: Membership,
    node_id: u8,
}

impl ClusterManager {
    /// Current role.
    pub closed spec fn spec_role(&self) -> Role {
        self.state
    }

    /// Current term.
    pub closed spec fn spec_term(&self) -> u8 {
        self.term
    }

    /// Identifiers whose votes were counted for the current term.
    pub closed spec fn spec_voters(&self) -> Seq<u8> {
        self.voters@
    }

    /// Membership entries.
    pub closed spec fn spec_cluster(&self) -> Seq<(u8, Seq<char>)> {
        self.cluster_map@
    }

    /// This node's identifier.
    pub closed spec fn spec_id(&self) -> u8 {
        self.node_id
    }

    /// Member identifiers are unique and include this node's own, so the
    /// node has a listen address and quorum arithmetic stays in bounds; no
    /// voter is counted twice, and a candidate's count is exactly its number
    /// of counted voters.
    pub open spec fn wf(&self) -> bool {
        &&& distinct_ids(self.spec_cluster())
        &&& self.spec_cluster().len() <= 256
        &&& has_id(self.spec_cluster(), self.spec_id())
        &&& self.spec_voters().no_duplicates()
        &&& (self.spec_role() matches Role::Candidate(c) ==> c == self.spec_voters().len())
    }

    /// A fresh node: term `0`, a candidate holding its own vote — the one
    /// counted voter is the node itself — as every node starts an election
    /// on boot.
    pub fn new(cluster_map: Membership, node_id: u8) -> (r: Self)
        requires
            cluster_map.wf(),
            has_id(cluster_map@, node_id),
        ensures
            r.wf(),
            r.spec_term() == 0,
            r.spec_role() == Role::Candidate(1),
            r.spec_voters() == seq![node_id],
            r.spec_cluster() == cluster_map@,
            r.spec_id() == node_id,
    {
        let mut voters: Vec<u8> = Vec::new();
        voters.push(node_id);
        let r = Self { state: Role::Candidate(1), term: 0, voters, cluster_map, node_id };
        proof {
            assert(r.spec_voters() =~= seq![node_id]);
        }
        r
    }

    fn has_voted(&self, id: u8) -> (r: bool)
        ensures
            r == self.spec_voters().contains(id),
    {
        let mut i: usize = 0;
        while i < self.voters.len()
            invariant
                i <= self.voters@.len(),
                forall|j: int| 0 <= j < i ==> self.voters@[j] != id,
            decreases self.voters@.len() - i,
        {
            if self.voters[i] == id {
                proof {
                    assert(self.voters@[i as int] == id);
                }
                return true;
            }
            i += 1;
        }
        proof {
            assert(!self.voters@.contains(id));
        }
        false
    }

    /// The address this node should listen on.
    pub fn listen_address(&self) -> (r: String)
        requires
            self.wf(),
        ensures
            r@ == addr_of_id(self.spec_cluster(), self.spec_id()),
    {
        match self.cluster_map.address_of(self.node_id) {
            Some(address) => address,
            None => {
                // unreachable: well-formedness puts this node in the map
                String::new()
            }
        }
    }

    /// Addresses of every other member, for fanning a broadcast out.
    pub fn peer_addresses(&self) -> (r: Vec<String>)
        ensures
            r.deep_view() == peer_addrs(self.spec_cluster(), self.spec_id()),
    {
        self.cluster_map.peer_addresses(self.node_id)
    }

    /// Current term, for observation.
    pub fn term(&self) -> (r: u8)
        ensures
            r == self.spec_term(),
    {
        self.term
    }

    /// Current role, for observation.
    pub fn role(&self) -> (r: Role)
        ensures
            r == self.spec_role(),
    {
        self.state
    }

    /// Number of known members, this node included.
    pub fn cluster_len(&self) -> (r: usize)
        ensures
            r == self.spec_cluster().len(),
    {
        self.cluster_map.len()
    }

    fn set_state(&mut self, state: Role)
        ensures
            final(self).state == state,
            final(self).term == old(self).term,
            final(self).voters == old(self).voters,
            final(self).cluster_map == old(self).cluster_map,
            final(self).node_id == old(self).node_id,
    {
        self.state = state;
    }

    /// The timeout expired with no news from the cluster. A leader keeps its
    /// role (its heartbeat round is due); anyone else starts a new election:
    /// next term, candidate with its own vote, last term's counted voters
    /// discarded.
    pub fn handle_timeout(&mut self)
        requires
            old(self).wf(),
            old(self).spec_role() is Leader || old(self).spec_term() < 255,
        ensures
            final(self).wf(),
            final(self).spec_id() == old(self).spec_id(),
            final(self).spec_cluster() == old(self).spec_cluster(),
            old(self).spec_role() is Leader ==> final(self).spec_term() == old(self).spec_term()
                && final(self).spec_role() == old(self).spec_role() && final(self).spec_voters()
                == old(self).spec_voters(),
            !(old(self).spec_role() is Leader) ==> {
                &&& final(self).spec_term() == old(self).spec_term() + 1
                &&& final(self).spec_role() == Role::Candidate(1)
                &&& final(self).spec_voters() == seq![old(self).spec_id()]
            },
    {
        match self.state {
            Role::Leader => {}
            Role::Follower | Role::Candidate(_) => {
                self.term = self.term + 1;
                self.voters.clear();
                self.voters.push(self.node_id);
                self.set_state(Role::Candidate(1));
                proof {
                    assert(self.spec_voters() =~= seq![old(self).spec_id()]);
                }
            }
        }
    }

    /// What the current role owes the cluster, and how long to wait for news
    /// before the next [`Self::handle_timeout`]: a leader re-broadcasts its
    /// heartbeat every interval; a fresh candidate broadcasts its vote
    /// request; followers and candidates wait a random timeout in
    /// `[3×interval, 5×interval)` so simultaneous candidacies break apart.
    pub fn state_action(&self) -> (r: (u64, Option<Outbound>))
        requires
            self.wf(),
        ensures
            self.spec_role() is Leader ==> r.0 == crate::HEARTBEAT_INTERVAL,
            !(self.spec_role() is Leader) ==> crate::HEARTBEAT_INTERVAL * 3 <= r.0
                < crate::HEARTBEAT_INTERVAL * 5,
            self.spec_role() is Leader ==> (r.1 matches Some(Outbound::Broadcast(op))
                && op.model() == operation::OperationModel::Heartbeat),
            self.spec_role() == Role::Candidate(1) ==> (r.1 matches Some(Outbound::Broadcast(op))
                && op.model() == operation::OperationModel::Vote(
                Some(addr_of_id(self.spec_cluster(), self.spec_id())),
            )),
            self.spec_role() is Follower ==> r.1 is None,
            (self.spec_role() matches Role::Candidate(c) && c != 1) ==> r.1 is None,
    {
        match self.state {
            Role::Leader => (
                crate::HEARTBEAT_INTERVAL,
                Some(Outbound::Broadcast(operation::Operation::Heartbeat)),
            ),
            Role::Candidate(c) => {
                let timeout = random_in_range(
                    crate::HEARTBEAT_INTERVAL * 3,
                    crate::HEARTBEAT_INTERVAL * 5,
                );
                if c == 1 {
                    let address = self.listen_address();
                    (timeout, Some(Outbound::Broadcast(operation::Operation::Vote(Some(address)))))
                } else {
                    (timeout, None)
                }
            }
            Role::Follower => {
                let timeout = random_in_range(
                    crate::HEARTBEAT_INTERVAL * 3,
                    crate::HEARTBEAT_INTERVAL * 5,
                );
                (timeout, None)
            }
        }
    }

    /// Process one raw frame `[sender id, sender term, payload..]` received
    /// from a peer, under the exclusive borrow that keeps term and role one
    /// consistency domain.
    ///
    /// Returns whether the frame was acted on (the caller wakes the timeout
    /// scheduler exactly then) and the send, if any, that the frame asks
    /// for. A malformed frame is dropped without any effect.
    pub fn process_operation(&mut self, raw: Vec<u8>) -> (r: (
        crate::operation::OperationResult,
        Option<Outbound>,
    ))
        requires
            old(self).wf(),
        ensures
            final(self).wf(),
            final(self).spec_id() == old(self).spec_id(),
            old(self).spec_term() <= final(self).spec_term(),
            spec_frame_op(raw@) is None ==> {
                &&& final(self).spec_term() == old(self).spec_term()
                &&& final(self).spec_role() == old(self).spec_role()
                &&& final(self).spec_voters() == old(self).spec_voters()
                &&& final(self).spec_cluster() == old(self).spec_cluster()
                &&& r.0 == crate::operation::OperationResult::Ignore
                &&& r.1 is None
            },
            spec_frame_op(raw@) matches Some(m) ==> {
                &&& (final(self).spec_term(), final(self).spec_role(), final(self).spec_voters())
                    == step(
                    old(self).spec_term(),
                    old(self).spec_role(),
                    old(self).spec_cluster().len(),
                    old(self).spec_voters(),
                    raw@[0],
                    raw@[1],
                    m,
                )
                &&& r.0 == (if spec_accepts(
                    old(self).spec_term(),
                    old(self).spec_role(),
                    old(self).spec_voters(),
                    raw@[0],
                    raw@[1],
                    m,
                ) {
                    crate::operation::OperationResult::Applied
                } else {
                    crate::operation::OperationResult::Ignore
                })
                &&& final(self).spec_cluster() == cluster_after(
                    old(self).spec_cluster(),
                    old(self).spec_term(),
                    raw@[0],
                    raw@[1],
                    m,
                )
                &&& (match spec_reply_to(old(self).spec_term(), raw@[1], m) {
                    Some(a) => r.1 matches Some(Outbound::Unicast(ad, v)) && ad@ == a
                        && v.model() == operation::OperationModel::Vote(None),
                    None => r.1 is None,
                })
            },
    {
        if raw.len() < 2 {
            return (crate::operation::OperationResult::Ignore, None);
        }
        let peer_id = raw[0];
        let peer_term = raw[1];
        let payload = vstd::slice::slice_to_vec(
            vstd::slice::slice_subrange(raw.as_slice(), 2, raw.len()),
        );
        proof {
            assert(payload@ =~= raw@.skip(2));
        }
        let operation = match operation::Operation::try_from(payload) {
            Ok(operation) => operation,
            Err(_) => {
                return (crate::operation::OperationResult::Ignore, None);
            }
        };

        if peer_term < self.term {
            if !self.cluster_map.contains(peer_id) {
                if let operation::Operation::Vote(Some(address)) = operation {
                    // late-joining discovery: remember the stranger's address
                    self.cluster_map.insert(peer_id, address);
                    proof {
                        let j = choose|j: int|
                            0 <= j < old(self).spec_cluster().len() && (#[trigger] old(
                                self,
                            ).spec_cluster()[j]).0 == old(self).spec_id();
                        assert((self.spec_cluster()[j]).0 == self.spec_id());
                    }
                }
            }
            return (crate::operation::OperationResult::Ignore, None);
        }

        if peer_term > self.term {
            self.term = peer_term;
            self.voters.clear();
            self.set_state(Role::Follower);
            if let operation::Operation::Vote(Some(address)) = operation {
                return (
                    crate::operation::OperationResult::Applied,
                    Some(Outbound::Unicast(address, operation::Operation::Vote(None))),
                );
            }
            return (crate::operation::OperationResult::Applied, None);
        }

        match operation.process(peer_id, self) {
            operation::OperationResult::Applied => (crate::operation::OperationResult::Applied, None),
            operation::OperationResult::Rejected => (crate::operation::OperationResult::Ignore, None),
            operation::OperationResult::Response(op) => {
                match self.cluster_map.address_of(peer_id) {
                    Some(address) => (
                        crate::operation::OperationResult::Applied,
                        Some(Outbound::Unicast(address, op)),
                    ),
                    None => (crate::operation::OperationResult::Ignore, None),
                }
            }
            operation::OperationResult::Broadcast(op) => (
                crate::operation::OperationResult::Applied,
                Some(Outbound::Broadcast(op)),
            ),
        }
    }

    /// Process one request frame of the persistent-connection exchange and
    /// produce the reply owed on the same connection.
    pub fn process_message(&mut self, message: Message) -> (r: Response)
        requires
            old(self).wf(),
        ensures
            final(self).wf(),
            final(self).spec_id() == old(self).spec_id(),
            final(self).spec_cluster() == old(self).spec_cluster(),
            final(self).spec_voters() == old(self).spec_voters(),
            old(self).spec_term() <= final(self).spec_term(),
            (final(self).spec_term(), final(self).spec_role()) == message_step(
                old(self).spec_term(),
                old(self).spec_role(),
                message,
            ),
            r == message_response(old(self).spec_term(), old(self).spec_role(), message),
    {
        if message.term < self.term {
            return Response::Nack;
        }

        if message.term > self.term {
            match message.body {
                MessageType::AppendEntry => {
                    // replication before any heartbeat established a leader
                    // for that term: a protocol violation, refused
                    return Response::Nack;
                }
                MessageType::RequestVote | MessageType::Heartbeat => {
                    self.term = message.term;
                    self.set_state(Role::Follower);
                    return Response::Ack;
                }
            }
        }

        match message.body {
            MessageType::RequestVote => Response::Nack,
            MessageType::Heartbeat => {
                if let Role::Candidate(_) = self.state {
                    self.set_state(Role::Follower);
                }
                Response::Ack
            }
            MessageType::AppendEntry => Response::Ack,
        }
    }

    /// A candidate counted `granted` vote grants from its round of vote
    /// requests; with its own vote they reach quorum or the candidacy stands.
    pub fn tally_votes(&mut self, granted: u8)
        requires
            old(self).wf(),
        ensures
            final(self).wf(),
            final(self).spec_id() == old(self).spec_id(),
            final(self).spec_term() == old(self).spec_term(),
            final(self).spec_cluster() == old(self).spec_cluster(),
            final(self).spec_voters() == old(self).spec_voters(),
            final(self).spec_role() == (if old(self).spec_role() is Candidate && 1 + granted
                >= crate::spec_quorum(old(self).spec_cluster().len() as int) {
                Role::Leader
            } else {
                old(self).spec_role()
            }),
    {
        if let Role::Candidate(_) = self.state {
            let votes: usize = 1 + granted as usize;
            let len = self.cluster_map.len();
            if votes > len / 2 {
                self.set_state(Role::Leader);
            }
        }
    }

    /// The raw frame announcing `operation` from this node: sender
    /// identifier, sender term, then the operation's payload bytes.
    pub fn frame(&self, operation: operation::Operation) -> (r: Vec<u8>)
        ensures
            r@ == seq![self.spec_id(), self.spec_term()] + operation::spec_encode_op(
                operation.model(),
            ),
    {
        let ghost m = operation.model();
        let mut data: Vec<u8> = Vec::new();
        data.push(self.node_id);
        data.push(self.term);
        let mut body = operation.to_bytes();
        data.append(&mut body);
        proof {
            assert(data@ =~= seq![self.spec_id(), self.spec_term()] + operation::spec_encode_op(m));
        }
        data
    }
}

impl operation::Operation {
    /// Apply a same-term operation sent by `peer_id` to the node's state:
    /// the equal-term arm of [`step`]. A grant is counted once per voter per
    /// term; a replayed grant is rejected.
    pub fn process(&self, peer_id: u8, cluster_manager: &mut ClusterManager) -> (r:
        operation::OperationResult)
        requires
            old(cluster_manager).wf(),
        ensures
            final(cluster_manager).wf(),
            final(cluster_manager).spec_id() == old(cluster_manager).spec_id(),
            final(cluster_manager).spec_cluster() == old(cluster_manager).spec_cluster(),
            (
                final(cluster_manager).spec_term(),
                final(cluster_manager).spec_role(),
                final(cluster_manager).spec_voters(),
            ) == step(
                old(cluster_manager).spec_term(),
                old(cluster_manager).spec_role(),
                old(cluster_manager).spec_cluster().len(),
                old(cluster_manager).spec_voters(),
                peer_id,
                old(cluster_manager).spec_term(),
                self.model(),
            ),
            r is Applied || r is Rejected,
            r is Applied <==> spec_accepts(
                old(cluster_manager).spec_term(),
                old(cluster_manager).spec_role(),
                old(cluster_manager).spec_voters(),
                peer_id,
                old(cluster_manager).spec_term(),
                self.model(),
            ),
    {
        match self {
            operation::Operation::Vote(Some(_)) => operation::OperationResult::Rejected,
            operation::Operation::Vote(None) => {
                if let Role::Candidate(c) = cluster_manager.state {
                    if cluster_manager.has_voted(peer_id) {
                        // this voter was counted already: one vote per
                        // member per term, however often the frame arrives
                        operation::OperationResult::Rejected
                    } else {
                        cluster_manager.voters.push(peer_id);
                        proof {
                            assert forall|i: int, j: int|
                                0 <= i < cluster_manager.voters@.len() && 0 <= j
                                    < cluster_manager.voters@.len() && i != j implies
                                cluster_manager.voters@[i] != cluster_manager.voters@[j] by {
                                let pre = old(cluster_manager).voters@;
                                if i == pre.len() as int {
                                    assert(pre[j] != peer_id);
                                } else if j == pre.len() as int {
                                    assert(pre[i] != peer_id);
                                }
                            }
                        }
                        let len = cluster_manager.cluster_map.len();
                        if (c as usize) < len / 2 {
                            cluster_manager.set_state(Role::Candidate(c + 1));
                        } else {
                            cluster_manager.set_state(Role::Leader);
                        }
                        operation::OperationResult::Applied
                    }
                } else {
                    operation::OperationResult::Rejected
                }
            }
            operation::Operation::Heartbeat => {
                if let Role::Candidate(_) = cluster_manager.state {
                    cluster_manager.set_state(Role::Follower);
                }
                operation::OperationResult::Applied
            }
        }
    }
}

} // verus!
