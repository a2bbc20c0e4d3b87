//! A three-node cluster driven over a simulated transport: frames built by
//! the library itself are handed to the receiving node's state machine, each
//! delivered exactly once.
use raft_node::manager::operation::Operation as FrameOperation;
use raft_node::manager::{ClusterManager, Outbound, Role};
use raft_node::membership::Membership;

fn boot(id: u8) -> ClusterManager {
    let entries: Vec<(u8, String)> = (1..=3).map(|i| (i, format!("node-{}", i))).collect();
    ClusterManager::new(Membership::new(entries), id)
}

fn address_of(id: u8) -> String {
    format!("node-{}", id)
}

/// Deliver every pending `(destination address, frame)` pair, collecting the
/// sends the deliveries ask for in turn, until the wires are quiet.
fn deliver_all(nodes: &mut [ClusterManager; 3], mut wires: Vec<(String, Vec<u8>)>) {
    while let Some((destination, frame)) = wires.pop() {
        let index = (frame_target_id(&destination) - 1) as usize;
        let (_, outbound) = nodes[index].process_operation(frame);
        let sends = sends_of(&nodes[index], outbound);
        wires.extend(sends);
    }
}

fn frame_target_id(address: &str) -> u8 {
    address.strip_prefix("node-").unwrap().parse().unwrap()
}

/// The `(destination, frame)` pairs one outbound request expands to.
fn sends_of(sender: &ClusterManager, outbound: Option<Outbound>) -> Vec<(String, Vec<u8>)> {
    match outbound {
        None => Vec::new(),
        Some(Outbound::Unicast(address, operation)) => vec![(address, sender.frame(operation))],
        Some(Outbound::Broadcast(operation)) => {
            let frame = sender.frame(operation);
            sender
                .peer_addresses()
                .into_iter()
                .map(|address| (address, frame.clone()))
                .collect()
        }
    }
}

#[test]
fn three_nodes_elect_exactly_one_leader() {
    let mut nodes = [boot(1), boot(2), boot(3)];
    for node in &nodes {
        assert_eq!(node.term(), 0);
        assert_eq!(node.role(), Role::Candidate(1));
    }

    // node 1's election timeout fires first: term 1, fresh candidacy,
    // vote requests out to both peers
    nodes[0].handle_timeout();
    assert_eq!(nodes[0].term(), 1);
    let request = nodes[0].frame(FrameOperation::Vote(Some(address_of(1))));

    // both peers see the newer term, follow, and grant their votes; the
    // grants come back to node 1, whose second vote already is quorum
    let mut wires = vec![
        (address_of(2), request.clone()),
        (address_of(3), request.clone()),
    ];
    deliver_all(&mut nodes, std::mem::take(&mut wires));

    assert_eq!(nodes[0].role(), Role::Leader);
    assert_eq!(nodes[0].term(), 1);
    for node in &nodes[1..] {
        assert_eq!(node.role(), Role::Follower);
        assert_eq!(node.term(), 1);
    }
    let leaders = nodes.iter().filter(|n| n.role() == Role::Leader).count();
    assert_eq!(leaders, 1);

    // the new leader's heartbeat round keeps the two followers in place
    let heartbeat = nodes[0].frame(FrameOperation::Heartbeat);
    let wires = vec![(address_of(2), heartbeat.clone()), (address_of(3), heartbeat)];
    deliver_all(&mut nodes, wires);
    assert_eq!(nodes[0].role(), Role::Leader);
    for node in &nodes[1..] {
        assert_eq!(node.role(), Role::Follower);
        assert_eq!(node.term(), 1);
    }
}

#[test]
fn competing_candidacies_resolve_to_one_leader() {
    let mut nodes = [boot(1), boot(2), boot(3)];

    // nodes 1 and 2 time out together and both campaign for term 1
    nodes[0].handle_timeout();
    nodes[1].handle_timeout();
    let request_1 = nodes[0].frame(FrameOperation::Vote(Some(address_of(1))));
    let request_2 = nodes[1].frame(FrameOperation::Vote(Some(address_of(2))));

    // node 2 refuses its rival's same-term request; node 3 grants the
    // first campaign it hears of and refuses the second
    deliver_all(&mut nodes, vec![(address_of(2), request_1.clone())]);
    assert_eq!(nodes[1].role(), Role::Candidate(1));
    deliver_all(&mut nodes, vec![(address_of(3), request_1)]);
    assert_eq!(nodes[0].role(), Role::Leader);
    deliver_all(
        &mut nodes,
        vec![(address_of(3), request_2.clone()), (address_of(1), request_2)],
    );

    let leaders = nodes.iter().filter(|n| n.role() == Role::Leader).count();
    assert_eq!(leaders, 1);

    // the loser's candidacy dies with the leader's first heartbeat
    let heartbeat = nodes[0].frame(FrameOperation::Heartbeat);
    let wires = vec![(address_of(2), heartbeat.clone()), (address_of(3), heartbeat)];
    deliver_all(&mut nodes, wires);
    assert_eq!(nodes[0].role(), Role::Leader);
    assert_eq!(nodes[1].role(), Role::Follower);
    assert_eq!(nodes[2].role(), Role::Follower);
    for node in &nodes {
        assert_eq!(node.term(), 1);
    }
}
