use channel_cycle::graph::{AnnouncedEdge, ChannelEdge, ChannelFinder, GraphError, RoutingPolicy};

fn policy(fee_base_msat: i64) -> RoutingPolicy {
    RoutingPolicy {
        time_lock_delta: 40,
        min_htlc: 1000,
        fee_base_msat,
        fee_rate_milli_msat: 1,
        disabled: false,
        max_htlc_msat: 990000000,
        last_update: 1700000000,
    }
}

fn edge(channel_id: u64, node1: &[u8], node2: &[u8], capacity: i64) -> ChannelEdge {
    ChannelEdge {
        channel_id,
        node1: node1.to_vec(),
        node2: node2.to_vec(),
        capacity,
        node1_policy: Some(policy(channel_id as i64 * 10 + 1)),
        node2_policy: Some(policy(channel_id as i64 * 10 + 2)),
    }
}

const A: &[u8] = &[0xaa, 0x01];
const B: &[u8] = &[0xbb, 0x02];
const T: &[u8] = &[0x77, 0x07];

#[test]
fn single_edge_resolves_both_directions() {
    let finder = ChannelFinder::from_edges(vec![edge(1, A, T, 16777215)]);
    let there = finder.search(Some(A), Some(T), 16777215).unwrap();
    assert_eq!(there.channel_id, 1);
    assert_eq!(there.source, A.to_vec());
    assert_eq!(there.dest, T.to_vec());
    let back = finder.search(Some(T), Some(A), 16777215).unwrap();
    assert_eq!(back.channel_id, 1);
    assert_eq!(back.source, T.to_vec());
    assert_eq!(back.dest, A.to_vec());
}

#[test]
fn empty_snapshot_finds_nothing() {
    let finder = ChannelFinder::from_edges(vec![]);
    assert!(finder.search(Some(A), Some(T), 16777215).is_none());
    assert!(finder.search(Some(A), None, 1).is_none());
    assert!(finder.search(None, Some(T), 0).is_none());
}

#[test]
fn reversed_query_swaps_ends_and_policy() {
    let finder = ChannelFinder::from_edges(vec![edge(9, B, A, 500), edge(3, A, B, 700)]);
    let ab = finder.search(Some(A), Some(B), 700).unwrap();
    let ba = finder.search(Some(B), Some(A), 700).unwrap();
    assert_eq!(ab.channel_id, 3);
    assert_eq!(ba.channel_id, 3);
    assert_eq!((ab.source.clone(), ab.dest.clone()), (A.to_vec(), B.to_vec()));
    assert_eq!((ba.source.clone(), ba.dest.clone()), (B.to_vec(), A.to_vec()));
    assert_eq!(ab.policy, Some(policy(31)));
    assert_eq!(ba.policy, Some(policy(32)));
    // The same pair stored the other way round.
    let ab = finder.search(Some(A), Some(B), 500).unwrap();
    assert_eq!(ab.channel_id, 9);
    assert_eq!(ab.policy, Some(policy(92)));
    let ba = finder.search(Some(B), Some(A), 500).unwrap();
    assert_eq!(ba.policy, Some(policy(91)));
}

#[test]
fn missing_policy_is_carried_as_none() {
    let mut e = edge(4, A, T, 100);
    e.node2_policy = None;
    let finder = ChannelFinder::from_edges(vec![e]);
    assert_eq!(finder.search(Some(A), Some(T), 100).unwrap().policy, Some(policy(41)));
    assert_eq!(finder.search(Some(T), Some(A), 100).unwrap().policy, None);
}

#[test]
fn earliest_qualifying_edge_wins() {
    let finder = ChannelFinder::from_edges(vec![
        edge(1, A, B, 200),
        edge(2, T, A, 100),
        edge(3, A, B, 100),
        edge(4, A, T, 100),
    ]);
    let first = finder.search(Some(A), None, 100).unwrap();
    assert_eq!(first.channel_id, 2);
    assert_eq!(first.source, A.to_vec());
    assert_eq!(first.dest, T.to_vec());
    assert_eq!(first.policy, Some(policy(22)));
    let again = finder.search(Some(A), None, 100).unwrap();
    assert_eq!(again.channel_id, first.channel_id);
    assert_eq!(again.source, first.source);
    assert_eq!(again.dest, first.dest);
    assert_eq!(finder.search(Some(A), Some(B), 100).unwrap().channel_id, 3);
}

#[test]
fn source_only_query_orients_from_source() {
    let finder = ChannelFinder::from_edges(vec![edge(5, B, T, 42)]);
    let f = finder.search(Some(T), None, 42).unwrap();
    assert_eq!((f.source, f.dest, f.policy), (T.to_vec(), B.to_vec(), Some(policy(52))));
    let f = finder.search(Some(B), None, 42).unwrap();
    assert_eq!((f.source, f.dest, f.policy), (B.to_vec(), T.to_vec(), Some(policy(51))));
}

#[test]
fn dest_only_query_orients_into_dest() {
    let finder = ChannelFinder::from_edges(vec![edge(6, B, T, 42)]);
    let f = finder.search(None, Some(T), 42).unwrap();
    assert_eq!((f.source, f.dest, f.policy), (B.to_vec(), T.to_vec(), Some(policy(61))));
    let f = finder.search(None, Some(B), 42).unwrap();
    assert_eq!((f.source, f.dest, f.policy), (T.to_vec(), B.to_vec(), Some(policy(62))));
}

#[test]
fn no_edge_of_capacity_or_endpoints_is_not_found() {
    let finder = ChannelFinder::from_edges(vec![edge(1, A, T, 100), edge(2, B, T, 200)]);
    assert!(finder.search(Some(A), Some(T), 200).is_none());
    assert!(finder.search(Some(A), Some(B), 100).is_none());
    assert!(finder.search(Some(B), None, 100).is_none());
    assert!(finder.search(None, Some(A), 200).is_none());
    assert!(finder.search(Some(A), Some(A), 100).is_none());
}

fn announced(channel_id: u64, node1_pub: &str, node2_pub: &str, capacity: i64) -> AnnouncedEdge {
    AnnouncedEdge {
        channel_id,
        node1_pub: node1_pub.to_string(),
        node2_pub: node2_pub.to_string(),
        capacity,
        node1_policy: None,
        node2_policy: Some(policy(7)),
    }
}

#[test]
fn snapshot_decodes_hex_endpoints() {
    let finder = ChannelFinder::new(vec![announced(11, "aa01", "7707", 300), announced(12, "BB02", "7707", 300)])
        .unwrap();
    let f = finder.search(None, Some(T), 300).unwrap();
    assert_eq!(f.channel_id, 11);
    assert_eq!(f.source, A.to_vec());
    let f = finder.search(Some(B), None, 300).unwrap();
    assert_eq!(f.channel_id, 12);
    assert_eq!(f.dest, T.to_vec());
    assert_eq!(f.policy, None);
    let f = finder.search(Some(T), Some(B), 300).unwrap();
    assert_eq!(f.policy, Some(policy(7)));
}

#[test]
fn snapshot_rejects_first_channel_with_bad_key() {
    let r = ChannelFinder::new(vec![
        announced(1, "aa01", "7707", 1),
        announced(2, "aa01", "77x7", 1),
        announced(3, "abc", "7707", 1),
    ]);
    assert_eq!(r.err(), Some(GraphError::InvalidNodeKey { channel_id: 2 }));
    let r = ChannelFinder::new(vec![announced(5, "abc", "7707", 1)]);
    assert_eq!(r.err(), Some(GraphError::InvalidNodeKey { channel_id: 5 }));
    assert!(ChannelFinder::new(vec![]).is_ok());
}
