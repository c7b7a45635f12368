use libgossip::ble::{PeerData, PeerState};
use libgossip::nearby::peer_calc::{
    collect_addrs_for_doc, collect_addrs_in_table, create_counts, doc_eq, doc_le, find_best_doc_from_peers,
    get_most_freq_doc, smallest,
};
use std::collections::HashMap;

fn peer(doc: &[u8], addr: &[u8], state: PeerState) -> PeerData {
    PeerData { address_data: addr.to_vec(), document_data: doc.to_vec(), peer_state: state }
}

fn table(peers: Vec<PeerData>) -> HashMap<u128, PeerData> {
    let mut map = HashMap::new();
    for (i, p) in peers.into_iter().enumerate() {
        map.insert(1000 + i as u128, p);
    }
    map
}

#[test]
fn byte_order_is_lexicographic() {
    assert!(doc_le(&vec![], &vec![]));
    assert!(doc_le(&vec![], &vec![0]));
    assert!(!doc_le(&vec![0], &vec![]));
    assert!(doc_le(&vec![1, 2], &vec![1, 2, 0]));
    assert!(doc_le(&vec![1, 2, 255], &vec![1, 3]));
    assert!(!doc_le(&vec![2], &vec![1, 255, 255]));
    assert!(doc_le(&vec![7, 7], &vec![7, 7]));
}

#[test]
fn documents_are_equal_byte_for_byte() {
    assert!(doc_eq(&vec![1, 2, 3], &vec![1, 2, 3]));
    assert!(!doc_eq(&vec![1, 2, 3], &vec![1, 2]));
    assert!(!doc_eq(&vec![1, 2, 3], &vec![1, 2, 4]));
    assert!(doc_eq(&vec![], &vec![]));
}

#[test]
fn alone_the_node_keeps_its_document() {
    let peers = HashMap::new();
    assert_eq!(find_best_doc_from_peers(&vec![5, 5], &peers), vec![5, 5]);
}

#[test]
fn two_scanners_pick_the_smaller_document() {
    let d_a = vec![1, 0, 0];
    let d_b = vec![1, 0, 1];
    // A sees B.
    let seen_by_a = table(vec![peer(&d_b, b"b", PeerState::Scanning)]);
    // B sees A.
    let seen_by_b = table(vec![peer(&d_a, b"a", PeerState::Scanning)]);
    assert_eq!(find_best_doc_from_peers(&d_a, &seen_by_a), d_a);
    assert_eq!(find_best_doc_from_peers(&d_b, &seen_by_b), d_a);
}

#[test]
fn a_scanner_joins_an_established_group() {
    let d_g = vec![9, 9, 9];
    let mine = vec![0];
    let peers = table(vec![
        peer(&d_g, b"x", PeerState::Settled),
        peer(&d_g, b"y", PeerState::Settled),
    ]);
    assert_eq!(find_best_doc_from_peers(&mine, &peers), d_g);
}

#[test]
fn the_larger_group_wins() {
    let peers = table(vec![
        peer(&[1], b"", PeerState::Settled),
        peer(&[1], b"", PeerState::Settled),
        peer(&[2], b"", PeerState::Settled),
        peer(&[2], b"", PeerState::Settled),
        peer(&[2], b"", PeerState::Settled),
        peer(&[0], b"", PeerState::Scanning),
    ]);
    assert_eq!(find_best_doc_from_peers(&vec![0, 0], &peers), vec![2]);
}

#[test]
fn of_two_groups_of_one_size_the_smaller_document_wins() {
    let peers = table(vec![
        peer(&[8], b"", PeerState::Settled),
        peer(&[3], b"", PeerState::Settled),
        peer(&[8], b"", PeerState::Settled),
        peer(&[3], b"", PeerState::Settled),
    ]);
    assert_eq!(find_best_doc_from_peers(&vec![0], &peers), vec![3]);
}

#[test]
fn without_a_majority_the_smallest_settled_document_wins() {
    let peers = table(vec![
        peer(&[8], b"", PeerState::Settled),
        peer(&[3], b"", PeerState::Settled),
        peer(&[1], b"", PeerState::Scanning),
    ]);
    // The scanner's smaller document and the node's own do not count.
    assert_eq!(find_best_doc_from_peers(&vec![0], &peers), vec![3]);
}

#[test]
fn scanners_count_their_own_document() {
    let peers = table(vec![
        peer(&[8], b"", PeerState::Scanning),
        peer(&[3], b"", PeerState::Scanning),
    ]);
    assert_eq!(find_best_doc_from_peers(&vec![2, 200], &peers), vec![2, 200]);
    assert_eq!(find_best_doc_from_peers(&vec![3, 0], &peers), vec![3]);
}

#[test]
fn the_choice_does_not_depend_on_the_order_of_arrival() {
    let peers = vec![
        peer(&[4, 1], b"a", PeerState::Settled),
        peer(&[4, 0], b"b", PeerState::Settled),
        peer(&[2], b"c", PeerState::Scanning),
        peer(&[4, 1], b"d", PeerState::Settled),
        peer(&[4, 0], b"e", PeerState::Settled),
        peer(&[1], b"f", PeerState::Scanning),
    ];
    let mut forward = HashMap::new();
    for (i, p) in peers.iter().enumerate() {
        forward.insert(i as u128, p.clone());
    }
    let mut backward = HashMap::with_capacity(64);
    for (i, p) in peers.iter().enumerate().rev() {
        backward.insert(i as u128, p.clone());
    }
    let a = find_best_doc_from_peers(&vec![0], &forward);
    let b = find_best_doc_from_peers(&vec![0], &backward);
    assert_eq!(a, vec![4, 0]);
    assert_eq!(a, b);
}

#[test]
fn a_later_advertisement_replaces_the_earlier() {
    let mut peers = HashMap::new();
    peers.insert(1, peer(&[1], b"", PeerState::Scanning));
    peers.insert(1, peer(&[7], b"", PeerState::Scanning));
    assert_eq!(find_best_doc_from_peers(&vec![9], &peers), vec![7]);
}

#[test]
fn counts_hold_each_document_once() {
    let a = peer(&[1], b"", PeerState::Settled);
    let b = peer(&[2], b"", PeerState::Settled);
    let c = peer(&[1], b"", PeerState::Settled);
    let list = vec![&a, &b, &c];
    let counts = create_counts(&list);
    assert_eq!(counts.len(), 2);
    let mut sorted: Vec<(Vec<u8>, usize)> = counts.iter().map(|c| (c.0.clone(), c.1)).collect();
    sorted.sort();
    assert_eq!(sorted, vec![(vec![1], 2), (vec![2], 1)]);
}

#[test]
fn most_frequent_of_nothing_is_nothing() {
    let counts: Vec<(&Vec<u8>, usize)> = vec![];
    assert!(get_most_freq_doc(&counts).is_none());
}

#[test]
fn most_frequent_prefers_count_then_name() {
    let one = vec![1u8];
    let two = vec![2u8];
    let three = vec![3u8];
    let counts = vec![(&three, 2usize), (&one, 1), (&two, 2)];
    let top = get_most_freq_doc(&counts).unwrap();
    assert_eq!(top.0, &two);
    assert_eq!(top.1, 2);
}

#[test]
fn smallest_of_nothing_is_nothing() {
    let docs: Vec<&Vec<u8>> = vec![];
    assert!(smallest(&docs).is_none());
}

#[test]
fn smallest_is_lexicographic() {
    let a = vec![2u8, 0];
    let b = vec![1u8, 255];
    let c = vec![1u8];
    let docs = vec![&a, &b, &c];
    assert_eq!(smallest(&docs), Some(&c));
}

#[test]
fn addresses_of_the_peers_of_a_document() {
    let peers = vec![
        peer(&[1], &[10], PeerState::Scanning),
        peer(&[2], &[20], PeerState::Settled),
        peer(&[1], &[30], PeerState::Settled),
    ];
    let listed: Vec<&PeerData> = peers.iter().collect();
    assert_eq!(collect_addrs_for_doc(&vec![1], &listed), vec![vec![10], vec![30]]);
    assert_eq!(collect_addrs_for_doc(&vec![2], &listed), vec![vec![20]]);
    assert!(collect_addrs_for_doc(&vec![3], &listed).is_empty());
    assert!(collect_addrs_for_doc(&vec![1], &[]).is_empty());
}

#[test]
fn addresses_of_the_peers_of_a_document_in_a_table() {
    let peers = table(vec![
        peer(&[1], b"one", PeerState::Settled),
        peer(&[2], b"two", PeerState::Scanning),
        peer(&[1], b"three", PeerState::Scanning),
    ]);
    let mut addrs = collect_addrs_in_table(&vec![1], &peers);
    addrs.sort();
    assert_eq!(addrs, vec![b"one".to_vec(), b"three".to_vec()]);
    assert!(collect_addrs_in_table(&vec![3], &peers).is_empty());
}
