use iroh_base::key::PublicKey;
use iroh_base::node_addr::NodeAddr;
use iroh_docs::{Capability, NamespaceId, NamespaceSecret};
use libgossip::ble::{PeerData, PeerState};
use libgossip::data::{uuid_from_bytes, WideId};
use libgossip::nearby::join::{collate_nodes, decide_join, plan_join, JoinDecision};
use libgossip::nearby::{Service, Ticket};

fn node(seed: u8) -> NodeAddr {
    let key = NamespaceSecret::from_bytes(&[seed; 32]).id().to_bytes();
    NodeAddr::new(PublicKey::from_bytes(&key).unwrap())
}

fn address_bytes(seeds: &[u8]) -> Vec<u8> {
    let nodes: Vec<NodeAddr> = seeds.iter().map(|s| node(*s)).collect();
    postcard::to_stdvec(&nodes).unwrap()
}

fn node_bytes(seed: u8) -> Vec<u8> {
    postcard::to_stdvec(&node(seed)).unwrap()
}

#[test]
fn a_write_capability_names_the_namespace_of_its_secret() {
    let secret = NamespaceSecret::from_bytes(&[7; 32]);
    let expected = WideId::from_bytes(secret.id().to_bytes());
    let bytes = postcard::to_stdvec(&Capability::Write(secret)).unwrap();
    match decide_join(bytes.clone(), vec![]) {
        JoinDecision::Join { document_data, namespace, addresses, nodes } => {
            assert_eq!(document_data, bytes);
            assert_eq!(namespace, expected);
            assert_ne!(namespace.to_bytes().to_vec(), bytes);
            assert!(addresses.is_empty());
            assert!(nodes.is_empty());
        }
        _ => panic!("the capability can be read"),
    }
}

#[test]
fn a_read_capability_names_its_namespace() {
    let id = NamespaceId::from(&[9u8; 32]);
    let bytes = postcard::to_stdvec(&Capability::Read(id)).unwrap();
    match decide_join(bytes, vec![]) {
        JoinDecision::Join { namespace, .. } => assert_eq!(namespace, WideId::from_bytes([9; 32])),
        _ => panic!("the capability can be read"),
    }
}

#[test]
fn bytes_that_are_no_capability_cannot_be_joined() {
    match decide_join(vec![200, 1, 2], vec![address_bytes(&[1])]) {
        JoinDecision::Unreadable { document_data, addresses } => {
            assert_eq!(document_data, vec![200, 1, 2]);
            assert_eq!(addresses, vec![address_bytes(&[1])]);
        }
        _ => panic!("the capability cannot be read"),
    }
    assert!(matches!(decide_join(vec![], vec![]), JoinDecision::Unreadable { .. }));
}

#[test]
fn the_addresses_of_all_peers_are_put_together() {
    let addresses = vec![address_bytes(&[1, 2]), address_bytes(&[]), address_bytes(&[3])];
    let nodes = collate_nodes(&addresses).unwrap();
    assert_eq!(nodes, vec![node_bytes(1), node_bytes(2), node_bytes(3)]);
    for (bytes, seed) in nodes.iter().zip([1u8, 2, 3]) {
        assert_eq!(postcard::from_bytes::<NodeAddr>(bytes).unwrap(), node(seed));
    }
}

#[test]
fn no_peers_no_nodes() {
    assert_eq!(collate_nodes(&vec![]), Some(vec![]));
}

#[test]
fn one_address_that_cannot_be_read_spoils_the_list() {
    let addresses = vec![address_bytes(&[1]), vec![5, 0, 0], address_bytes(&[3])];
    assert_eq!(collate_nodes(&addresses), None);
    let capability =
        postcard::to_stdvec(&Capability::Read(NamespaceId::from(&[9u8; 32]))).unwrap();
    assert!(matches!(decide_join(capability, addresses), JoinDecision::Unreadable { .. }));
}

#[test]
fn a_plan_needs_namespace_and_nodes() {
    let plan = plan_join(vec![1], vec![vec![2]], Some([3; 32]), Some(vec![vec![4]]));
    match plan {
        JoinDecision::Join { document_data, namespace, addresses, nodes } => {
            assert_eq!(document_data, vec![1]);
            assert_eq!(namespace, WideId::from_bytes([3; 32]));
            assert_eq!(addresses, vec![vec![2]]);
            assert_eq!(nodes, vec![vec![4]]);
        }
        _ => panic!("with namespace and nodes the document can be joined"),
    }
    assert!(matches!(
        plan_join(vec![1], vec![], None, Some(vec![])),
        JoinDecision::Unreadable { .. }
    ));
    assert!(matches!(
        plan_join(vec![1], vec![], Some([3; 32]), None),
        JoinDecision::Unreadable { .. }
    ));
}

#[test]
fn the_service_plans_to_join_the_chosen_document() {
    let secret = NamespaceSecret::from_bytes(&[1; 32]);
    let namespace = WideId::from_bytes(secret.id().to_bytes());
    let theirs = postcard::to_stdvec(&Capability::Write(secret)).unwrap();
    // A document that is larger than theirs, so that theirs is chosen.
    let mine = vec![255u8; 40];
    let mut service = Service::new();
    service.initialize(
        WideId::from_bytes([0; 32]),
        Ticket { document_data: mine, address_data: vec![] },
    ).unwrap();
    service.load_doc(vec![], vec![], vec![], vec![], 0).unwrap();
    for seed in [1u8, 2] {
        service.peer_discovered(
            uuid_from_bytes(seed, 0, 0, 0, 0, 0, 0, 0, 0, 0, 0, 0, 0, 0, 0, 0),
            PeerData {
                address_data: address_bytes(&[seed]),
                document_data: theirs.clone(),
                peer_state: PeerState::Scanning,
            },
        );
    }
    match service.evaluate_peers_for_connection() {
        JoinDecision::Join { document_data, namespace: found, addresses, mut nodes } => {
            assert_eq!(document_data, theirs);
            assert_eq!(found, namespace);
            assert_eq!(addresses.len(), 2);
            nodes.sort();
            let mut expected = vec![node_bytes(1), node_bytes(2)];
            expected.sort();
            assert_eq!(nodes, expected);
        }
        _ => panic!("the node is to join the document of its peers"),
    }
}
