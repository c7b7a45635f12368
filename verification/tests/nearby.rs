use libgossip::ble::{
    peer_data_discovered, BLEGossipBroadcaster, DummyBLEBroadcaster, PeerData, PeerState,
};
use libgossip::data::{uuid_from_bytes, WideId, UUID};
use libgossip::doc::{ContentStatus, Entry, InsertEntry, Origin};
use libgossip::identity::model::Identity;
use libgossip::nearby::join::JoinDecision;
use libgossip::nearby::model::{ConState, DocData, Post, Status, Timestamp};
use libgossip::device::create_dummy_provider;
use libgossip::nearby::{
    derive_con_state, radio_order, tell_broadcaster, tell_scanner, Effect, NearbyServiceEvents,
    RadioOrder, Ready, RowContent, Service, ServiceError, State, Ticket, DEBOUNCE_SECS,
    RECHECK_DELAY_SECS,
};
use std::cell::RefCell;

fn who(byte: u8) -> WideId {
    WideId::from_bytes([byte; 32])
}

fn iden(byte: u8, name: &str) -> Identity {
    Identity { name: String::from(name), pk: who(byte) }
}

fn ticket(doc: &[u8]) -> Ticket {
    Ticket { document_data: doc.to_vec(), address_data: b"addr".to_vec() }
}

fn uuid(byte: u8) -> UUID {
    uuid_from_bytes(byte, 0, 0, 0, 0, 0, 0, 0, 0, 0, 0, 0, 0, 0, 0, 0)
}

fn row(key: &[u8], author: u8, hash: u8) -> InsertEntry {
    InsertEntry {
        location: Origin::Remote(who(200)),
        entry: Entry {
            key: key.to_vec(),
            author: who(author),
            content_hash: who(hash),
            content_len: 1,
            timestamp: 0,
        },
        content_status: ContentStatus::Complete,
    }
}

fn ready(service: &Service) -> &Ready {
    match &service.state {
        State::Ready(r) => r,
        State::Uninitialized => panic!("the service has no document"),
    }
}

/// A service on the document `doc` that holds the given identities.
fn started(doc: &[u8], identities: Vec<Identity>, active_peers: u32) -> Service {
    let mut service = Service::new();
    service.initialize(who(1), ticket(doc)).unwrap();
    service.load_doc(identities, vec![], vec![], vec![], active_peers).unwrap();
    service
}

#[test]
fn the_connection_state_follows_the_table() {
    assert_eq!(derive_con_state(false, false, false, 0), ConState::Offline);
    assert_eq!(derive_con_state(false, false, false, 7), ConState::Offline);
    assert_eq!(derive_con_state(false, true, true, 0), ConState::Searching);
    assert_eq!(derive_con_state(true, false, false, 3), ConState::Connected(3));
    assert_eq!(derive_con_state(true, true, false, 1), ConState::Connected(1));
    assert_eq!(derive_con_state(true, false, false, 0), ConState::Reconnecting);
    assert_eq!(derive_con_state(true, true, false, 0), ConState::Reconnecting);
}

#[test]
fn every_other_combination_is_invalid() {
    assert_eq!(derive_con_state(false, true, true, 2), ConState::Invalid);
    assert_eq!(derive_con_state(false, true, false, 0), ConState::Invalid);
    assert_eq!(derive_con_state(false, false, true, 0), ConState::Invalid);
    assert_eq!(derive_con_state(true, false, true, 0), ConState::Invalid);
    assert_eq!(derive_con_state(true, true, true, 5), ConState::Invalid);
}

#[test]
fn a_service_without_a_document_is_offline_and_does_nothing() {
    let mut service = Service::new();
    assert_eq!(service.get_con_state(), ConState::Offline);
    assert!(!service.should_broadcast());
    assert!(service.update_scanning(true).is_empty());
    assert!(service.update_ble_broadcast(true).is_empty());
    assert!(service.check_if_found_group(3).is_empty());
    assert!(service.start_scanning(0).is_empty());
    assert!(service.leave_group().is_empty());
    let (before, now, effects) = service.calculate_and_update_con_state(4);
    assert_eq!((before, now), (ConState::Offline, ConState::Offline));
    assert!(effects.is_empty());
    assert!(!service.peer_discovered(uuid(1), PeerData {
        address_data: vec![],
        document_data: vec![],
        peer_state: PeerState::Scanning,
    }));
    assert!(matches!(service.evaluate_peers_for_connection(), JoinDecision::Stay));
    assert!(service.profiles().is_none());
    assert!(matches!(service.state, State::Uninitialized));
}

#[test]
fn solo_start() {
    let mut service = Service::new();
    let effects = service.initialize(who(1), ticket(b"self")).unwrap();
    assert_eq!(
        effects,
        vec![
            Effect::SetPeerState(PeerState::Scanning),
            Effect::SetDocumentData,
            Effect::SetAddressData,
            Effect::StopBroadcast,
            Effect::EmitBroadcasting(false),
            Effect::SetDocumentData,
            Effect::SetPeerState(PeerState::Scanning),
            Effect::PutSelfOnDoc,
        ]
    );
    // The caller has written the local author's rows, and reads them back.
    let effects = service.load_doc(vec![iden(1, "me")], vec![], vec![], vec![], 0).unwrap();
    assert_eq!(
        effects,
        vec![
            Effect::RememberDoc(who(1)),
            Effect::Subscribe,
            Effect::SetPeerState(PeerState::Scanning),
            Effect::EmitDocData(DocData { doc_id: who(1) }),
            Effect::EmitIdentities,
            Effect::EmitAllMessages,
        ]
    );
    let (_, now, _) = service.calculate_and_update_con_state(0);
    assert_eq!(now, ConState::Offline);
    assert_eq!(service.get_con_state(), ConState::Offline);
    assert_eq!(ready(&service).identities.identities(), vec![iden(1, "me")]);
    assert!(!ready(&service).found_group);
    assert_eq!(service.radio.document_data, b"self".to_vec());
    assert_eq!(service.radio.address_data, b"addr".to_vec());
    assert_eq!(service.radio.peer_state, PeerState::Scanning);
    assert!(!service.radio.broadcasting);
}

#[test]
fn two_nodes_meet() {
    let d_a = vec![1u8, 1];
    let d_b = vec![1u8, 2];
    let mut a = started(&d_a, vec![iden(b'a', "a")], 0);
    let mut b = started(&d_b, vec![iden(b'b', "b")], 0);
    a.start_scanning(0);
    b.start_scanning(0);
    assert_eq!(a.get_con_state(), ConState::Searching);
    let adv_a = PeerData {
        address_data: vec![],
        document_data: d_a.clone(),
        peer_state: PeerState::Scanning,
    };
    let adv_b = PeerData {
        address_data: vec![],
        document_data: d_b.clone(),
        peer_state: PeerState::Scanning,
    };
    assert!(a.peer_discovered(uuid(2), adv_b));
    assert!(b.peer_discovered(uuid(1), adv_a));
    // A stays on its document; B is to leave its own for that of A.
    assert!(matches!(a.evaluate_peers_for_connection(), JoinDecision::Stay));
    match b.evaluate_peers_for_connection() {
        JoinDecision::Stay => panic!("B is to join the document of A"),
        JoinDecision::Join { document_data, .. } => assert_eq!(document_data, d_a),
        JoinDecision::Unreadable { document_data, .. } => assert_eq!(document_data, d_a),
    }
    // B imports the document of A and loads it; the identities cross over.
    let effects = b.rotate(who(1), ticket(&d_a));
    assert_eq!(effects[0], Effect::StopSubscription);
    b.load_doc(vec![iden(b'a', "a"), iden(b'b', "b")], vec![], vec![], vec![], 1).unwrap();
    a.handle_insert_entry(&row(b"identity", b'b', 9), RowContent::Identity(iden(b'b', "b")), 1);
    a.calculate_and_update_con_state(1);
    b.calculate_and_update_con_state(1);
    assert_eq!(a.get_con_state(), ConState::Connected(1));
    assert_eq!(b.get_con_state(), ConState::Connected(1));
    assert_eq!(a.radio.peer_state, PeerState::Settled);
    assert_eq!(b.radio.peer_state, PeerState::Settled);
    assert_eq!(b.radio.document_data, d_a);
}

#[test]
fn a_third_node_joins_a_group() {
    let d_g = vec![7u8; 4];
    let mut c = started(&[1], vec![iden(b'c', "c")], 0);
    c.start_scanning(0);
    for byte in [1u8, 2] {
        c.peer_discovered(uuid(byte), PeerData {
            address_data: vec![],
            document_data: d_g.clone(),
            peer_state: PeerState::Settled,
        });
    }
    match c.evaluate_peers_for_connection() {
        JoinDecision::Stay => panic!("the node is to join the group"),
        JoinDecision::Join { document_data, .. } => assert_eq!(document_data, d_g),
        JoinDecision::Unreadable { document_data, .. } => assert_eq!(document_data, d_g),
    }
    c.rotate(who(9), ticket(&d_g));
    c.load_doc(
        vec![iden(b'a', "a"), iden(b'b', "b"), iden(b'c', "c")],
        vec![],
        vec![],
        vec![],
        2,
    ).unwrap();
    c.calculate_and_update_con_state(2);
    assert_eq!(c.get_con_state(), ConState::Connected(2));
    assert_eq!(c.radio.peer_state, PeerState::Settled);
}

#[test]
fn posts_under_skew_are_announced_as_a_whole() {
    let mut service = started(b"doc", vec![iden(b'X', "x")], 0);
    let x = Post::at(who(b'X'), Timestamp { secs: 100, nanos: 0 }).body(String::from("x"));
    let y = Post::at(who(b'Y'), Timestamp { secs: 90, nanos: 0 }).body(String::from("y"));
    let effects = service.handle_insert_entry(&row(b"messages/100", b'X', 1), RowContent::Post(x), 0);
    assert_eq!(effects, vec![Effect::EmitOneMessage(1)]);
    let effects = service.handle_insert_entry(&row(b"messages/90", b'Y', 2), RowContent::Post(y), 0);
    assert_eq!(effects, vec![Effect::EmitAllMessages]);
    let shown = service.all_messages(&who(b'X'));
    assert_eq!(shown.len(), 2);
    assert_eq!((shown[0].id, shown[0].text.as_str(), shown[0].is_self), (0, "y", false));
    assert_eq!((shown[1].id, shown[1].text.as_str(), shown[1].is_self), (1, "x", true));
    match service.event_for(Effect::EmitAllMessages, &who(b'X')) {
        Some(NearbyServiceEvents::AllMessagesUpdated(messages)) => {
            assert_eq!(messages.len(), 2);
            assert_eq!(messages[0].text, "y");
            assert_eq!(messages[1].text, "x");
        }
        _ => panic!("all messages are announced"),
    }
}

#[test]
fn leaving_a_group() {
    let mut service = started(b"group", vec![iden(1, "me"), iden(2, "you")], 1);
    service.calculate_and_update_con_state(1);
    assert_eq!(service.get_con_state(), ConState::Connected(1));
    service.handle_insert_entry(
        &row(b"messages/1", 2, 5),
        RowContent::Post(Post::at(who(2), Timestamp { secs: 1, nanos: 0 })),
        1,
    );
    let effects = service.leave_group();
    assert_eq!(
        effects,
        vec![
            Effect::SetPeerState(PeerState::Settled),
            Effect::SetDocumentData,
            Effect::SetAddressData,
            Effect::StopBroadcast,
            Effect::EmitBroadcasting(false),
            Effect::StopSubscription,
            Effect::CreateDoc,
        ]
    );
    assert!(!service.radio.broadcasting);
    assert!(!ready(&service).listening);
    // The caller has made a fresh document.
    let effects = service.rotate(who(50), ticket(b"fresh"));
    assert_eq!(
        effects,
        vec![
            Effect::SetDocumentData,
            Effect::SetPeerState(PeerState::Scanning),
            Effect::PutSelfOnDoc,
        ]
    );
    assert!(ready(&service).identities.identities().is_empty());
    assert!(ready(&service).messages.posts().is_empty());
    assert_eq!(ready(&service).doc_id, who(50));
    assert!(!ready(&service).found_group);
    assert!(!ready(&service).should_scan);
    assert!(!ready(&service).should_broadcast);
    assert!(!service.radio.scanning);
    assert!(!service.radio.broadcasting);
    let effects = service.load_doc(vec![iden(1, "me")], vec![], vec![], vec![], 0).unwrap();
    assert_eq!(effects[0], Effect::RememberDoc(who(50)));
    assert!(!effects.iter().any(|e| matches!(e, Effect::EmitConState(_))));
    // The listeners still hold what they were last told; the check that
    // follows tells them that the node is offline.
    assert_eq!(service.get_con_state(), ConState::Connected(1));
    let (before, now, effects) = service.calculate_and_update_con_state(0);
    assert_eq!((before, now), (ConState::Connected(1), ConState::Offline));
    assert_eq!(effects, vec![Effect::EmitConState(ConState::Offline)]);
    assert_eq!(service.get_con_state(), ConState::Offline);
    // Told once.
    let (_, _, effects) = service.calculate_and_update_con_state(0);
    assert!(effects.is_empty());
    assert_eq!(service.radio.document_data, b"fresh".to_vec());
    assert_eq!(service.radio.peer_state, PeerState::Scanning);
    assert_eq!(ready(&service).identities.identities(), vec![iden(1, "me")]);
}

#[test]
fn reconnecting_after_silence() {
    let mut service = started(b"group", vec![iden(1, "me"), iden(2, "you")], 1);
    service.calculate_and_update_con_state(1);
    assert_eq!(service.get_con_state(), ConState::Connected(1));
    // The peer has been silent for more than the time that counts as live.
    let (before, now, effects) = service.calculate_and_update_con_state(0);
    assert_eq!(before, ConState::Connected(1));
    assert_eq!(now, ConState::Reconnecting);
    assert_eq!(effects, vec![Effect::EmitConState(ConState::Reconnecting)]);
    let effects = service.after_con_state_check(before, now);
    assert_eq!(
        effects,
        vec![
            Effect::SetPeerState(PeerState::Settled),
            Effect::SetDocumentData,
            Effect::SetAddressData,
            Effect::StartBroadcast,
            Effect::EmitBroadcasting(true),
            Effect::StartSync,
        ]
    );
    assert!(service.should_broadcast());
    assert!(service.radio.broadcasting);
}

#[test]
fn no_reconnect_on_other_changes() {
    let mut service = started(b"group", vec![iden(1, "me"), iden(2, "you")], 1);
    assert!(service.after_con_state_check(ConState::Reconnecting, ConState::Reconnecting).is_empty());
    assert!(service
        .after_con_state_check(ConState::Connected(1), ConState::Connected(2))
        .is_empty());
    assert!(service.after_con_state_check(ConState::Offline, ConState::Reconnecting).is_empty());
    assert!(!service.should_broadcast());
}

#[test]
fn the_waits_of_the_loops() {
    assert_eq!(RECHECK_DELAY_SECS, 5);
    assert_eq!(DEBOUNCE_SECS, 1);
}

#[test]
fn the_radio_is_told_of_scanning_only_on_a_change() {
    let mut service = started(b"doc", vec![], 0);
    assert_eq!(service.update_scanning(true), vec![Effect::StartScanning]);
    assert!(service.update_scanning(true).is_empty());
    assert_eq!(service.update_scanning(false), vec![Effect::StopScanning]);
    assert!(service.update_scanning(false).is_empty());
}

#[test]
fn cancelling_turns_the_radio_off() {
    let mut service = started(b"doc", vec![iden(1, "me")], 0);
    service.start_scanning(0);
    assert_eq!(service.get_con_state(), ConState::Searching);
    let effects = service.cancel_connection_attempt(0);
    assert_eq!(
        effects,
        vec![
            Effect::StopScanning,
            Effect::SetPeerState(PeerState::Scanning),
            Effect::SetDocumentData,
            Effect::SetAddressData,
            Effect::StopBroadcast,
            Effect::EmitBroadcasting(false),
            Effect::EmitConState(ConState::Offline),
        ]
    );
    assert_eq!(service.get_con_state(), ConState::Offline);
}

#[test]
fn a_second_identity_makes_a_group() {
    let mut service = started(b"doc", vec![iden(1, "me")], 0);
    service.start_scanning(0);
    let effects =
        service.handle_insert_entry(&row(b"identity", 2, 9), RowContent::Identity(iden(2, "you")), 1);
    // The state is derived while the node still scans, then scanning stops.
    assert_eq!(
        effects,
        vec![
            Effect::EmitConState(ConState::Invalid),
            Effect::SetPeerState(PeerState::Settled),
            Effect::StopScanning,
            Effect::EmitIdentities,
        ]
    );
    assert!(ready(&service).found_group);
    assert!(!ready(&service).should_scan);
    assert_eq!(service.radio.peer_state, PeerState::Settled);
    let (_, now, _) = service.calculate_and_update_con_state(1);
    assert_eq!(now, ConState::Connected(1));
}

#[test]
fn a_new_name_of_a_known_author_makes_no_group() {
    let mut service = started(b"doc", vec![iden(1, "me")], 0);
    let effects =
        service.handle_insert_entry(&row(b"identity", 1, 9), RowContent::Identity(iden(1, "I")), 0);
    assert_eq!(effects, vec![Effect::EmitIdentities]);
    assert!(!ready(&service).found_group);
    assert_eq!(service.radio.peer_state, PeerState::Scanning);
    assert_eq!(ready(&service).identities.identities(), vec![iden(1, "I")]);
}

#[test]
fn peers_are_not_evaluated_once_a_group_is_found() {
    let mut service = started(b"doc", vec![iden(1, "me"), iden(2, "you")], 1);
    let seen = PeerData {
        address_data: vec![],
        document_data: vec![0],
        peer_state: PeerState::Scanning,
    };
    assert!(!service.peer_discovered(uuid(1), seen));
    assert_eq!(ready(&service).ble_peers.len(), 1);
}

#[test]
fn rows_of_other_kinds() {
    let mut service = started(b"doc", vec![iden(1, "me")], 0);
    let effects = service.handle_insert_entry(
        &row(b"status", 1, 9),
        RowContent::Status(Status { text: String::from("busy") }),
        0,
    );
    assert_eq!(effects, vec![Effect::EmitIdentities]);
    let effects = service.handle_insert_entry(&row(b"id_pic", 1, 33), RowContent::Unread, 0);
    assert_eq!(effects, vec![Effect::EmitIdentities]);
    let effects = service.handle_insert_entry(&row(b"public_bio", 4, 9), RowContent::Unread, 0);
    assert_eq!(effects, vec![Effect::EmitBio(who(4))]);
    let profile = service.get_profile_by_key(&who(1)).unwrap();
    assert_eq!(profile.name, "me");
    assert_eq!(profile.pic, Some(who(33)));
    assert_eq!(profile.status.text, "busy");
}

#[test]
fn rows_that_are_passed_over() {
    let mut service = started(b"doc", vec![iden(1, "me")], 0);
    assert!(service
        .handle_insert_entry(&row(b"message_payloads/1", 1, 9), RowContent::Unread, 0)
        .is_empty());
    assert!(service.handle_insert_entry(&row(b"status", 1, 9), RowContent::Unread, 0).is_empty());
    assert!(service
        .handle_insert_entry(&row(b"identity", 1, 9), RowContent::Status(Status {
            text: String::new()
        }), 0)
        .is_empty());
    assert!(service.handle_insert_entry(&row(b"messages/1", 1, 9), RowContent::Unread, 0).is_empty());
    assert_eq!(ready(&service).identities.identities(), vec![iden(1, "me")]);
    assert!(ready(&service).messages.posts().is_empty());
}

#[test]
fn profiles_show_portrait_and_status() {
    let mut service = Service::new();
    service.initialize(who(1), ticket(b"doc")).unwrap();
    service.load_doc(
        vec![iden(1, "ann"), iden(2, "bob")],
        vec![(who(2), who(20))],
        vec![],
        vec![(who(1), Status { text: String::from("hi") })],
        1,
    ).unwrap();
    let profiles = service.profiles().unwrap();
    assert_eq!(profiles.len(), 2);
    assert_eq!((profiles[0].pk, profiles[0].name.as_str()), (who(1), "ann"));
    assert_eq!(profiles[0].pic, None);
    assert_eq!(profiles[0].status.text, "hi");
    assert_eq!((profiles[1].pk, profiles[1].name.as_str()), (who(2), "bob"));
    assert_eq!(profiles[1].pic, Some(who(20)));
    assert_eq!(profiles[1].status.text, "");
    assert!(service.get_profile_by_key(&who(3)).is_none());
}

#[test]
fn a_status_update_is_kept_and_announced() {
    let mut service = started(b"doc", vec![iden(1, "me")], 0);
    let effects = service.status_update(who(1), Status { text: String::from("away") });
    assert_eq!(effects, vec![Effect::EmitIdentities]);
    assert_eq!(service.get_profile_by_key(&who(1)).unwrap().status.text, "away");
}

#[test]
fn effects_become_events() {
    let mut service = started(b"doc", vec![iden(1, "me")], 0);
    let me = who(1);
    assert!(matches!(
        service.event_for(Effect::EmitBroadcasting(true), &me),
        Some(NearbyServiceEvents::BroadcastingUpdated(true))
    ));
    assert!(matches!(
        service.event_for(Effect::EmitConState(ConState::Searching), &me),
        Some(NearbyServiceEvents::ConStateUpdated(ConState::Searching))
    ));
    match service.event_for(Effect::EmitDocData(DocData { doc_id: who(1) }), &me) {
        Some(NearbyServiceEvents::DocDataUpdated(data)) => assert_eq!(data.doc_id, who(1)),
        _ => panic!("the document is announced"),
    }
    match service.event_for(Effect::EmitBio(who(4)), &me) {
        Some(NearbyServiceEvents::BioUpdated(pk)) => assert_eq!(pk, who(4)),
        _ => panic!("the bio is announced"),
    }
    match service.event_for(Effect::EmitIdentities, &me) {
        Some(NearbyServiceEvents::IdentitiesUpdated(list)) => assert_eq!(list.len(), 1),
        _ => panic!("the profiles are announced"),
    }
    assert!(service.event_for(Effect::StartSync, &me).is_none());
    assert!(service.event_for(Effect::EmitOneMessage(1), &me).is_none());
    service.handle_insert_entry(
        &row(b"messages/1", 1, 5),
        RowContent::Post(Post::at(me, Timestamp { secs: 1, nanos: 0 }).body(String::from("one"))),
        0,
    );
    match service.event_for(Effect::EmitOneMessage(1), &me) {
        Some(NearbyServiceEvents::ReceivedOneNewMessage(shown)) => {
            assert_eq!(shown.id, 0);
            assert_eq!(shown.text, "one");
            assert!(shown.is_self);
        }
        _ => panic!("the message is announced"),
    }
    assert!(service.event_for(Effect::EmitOneMessage(0), &me).is_none());
    assert!(service.event_for(Effect::EmitOneMessage(2), &me).is_none());
}

#[test]
fn the_scanner_reports_a_peer() {
    let (id, data) = peer_data_discovered(uuid(3), vec![1], vec![2], 1);
    assert_eq!(id, uuid(3));
    assert_eq!(data, PeerData {
        address_data: vec![1],
        document_data: vec![2],
        peer_state: PeerState::Settled,
    });
    let (_, data) = peer_data_discovered(uuid(3), vec![], vec![], 0);
    assert_eq!(data.peer_state, PeerState::Scanning);
    let (_, data) = peer_data_discovered(uuid(3), vec![], vec![], 2);
    assert_eq!(data.peer_state, PeerState::Scanning);
}

#[test]
fn peer_states_and_their_bytes() {
    assert_eq!(PeerState::from(1), PeerState::Settled);
    assert_eq!(PeerState::from(0), PeerState::Scanning);
    assert_eq!(PeerState::from(255), PeerState::Scanning);
    assert_eq!(u8::from(PeerState::Settled), 1);
    assert_eq!(u8::from(PeerState::Scanning), 0);
    let state: PeerState = 1u8.into();
    assert_eq!(state, PeerState::Settled);
    let byte: u8 = PeerState::Settled.into();
    assert_eq!(byte, 1);
}

struct Recorder(RefCell<Vec<String>>);

impl BLEGossipBroadcaster for Recorder {
    fn start(&self) {
        self.0.borrow_mut().push(String::from("start"));
    }

    fn stop(&self) {
        self.0.borrow_mut().push(String::from("stop"));
    }

    fn set_document_data(&self, document_data: Vec<u8>) {
        self.0.borrow_mut().push(format!("doc {:?}", document_data));
    }

    fn set_address_data(&self, address_data: Vec<u8>) {
        self.0.borrow_mut().push(format!("addr {:?}", address_data));
    }

    fn set_peer_state(&self, peer_state: u8) {
        self.0.borrow_mut().push(format!("state {}", peer_state));
    }
}

#[test]
fn the_broadcaster_is_told_what_the_effects_say() {
    let recorder = Recorder(RefCell::new(vec![]));
    let shared = Ticket { document_data: vec![1, 2], address_data: vec![3] };
    let mut service = Service::new();
    let mut effects = service.initialize(who(1), ticket(&[1, 2])).unwrap();
    effects.extend(service.update_ble_broadcast(true));
    let mut told = 0;
    for effect in effects {
        if tell_broadcaster(effect, &shared, &recorder) {
            told += 1;
        }
    }
    assert_eq!(told, 10);
    assert_eq!(
        recorder.0.into_inner(),
        vec![
            "state 0", "doc [1, 2]", "addr [3]", "stop", "doc [1, 2]", "state 0", "state 0",
            "doc [1, 2]", "addr [3]", "start",
        ]
    );
}

#[test]
fn a_broadcaster_that_does_nothing() {
    let shared = ticket(b"x");
    assert!(tell_broadcaster(Effect::StartBroadcast, &shared, &DummyBLEBroadcaster));
    assert!(!tell_broadcaster(Effect::StartScanning, &shared, &DummyBLEBroadcaster));
    assert!(!tell_broadcaster(Effect::EmitIdentities, &shared, &DummyBLEBroadcaster));
}

#[test]
fn effects_for_the_radio_become_orders() {
    let shared = Ticket { document_data: vec![1, 2], address_data: vec![3] };
    assert!(matches!(
        radio_order(Effect::SetPeerState(PeerState::Settled), &shared),
        Some(RadioOrder::SetPeerState(1))
    ));
    assert!(matches!(
        radio_order(Effect::SetPeerState(PeerState::Scanning), &shared),
        Some(RadioOrder::SetPeerState(0))
    ));
    assert!(matches!(
        radio_order(Effect::SetDocumentData, &shared),
        Some(RadioOrder::SetDocumentData(bytes)) if bytes == vec![1, 2]
    ));
    assert!(matches!(
        radio_order(Effect::SetAddressData, &shared),
        Some(RadioOrder::SetAddressData(bytes)) if bytes == vec![3]
    ));
    assert!(matches!(radio_order(Effect::StartBroadcast, &shared), Some(RadioOrder::Start)));
    assert!(matches!(radio_order(Effect::StopBroadcast, &shared), Some(RadioOrder::Stop)));
    assert!(radio_order(Effect::StartScanning, &shared).is_none());
    assert!(radio_order(Effect::Subscribe, &shared).is_none());
}

#[test]
fn a_device_without_radio_takes_every_order() {
    let device = create_dummy_provider();
    let shared = ticket(b"x");
    assert!(tell_scanner(Effect::StartScanning, &device.ble_scanner()));
    assert!(tell_scanner(Effect::StopScanning, &device.ble_scanner()));
    assert!(!tell_scanner(Effect::StartBroadcast, &device.ble_scanner()));
    assert!(tell_broadcaster(Effect::StopBroadcast, &shared, &device.ble_broadcaster()));
}

#[test]
fn a_service_is_offline_right_after_it_took_its_document() {
    let mut service = Service::new();
    service.initialize(who(1), ticket(b"self")).unwrap();
    assert_eq!(service.get_con_state(), ConState::Offline);
    assert_eq!(ready(&service).con_state, ConState::Offline);
}

#[test]
fn a_service_with_a_document_takes_no_first_document() {
    let mut service = started(b"doc", vec![iden(1, "me"), iden(2, "you")], 1);
    service.start_scanning(0);
    let out = service.initialize(who(9), ticket(b"other"));
    assert_eq!(out, Err(ServiceError::AlreadyInitialized));
    assert_eq!(ServiceError::AlreadyInitialized.message(), "cant start already initialized service");
    // Nothing has changed.
    assert_eq!(ready(&service).doc_id, who(1));
    assert_eq!(ready(&service).doc_share.document_data, b"doc".to_vec());
    assert_eq!(ready(&service).identities.identities(), vec![iden(1, "me"), iden(2, "you")]);
    assert!(ready(&service).found_group);
    assert!(ready(&service).should_broadcast);
    assert_eq!(service.radio.document_data, b"doc".to_vec());
    assert_eq!(service.radio.peer_state, PeerState::Settled);
}

#[test]
fn a_service_without_a_document_loads_none() {
    let mut service = Service::new();
    let out = service.load_doc(vec![iden(1, "me")], vec![], vec![], vec![], 0);
    assert_eq!(out, Err(ServiceError::NoDocument));
    assert_eq!(ServiceError::NoDocument.message(), "bad state, no doc!");
    assert!(matches!(service.state, State::Uninitialized));
}

#[test]
fn a_second_load_asks_for_no_second_listener() {
    let mut service = Service::new();
    service.initialize(who(1), ticket(b"doc")).unwrap();
    let rows = vec![iden(1, "me"), iden(2, "you")];
    let first = service.load_doc(rows.clone(), vec![], vec![], vec![], 1).unwrap();
    assert_eq!(first.iter().filter(|e| **e == Effect::Subscribe).count(), 1);
    let found = ready(&service).found_group;
    let second = service.load_doc(rows.clone(), vec![], vec![], vec![], 1).unwrap();
    assert_eq!(
        second,
        vec![
            Effect::RememberDoc(who(1)),
            Effect::SetPeerState(PeerState::Settled),
            Effect::EmitDocData(DocData { doc_id: who(1) }),
            Effect::EmitIdentities,
            Effect::EmitAllMessages,
        ]
    );
    assert_eq!(ready(&service).identities.identities(), rows);
    assert_eq!(ready(&service).found_group, found);
    assert!(ready(&service).listening);
    assert_eq!(ready(&service).doc_id, who(1));
}

#[test]
fn two_rows_of_one_author_make_no_group() {
    let service = started(b"doc", vec![iden(1, "me"), iden(1, "I")], 0);
    assert_eq!(ready(&service).identities.identities(), vec![iden(1, "I")]);
    assert!(!ready(&service).found_group);
    assert_eq!(service.radio.peer_state, PeerState::Scanning);
}

#[test]
fn a_node_that_joins_goes_on_to_scan_and_to_broadcast() {
    let mut service = started(b"mine", vec![iden(1, "me")], 0);
    service.start_scanning(0);
    assert_eq!(service.get_con_state(), ConState::Searching);
    assert!(service.radio.scanning && service.radio.broadcasting);
    let effects = service.rotate(who(7), ticket(b"theirs"));
    assert_eq!(
        effects,
        vec![
            Effect::StopSubscription,
            Effect::SetDocumentData,
            Effect::SetPeerState(PeerState::Scanning),
            Effect::PutSelfOnDoc,
        ]
    );
    // Nothing was said to the radio: the flags say what it does.
    assert!(ready(&service).should_scan);
    assert!(ready(&service).should_broadcast);
    assert!(service.should_broadcast());
    assert!(service.radio.scanning && service.radio.broadcasting);
    assert_eq!(service.get_con_state(), ConState::Searching);
    assert!(!ready(&service).found_group);
    assert!(ready(&service).identities.identities().is_empty());
    // The document holds a group: the scanner is stopped.
    let effects =
        service.load_doc(vec![iden(1, "me"), iden(2, "you")], vec![], vec![], vec![], 1).unwrap();
    assert!(effects.contains(&Effect::StopScanning));
    assert!(effects.contains(&Effect::SetPeerState(PeerState::Settled)));
    assert!(!service.radio.scanning);
    assert!(!ready(&service).should_scan);
    assert!(service.radio.broadcasting);
    let (_, now, effects) = service.calculate_and_update_con_state(1);
    assert_eq!(now, ConState::Connected(1));
    assert_eq!(effects, vec![Effect::EmitConState(ConState::Connected(1))]);
}

#[test]
fn the_first_document_finds_the_radio_silent() {
    let mut service = Service::new();
    service.initialize(who(1), ticket(b"doc")).unwrap();
    assert!(!service.radio.scanning);
    assert!(!service.radio.broadcasting);
    assert!(!ready(&service).should_scan);
    assert!(!ready(&service).should_broadcast);
    assert_eq!(service.get_con_state(), ConState::Offline);
}

#[test]
fn the_radio_does_what_the_flags_say() {
    let mut service = started(b"doc", vec![iden(1, "me")], 0);
    let same = |s: &Service| {
        s.radio.scanning == ready(s).should_scan
            && s.radio.broadcasting == ready(s).should_broadcast
    };
    assert!(same(&service));
    service.start_scanning(0);
    assert!(same(&service));
    service.rotate(who(2), ticket(b"other"));
    assert!(same(&service));
    service.load_doc(vec![iden(1, "me"), iden(2, "you")], vec![], vec![], vec![], 1).unwrap();
    assert!(same(&service));
    service.cancel_connection_attempt(0);
    assert!(same(&service));
    service.update_ble_broadcast(true);
    assert!(same(&service));
    service.leave_group();
    assert!(same(&service));
    service.rotate(who(3), ticket(b"fresh"));
    assert!(same(&service));
}
