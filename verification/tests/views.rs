use libgossip::identity::model::{Identity, IdentityServiceEvents};
use libgossip::nearby::model::{ConState, DocData, Status};
use libgossip::nearby::NearbyServiceEvents;
use libgossip::settings::{SettingsEvent, StoreValue};
use libgossip::views::errors::GossipError;
use libgossip::views::{on_identity_event, on_nearby_event, on_settings_event, start, GlobalUpdate};
use libgossip::views::node_stat::{
    conn_type_text, connection_stats, format_duration, relay_text, AddrInfo, ConnectionKind,
    ConnectionStats, NodeStatsData, RelayInfo,
};
use libgossip::data::WideId;

#[test]
fn a_span_is_shown_in_milliseconds() {
    assert_eq!(format_duration(Some(0)), "0");
    assert_eq!(format_duration(Some(1500)), "1500");
    assert_eq!(format_duration(Some(u128::MAX)), "340282366920938463463374607431768211455");
}

#[test]
fn an_unknown_span_has_its_own_text() {
    assert_eq!(format_duration(None), "\u{e2}\u{2c6}\u{17e}");
}

#[test]
fn the_kind_of_a_connection_as_text() {
    assert_eq!(conn_type_text(&ConnectionKind::Direct(String::from("1.2.3.4:5"))), "Direct (1.2.3.4:5)");
    assert_eq!(conn_type_text(&ConnectionKind::Relay(String::from("https://r"))), "Relay (https://r)");
    assert_eq!(
        conn_type_text(&ConnectionKind::Mixed(String::from("1.2.3.4:5"), String::from("https://r"))),
        "Mixed (1.2.3.4:5, https://r)"
    );
    assert_eq!(conn_type_text(&ConnectionKind::Unconnected), "none");
}

#[test]
fn a_node_without_relay_says_so() {
    assert_eq!(relay_text(None), "no relay");
    assert_eq!(relay_text(Some(String::from("https://r"))), "https://r");
}

#[test]
fn statistics_hold_their_parts() {
    let stats = NodeStatsData {
        node_id: WideId::from_bytes([1; 32]),
        relay_url: relay_text(None),
        listen_addrs: vec![String::from("0.0.0.0:1")],
        connections: vec![ConnectionStats {
            node_id: WideId::from_bytes([2; 32]),
            relay_info: String::new(),
            conn_type: conn_type_text(&ConnectionKind::Unconnected),
            addrs: vec![],
            last_received: format_duration(Some(12)),
            has_send_addr: false,
        }],
    };
    assert_eq!(stats.connections[0].last_received, "12");
    assert_eq!(stats.relay_url, "no relay");
}

#[test]
fn an_error_keeps_its_text() {
    let error = GossipError::new("profile does not exist here");
    assert_eq!(error.message(), "profile does not exist here");
}

fn some(byte: u8) -> WideId {
    WideId::from_bytes([byte; 32])
}

#[test]
fn the_view_of_a_user_with_identity_starts_with_all_of_it() {
    let me = Identity { name: String::from("kevin"), pk: some(1) };
    let updates = start(
        Status { text: String::from("hi") },
        ConState::Offline,
        Some(me),
        Some(some(9)),
        true,
    );
    assert_eq!(updates.len(), 6);
    assert!(matches!(&updates[0], GlobalUpdate::Status(s) if s.text == "hi"));
    assert!(matches!(&updates[1], GlobalUpdate::ConnectionState(ConState::Offline)));
    assert!(matches!(&updates[2], GlobalUpdate::OwnPublicKey(pk) if *pk == some(1)));
    assert!(matches!(&updates[3], GlobalUpdate::Name(n) if n == "kevin"));
    assert!(matches!(&updates[4], GlobalUpdate::Pic(h) if *h == some(9)));
    assert!(matches!(&updates[5], GlobalUpdate::Broadcasting(true)));
}

#[test]
fn the_view_of_a_user_without_identity_starts_without() {
    let updates =
        start(Status { text: String::new() }, ConState::Searching, None, Some(some(9)), false);
    assert_eq!(updates.len(), 3);
    assert!(matches!(&updates[2], GlobalUpdate::Broadcasting(false)));
    let me = Identity { name: String::from("kevin"), pk: some(1) };
    let updates = start(Status { text: String::new() }, ConState::Searching, Some(me), None, false);
    assert_eq!(updates.len(), 5);
    assert!(matches!(&updates[3], GlobalUpdate::Name(_)));
    assert!(matches!(&updates[4], GlobalUpdate::Broadcasting(false)));
}

#[test]
fn events_reach_the_view_of_the_application() {
    let status = SettingsEvent::StatusSettingChanged(Status { text: String::from("x") });
    assert!(matches!(on_settings_event(status), Some(GlobalUpdate::Status(s)) if s.text == "x"));
    let setting =
        SettingsEvent::SettingChanged(String::from("k"), None, StoreValue::Bool(true));
    assert!(on_settings_event(setting).is_none());
    let named = IdentityServiceEvents::DefaultIdentityUpdated(Identity {
        name: String::from("kevin"),
        pk: some(1),
    });
    assert!(matches!(on_identity_event(named), GlobalUpdate::Name(n) if n == "kevin"));
    let pic = IdentityServiceEvents::DefaultIdentityPicUpdated(some(3), 10);
    assert!(matches!(on_identity_event(pic), GlobalUpdate::Pic(h) if h == some(3)));
    assert!(matches!(
        on_nearby_event(NearbyServiceEvents::ConStateUpdated(ConState::Connected(2))),
        Some(GlobalUpdate::ConnectionState(ConState::Connected(2)))
    ));
    assert!(matches!(
        on_nearby_event(NearbyServiceEvents::DocDataUpdated(DocData { doc_id: some(4) })),
        Some(GlobalUpdate::DocData(d)) if d.doc_id == some(4)
    ));
    assert!(matches!(
        on_nearby_event(NearbyServiceEvents::BroadcastingUpdated(true)),
        Some(GlobalUpdate::Broadcasting(true))
    ));
    assert!(matches!(
        on_nearby_event(NearbyServiceEvents::IdentitiesUpdated(vec![]).clone()),
        Some(GlobalUpdate::NearbyProfiles(list)) if list.is_empty()
    ));
    assert!(on_nearby_event(NearbyServiceEvents::BioUpdated(some(1))).is_none());
}

#[test]
fn the_statistics_of_a_connection() {
    let stats = connection_stats(
        some(2),
        Some(RelayInfo { relay_url: String::from("https://r"), latency: Some(3), last_alive: None }),
        &ConnectionKind::Direct(String::from("1.2.3.4:5")),
        &vec![
            AddrInfo { addr: String::from("1.2.3.4:5"), latency: Some(7), last_payload: Some(9) },
            AddrInfo { addr: String::from("[::1]:6"), latency: None, last_payload: None },
        ],
        Some(40),
        true,
    );
    assert_eq!(stats.node_id, some(2));
    assert_eq!(stats.relay_info, "https://r (Latency: 3, LastAlive: \u{e2}\u{2c6}\u{17e})");
    assert_eq!(stats.conn_type, "Direct (1.2.3.4:5)");
    assert_eq!(
        stats.addrs,
        vec![
            String::from("1.2.3.4:5 (lat: 7ms, last_payload: 9ms)"),
            String::from("[::1]:6 (lat: \u{e2}\u{2c6}\u{17e}ms, last_payload: \u{e2}\u{2c6}\u{17e}ms)"),
        ]
    );
    assert_eq!(stats.last_received, "40");
    assert!(stats.has_send_addr);
}

#[test]
fn a_connection_without_relay_has_no_relay_text() {
    let stats =
        connection_stats(some(2), None, &ConnectionKind::Unconnected, &vec![], None, false);
    assert_eq!(stats.relay_info, "");
    assert_eq!(stats.conn_type, "none");
    assert!(stats.addrs.is_empty());
    assert_eq!(stats.last_received, "\u{e2}\u{2c6}\u{17e}");
    assert!(!stats.has_send_addr);
}
