//! The statistics of the node, as text for a view.

use crate::data::{decimal, decimal_text, PublicKey};
use vstd::prelude::*;
use vstd::string::*;

verus! {

/// The text shown for a time span that is not known.
pub const UNKNOWN_SPAN: &'static str = "\u{e2}\u{2c6}\u{17e}";

/// The text shown where the node has no relay.
pub const NO_RELAY: &'static str = "no relay";

/// The statistics of the node.
#[derive(Debug)]
pub struct NodeStatsData {
    pub node_id: PublicKey,
    pub relay_url: String,
    pub listen_addrs: Vec<String>,
    pub connections: Vec<ConnectionStats>,
}

/// The statistics of one connection.
#[derive(Debug)]
pub struct ConnectionStats {
    pub node_id: PublicKey,
    pub relay_info: String,
    pub conn_type: String,
    pub addrs: Vec<String>,
    pub last_received: String,
    pub has_send_addr: bool,
}

/// The text of a time span: the decimal text of the number of its
/// milliseconds, or the text for a span that is not known.
pub open spec fn span_text(millis: Option<u128>) -> Seq<char> {
    match millis {
        Some(ms) => decimal(ms as nat),
        None => UNKNOWN_SPAN@,
    }
}

/// The text of a time span given in milliseconds; for a span that is not
/// known, the text for that.
pub fn format_duration(millis: Option<u128>) -> (text: String)
    ensures
        text@ == span_text(millis),
{
    match millis {
        Some(ms) => decimal_text(ms),
        None => UNKNOWN_SPAN.to_owned(),
    }
}

/// What kind of path a connection takes, with the text of its addresses.
#[derive(Debug)]
pub enum ConnectionKind {
    Direct(String),
    Relay(String),
    Mixed(String, String),
    Unconnected,
}

/// The text of the kind of a connection.
pub fn conn_type_text(kind: &ConnectionKind) -> (text: String)
    ensures
        text@ == match *kind {
            ConnectionKind::Direct(d) => "Direct ("@ + d@ + ")"@,
            ConnectionKind::Relay(r) => "Relay ("@ + r@ + ")"@,
            ConnectionKind::Mixed(a, r) => "Mixed ("@ + a@ + ", "@ + r@ + ")"@,
            ConnectionKind::Unconnected => "none"@,
        },
{
    match kind {
        ConnectionKind::Direct(d) => {
            let mut text = String::from_str("Direct (");
            text.append(d.as_str());
            text.append(")");
            text
        },
        ConnectionKind::Relay(r) => {
            let mut text = String::from_str("Relay (");
            text.append(r.as_str());
            text.append(")");
            text
        },
        ConnectionKind::Mixed(a, r) => {
            let mut text = String::from_str("Mixed (");
            text.append(a.as_str());
            text.append(", ");
            text.append(r.as_str());
            text.append(")");
            text
        },
        ConnectionKind::Unconnected => String::from_str("none"),
    }
}

/// The text of the relay of a connection: its address, with how long a
/// packet takes and when the relay was last alive.
pub fn relay_info_text(relay_url: &str, latency: Option<u128>, last_alive: Option<u128>) -> (text:
    String)
    ensures
        is_relay_info(relay_url@, latency, last_alive, text@),
{
    let lat = format_duration(latency);
    let alive = format_duration(last_alive);
    let mut text = String::from_str(relay_url);
    text.append(" (Latency: ");
    text.append(lat.as_str());
    text.append(", LastAlive: ");
    text.append(alive.as_str());
    text.append(")");
    text
}

/// The text of an address of a connection, with how long a packet takes
/// and when the last payload came.
pub fn addr_text(addr: &str, latency: Option<u128>, last_payload: Option<u128>) -> (text: String)
    ensures
        is_addr_text(addr@, latency, last_payload, text@),
{
    let lat = format_duration(latency);
    let last = format_duration(last_payload);
    let mut text = String::from_str(addr);
    text.append(" (lat: ");
    text.append(lat.as_str());
    text.append("ms, last_payload: ");
    text.append(last.as_str());
    text.append("ms)");
    text
}

/// `text` is the text of a relay of a connection.
pub open spec fn is_relay_info(
    relay_url: Seq<char>,
    latency: Option<u128>,
    last_alive: Option<u128>,
    text: Seq<char>,
) -> bool {
    text == relay_url + " (Latency: "@ + span_text(latency) + ", LastAlive: "@ + span_text(
        last_alive,
    ) + ")"@
}

/// `text` is the text of an address of a connection.
pub open spec fn is_addr_text(
    addr: Seq<char>,
    latency: Option<u128>,
    last_payload: Option<u128>,
    text: Seq<char>,
) -> bool {
    text == addr + " (lat: "@ + span_text(latency) + "ms, last_payload: "@ + span_text(
        last_payload,
    ) + "ms)"@
}

/// An address of a connection: its text, how long a packet takes, and when
/// the last payload came, both in milliseconds.
#[derive(Debug)]
pub struct AddrInfo {
    pub addr: String,
    pub latency: Option<u128>,
    pub last_payload: Option<u128>,
}

/// The relay of a connection: its address, how long a packet takes, and
/// when it was last alive, both in milliseconds.
#[derive(Debug)]
pub struct RelayInfo {
    pub relay_url: String,
    pub latency: Option<u128>,
    pub last_alive: Option<u128>,
}

/// The statistics of one connection, as text: the relay where there is
/// one, else nothing; the kind of the connection; each address; and when
/// the last packet came.
pub fn connection_stats(
    node_id: PublicKey,
    relay: Option<RelayInfo>,
    kind: &ConnectionKind,
    addrs: &Vec<AddrInfo>,
    last_received: Option<u128>,
    has_send_addr: bool,
) -> (stats: ConnectionStats)
    ensures
        stats.node_id == node_id,
        match relay {
            Some(r) => is_relay_info(r.relay_url@, r.latency, r.last_alive, stats.relay_info@),
            None => stats.relay_info@ == Seq::<char>::empty(),
        },
        stats.conn_type@ == match *kind {
            ConnectionKind::Direct(d) => "Direct ("@ + d@ + ")"@,
            ConnectionKind::Relay(r) => "Relay ("@ + r@ + ")"@,
            ConnectionKind::Mixed(a, r) => "Mixed ("@ + a@ + ", "@ + r@ + ")"@,
            ConnectionKind::Unconnected => "none"@,
        },
        stats.addrs.len() == addrs.len(),
        forall|i: int|
            0 <= i < addrs.len() ==> is_addr_text(
                addrs[i].addr@,
                addrs[i].latency,
                addrs[i].last_payload,
                (#[trigger] stats.addrs[i])@,
            ),
        stats.last_received@ == span_text(last_received),
        stats.has_send_addr == has_send_addr,
{
    let relay_info = match relay {
        Some(r) => relay_info_text(r.relay_url.as_str(), r.latency, r.last_alive),
        None => String::new(),
    };
    let mut texts: Vec<String> = Vec::new();
    let mut i: usize = 0;
    while i < addrs.len()
        invariant
            i <= addrs.len(),
            texts.len() == i,
            forall|j: int|
                0 <= j < i ==> is_addr_text(
                    addrs[j].addr@,
                    addrs[j].latency,
                    addrs[j].last_payload,
                    (#[trigger] texts[j])@,
                ),
        decreases addrs.len() - i,
    {
        let text = addr_text(addrs[i].addr.as_str(), addrs[i].latency, addrs[i].last_payload);
        texts.push(text);
        i += 1;
    }
    ConnectionStats {
        node_id,
        relay_info,
        conn_type: conn_type_text(kind),
        addrs: texts,
        last_received: format_duration(last_received),
        has_send_addr,
    }
}

/// The text of the relay of the node: its address, or the text for a node
/// without one.
pub fn relay_text(relay_url: Option<String>) -> (text: String)
    ensures
        match relay_url {
            Some(url) => text == url,
            None => text@ == NO_RELAY@,
        },
{
    match relay_url {
        Some(url) => url,
        None => NO_RELAY.to_owned(),
    }
}

} // verus!
