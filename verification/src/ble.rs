//! What the radio layer advertises about a peer, and what it is told to
//! advertise.

use crate::data::UUID;
use vstd::prelude::*;

verus! {

/// Reachability hints of a peer, as advertised.
pub type AddressData = Vec<u8>;

/// Capability bytes of the document a peer takes part in, as advertised.
pub type DocumentData = Vec<u8>;

/// Whether an advertising peer has found a group yet.
#[derive(Debug, Clone, Copy, PartialEq, Eq, Hash, Structural)]
pub enum PeerState {
    Scanning,
    Settled,
}

impl PeerState {
    /// The state that a radio byte stands for: `1` is `Settled`, every
    /// other value `Scanning`.
    pub open spec fn of_byte(value: u8) -> PeerState {
        if value == 1 {
            PeerState::Settled
        } else {
            PeerState::Scanning
        }
    }

    /// The radio byte of a state.
    pub open spec fn byte(self) -> u8 {
        match self {
            PeerState::Settled => 1,
            PeerState::Scanning => 0,
        }
    }
}

impl From<u8> for PeerState {
    fn from(value: u8) -> (state: PeerState) {
        if value == 1 {
            PeerState::Settled
        } else {
            PeerState::Scanning
        }
    }
}

impl vstd::std_specs::convert::FromSpecImpl<u8> for PeerState {
    open spec fn obeys_from_spec() -> bool {
        true
    }

    open spec fn from_spec(value: u8) -> PeerState {
        PeerState::of_byte(value)
    }
}

impl From<PeerState> for u8 {
    fn from(value: PeerState) -> (byte: u8) {
        match value {
            PeerState::Settled => 1,
            PeerState::Scanning => 0,
        }
    }
}

impl vstd::std_specs::convert::FromSpecImpl<PeerState> for u8 {
    open spec fn obeys_from_spec() -> bool {
        true
    }

    open spec fn from_spec(value: PeerState) -> u8 {
        value.byte()
    }
}

/// What one radio advertisement says of a peer.
#[derive(Debug, Hash, PartialEq, Eq)]
pub struct PeerData {
    pub address_data: AddressData,
    pub document_data: DocumentData,
    pub peer_state: PeerState,
}

impl Clone for PeerData {
    fn clone(&self) -> (copy: Self)
        ensures
            copy.address_data@ == self.address_data@,
            copy.document_data@ == self.document_data@,
            copy.peer_state == self.peer_state,
    {
        let address_data = self.address_data.clone();
        let document_data = self.document_data.clone();
        assert(address_data@ =~= self.address_data@ && document_data@ =~= self.document_data@);
        PeerData { address_data, document_data, peer_state: self.peer_state }
    }
}

/// A peer that the scanner saw, with its identifier.
pub type BluetoothPeerEvent = (UUID, PeerData);

/// What the scanner reports of a peer, as an event for the service. The
/// byte of the peer state is read as `PeerState::of_byte` says.
pub fn peer_data_discovered(
    uuid: UUID,
    address_data: AddressData,
    document_data: DocumentData,
    peer_state: u8,
) -> (event: BluetoothPeerEvent)
    ensures
        event.0 == uuid,
        event.1 == (PeerData {
            address_data,
            document_data,
            peer_state: PeerState::of_byte(peer_state),
        }),
{
    (uuid, PeerData { address_data, document_data, peer_state: PeerState::from(peer_state) })
}

/// The scanner of the platform, as far as the service drives it. Every
/// call of it can be repeated without harm.
pub trait BLEGossipScanner {
    fn start_scanning(&self);

    fn stop_scanning(&self);
}

/// A scanner that does nothing, for a platform without a radio.
pub struct DummyBLEScanner;

impl BLEGossipScanner for DummyBLEScanner {
    fn start_scanning(&self) {
    }

    fn stop_scanning(&self) {
    }
}

/// The broadcaster of the platform. Every call of it can be repeated
/// without harm.
pub trait BLEGossipBroadcaster {
    fn start(&self);

    fn stop(&self);

    fn set_document_data(&self, document_data: Vec<u8>);

    fn set_address_data(&self, address_data: Vec<u8>);

    fn set_peer_state(&self, peer_state: u8);
}

/// A broadcaster that does nothing, for a platform without a radio.
pub struct DummyBLEBroadcaster;

impl BLEGossipBroadcaster for DummyBLEBroadcaster {
    fn start(&self) {
    }

    fn stop(&self) {
    }

    fn set_document_data(&self, _document_data: Vec<u8>) {
    }

    fn set_address_data(&self, _address_data: Vec<u8>) {
    }

    fn set_peer_state(&self, _peer_state: u8) {
    }
}

} // verus!
