//! The nearby service: which document to join, the state kept on the
//! active document, and what each event makes the node do.
//!
//! The service here decides and keeps state; it performs nothing. Each
//! operation takes what the outside has read for it (the number of live
//! peers, the rows of a document), changes the state, and returns the list
//! of effects that the caller is to carry out, in order.

pub mod bio;
pub mod join;
pub mod model;
pub mod peer_calc;
pub mod post;
pub mod profiles;
pub mod writes;

use crate::ble::{BLEGossipBroadcaster, BLEGossipScanner, PeerData, PeerState};
use crate::data::{BlobHash, PublicKey, WideId, UUID};
use crate::doc::{classify_key, kind_of_key, InsertEntry, KeyKind};
use crate::identity::domain::{
    has_pk, lemma_first_of, upserted, upserted_all, IdentityDomain,
};
use crate::identity::model::Identity;
use crate::nearby::join::{
    collated, decide_join, is_joinable, spec_capability_namespace, views_of, JoinDecision,
};
use crate::nearby::model::{ConState, DisplayMessage, DocData, NearbyProfile, Post, Status};
use crate::nearby::peer_calc::{
    best_doc, collect_addrs_in_table, doc_eq, find_best_doc_from_peers, is_address_collation,
};
use crate::nearby::post::{is_out_of_order, with_post, PostDomain, PostUpdate};
use crate::wide_map::WideMap;
use std::collections::HashMap;
use vstd::prelude::*;

verus! {

broadcast use vstd::std_specs::hash::group_hash_axioms;

/// What the service asks its caller to do.
#[derive(Clone, Copy, Debug, PartialEq, Eq, Structural)]
pub enum Effect {
    /// Start the radio scanner.
    StartScanning,
    /// Stop the radio scanner.
    StopScanning,
    /// Advertise this peer state.
    SetPeerState(PeerState),
    /// Advertise the capability bytes of the active document's ticket.
    SetDocumentData,
    /// Advertise the address bytes of the active document's ticket.
    SetAddressData,
    /// Start the radio broadcaster.
    StartBroadcast,
    /// Stop the radio broadcaster.
    StopBroadcast,
    /// Write the local author's identity, status, portrait and bio onto the
    /// active document.
    PutSelfOnDoc,
    /// Remember this namespace as the active nearby document.
    RememberDoc(WideId),
    /// Start listening to the rows of the active document.
    Subscribe,
    /// Stop listening to the rows of the document that was active.
    StopSubscription,
    /// Create a document with a fresh namespace and open it.
    CreateDoc,
    /// Start a sync with the known peers of the active document.
    StartSync,
    /// Tell the listeners whether the node broadcasts.
    EmitBroadcasting(bool),
    /// Tell the listeners which document is active.
    EmitDocData(DocData),
    /// Tell the listeners the profiles of the active document.
    EmitIdentities,
    /// Tell the listeners all messages of the active document.
    EmitAllMessages,
    /// Tell the listeners the one message that was appended; with it, the
    /// number of posts now held.
    EmitOneMessage(usize),
    /// Tell the listeners that the bio of this author changed.
    EmitBio(PublicKey),
    /// Tell the listeners the new connection state.
    EmitConState(ConState),
}

/// The capability ticket of a document: the bytes that grant access to it,
/// and the bytes of the addresses under which it can be reached.
#[derive(Debug)]
pub struct Ticket {
    pub document_data: Vec<u8>,
    pub address_data: Vec<u8>,
}

/// What the node last told the radio.
#[derive(Debug)]
pub struct Radio {
    pub document_data: Vec<u8>,
    pub address_data: Vec<u8>,
    pub peer_state: PeerState,
    pub broadcasting: bool,
    pub scanning: bool,
}

/// The state kept on the active document.
pub struct Ready {
    pub doc_id: WideId,
    pub con_state: ConState,
    pub doc_share: Ticket,
    pub identities: IdentityDomain,
    pub statuses: WideMap<Status>,
    pub found_group: bool,
    pub should_scan: bool,
    pub should_broadcast: bool,
    pub ble_peers: HashMap<u128, PeerData>,
    pub messages: PostDomain,
    /// Whether the rows of the document are being listened to.
    pub listening: bool,
}

/// Either no document yet, or a document with all that is kept on it.
pub enum State {
    Uninitialized,
    Ready(Ready),
}

/// The nearby service.
pub struct Service {
    pub state: State,
    pub radio: Radio,
}

/// The user-visible connection state that follows from the flags and the
/// number of live peers.
pub open spec fn con_state_of(
    found_group: bool,
    should_broadcast: bool,
    should_scan: bool,
    active_peers: u32,
) -> ConState {
    if !found_group && !should_broadcast && !should_scan {
        ConState::Offline
    } else if !found_group && should_broadcast && should_scan && active_peers == 0 {
        ConState::Searching
    } else if found_group && !should_scan && active_peers > 0 {
        ConState::Connected(active_peers)
    } else if found_group && !should_scan && active_peers == 0 {
        ConState::Reconnecting
    } else {
        ConState::Invalid
    }
}

/// Derives the connection state.
pub fn derive_con_state(
    found_group: bool,
    should_broadcast: bool,
    should_scan: bool,
    active_peers: u32,
) -> (state: ConState)
    ensures
        state == con_state_of(found_group, should_broadcast, should_scan, active_peers),
{
    if !found_group && !should_broadcast && !should_scan {
        ConState::Offline
    } else if !found_group && should_broadcast && should_scan && active_peers == 0 {
        ConState::Searching
    } else if found_group && !should_scan && active_peers > 0 {
        ConState::Connected(active_peers)
    } else if found_group && !should_scan && active_peers == 0 {
        ConState::Reconnecting
    } else {
        ConState::Invalid
    }
}

/// The peer state that a node advertises: settled once it has found a
/// group.
pub open spec fn advertised(found_group: bool) -> PeerState {
    if found_group {
        PeerState::Settled
    } else {
        PeerState::Scanning
    }
}

/// An operation was asked of a service in the wrong state.
#[derive(Debug, Clone, Copy, PartialEq, Eq, Structural)]
pub enum ServiceError {
    /// The service has a document already.
    AlreadyInitialized,
    /// The service has no document yet.
    NoDocument,
}

impl ServiceError {
    pub fn message(&self) -> (text: &'static str)
        ensures
            text@ == match *self {
                ServiceError::AlreadyInitialized => "cant start already initialized service"@,
                ServiceError::NoDocument => "bad state, no doc!"@,
            },
    {
        match self {
            ServiceError::AlreadyInitialized => "cant start already initialized service",
            ServiceError::NoDocument => "bad state, no doc!",
        }
    }
}

impl Ready {
    pub open spec fn wf(&self) -> bool {
        self.identities.wf() && self.statuses.wf()
    }

    /// A group is found when the document holds the identities of more than
    /// one author. A well-formed domain holds one row for each author.
    pub open spec fn group_is_found(&self) -> bool {
        self.identities.rows().len() > 1
    }
}

impl Service {
    pub open spec fn is_ready(&self) -> bool {
        self.state is Ready
    }

    pub open spec fn ready(&self) -> Ready {
        self.state->Ready_0
    }

    /// The radio agrees with the state: the node advertises the capability
    /// of the active document, and advertises `Settled` exactly when that
    /// document holds more than one identity; it scans and broadcasts
    /// exactly when the flags say so, and does neither without a document.
    pub open spec fn coherent(&self) -> bool {
        match self.state {
            State::Ready(r) => {
                &&& self.radio.document_data@ == r.doc_share.document_data@
                &&& r.found_group == r.group_is_found()
                &&& self.radio.peer_state == advertised(r.found_group)
                &&& self.radio.scanning == r.should_scan
                &&& self.radio.broadcasting == r.should_broadcast
            },
            State::Uninitialized => !self.radio.scanning && !self.radio.broadcasting,
        }
    }

    /// The state kept on the document is well formed.
    pub open spec fn wf(&self) -> bool {
        self.state matches State::Ready(r) ==> r.wf()
    }

    /// The invariant of the service: the state is well formed and the radio
    /// is coherent with it.
    pub open spec fn inv(&self) -> bool {
        self.wf() && self.coherent()
    }

    /// What the invariant says of the radio of a service with a document:
    /// the capability bytes last advertised are those of the active
    /// document, the peer state last advertised is `Settled` exactly when
    /// the document holds more than one identity, and the radio was last
    /// told to scan and to broadcast exactly where the flags say so.
    pub proof fn lemma_radio_agrees(&self)
        requires
            self.inv(),
            self.is_ready(),
        ensures
            self.radio.document_data@ == self.ready().doc_share.document_data@,
            self.radio.peer_state == PeerState::Settled <==> self.ready().identities.rows().len()
                > 1,
            self.radio.scanning == self.ready().should_scan,
            self.radio.broadcasting == self.ready().should_broadcast,
    {
    }

    /// A service without a document. The radio has been told nothing yet.
    pub fn new() -> (service: Service)
        ensures
            service.inv(),
            service.state is Uninitialized,
            service.radio.document_data@ == Seq::<u8>::empty(),
            service.radio.address_data@ == Seq::<u8>::empty(),
            service.radio.peer_state == PeerState::Scanning,
            !service.radio.broadcasting,
            !service.radio.scanning,
    {
        Service {
            state: State::Uninitialized,
            radio: Radio {
                document_data: Vec::new(),
                address_data: Vec::new(),
                peer_state: PeerState::Scanning,
                broadcasting: false,
                scanning: false,
            },
        }
    }

    /// The connection state last derived; `Offline` without a document.
    pub fn get_con_state(&self) -> (state: ConState)
        ensures
            state == match self.state {
                State::Ready(r) => r.con_state,
                State::Uninitialized => ConState::Offline,
            },
    {
        match &self.state {
            State::Ready(r) => r.con_state,
            State::Uninitialized => ConState::Offline,
        }
    }

    /// Whether the node is to broadcast; `false` without a document.
    pub fn should_broadcast(&self) -> (yes: bool)
        ensures
            yes == match self.state {
                State::Ready(r) => r.should_broadcast,
                State::Uninitialized => false,
            },
    {
        match &self.state {
            State::Ready(r) => r.should_broadcast,
            State::Uninitialized => false,
        }
    }

    /// Turns the scanner on or off. The radio is told only where that is a
    /// change.
    pub fn update_scanning(&mut self, new_should_scan: bool) -> (effects: Vec<Effect>)
        requires
            old(self).wf(),
        ensures
            final(self).wf(),
            old(self).coherent() ==> final(self).coherent(),
            match old(self).state {
                State::Ready(r) => {
                    &&& final(self).state == State::Ready(
                        Ready { should_scan: new_should_scan, ..r },
                    )
                    &&& final(self).radio == (Radio {
                        scanning: if r.should_scan != new_should_scan {
                            new_should_scan
                        } else {
                            old(self).radio.scanning
                        },
                        ..old(self).radio
                    })
                    &&& effects@ == if r.should_scan == new_should_scan {
                        Seq::<Effect>::empty()
                    } else if new_should_scan {
                        seq![Effect::StartScanning]
                    } else {
                        seq![Effect::StopScanning]
                    }
                },
                State::Uninitialized => *final(self) == *old(self) && effects@ == Seq::<
                    Effect,
                >::empty(),
            },
    {
        let mut effects: Vec<Effect> = Vec::new();
        match &mut self.state {
            State::Ready(r) => {
                if r.should_scan != new_should_scan {
                    r.should_scan = new_should_scan;
                    self.radio.scanning = new_should_scan;
                    if new_should_scan {
                        effects.push(Effect::StartScanning);
                    } else {
                        effects.push(Effect::StopScanning);
                    }
                }
            },
            State::Uninitialized => {},
        }
        effects
    }
    /// What the radio is told when broadcasting is turned on or off, and
    /// what the listeners are told.
    pub open spec fn broadcast_effects(found_group: bool, on: bool) -> Seq<Effect> {
        seq![
            Effect::SetPeerState(advertised(found_group)),
            Effect::SetDocumentData,
            Effect::SetAddressData,
            if on {
                Effect::StartBroadcast
            } else {
                Effect::StopBroadcast
            },
            Effect::EmitBroadcasting(on),
        ]
    }

    /// What the radio was last told, once the broadcaster was turned on or
    /// off on the document of `r`.
    pub open spec fn is_broadcast(r: Ready, on: bool, scanning: bool, radio: Radio) -> bool {
        &&& radio.document_data@ == r.doc_share.document_data@
        &&& radio.address_data@ == r.doc_share.address_data@
        &&& radio.peer_state == advertised(r.found_group)
        &&& radio.broadcasting == on
        &&& radio.scanning == scanning
    }

    /// Turns the broadcaster on or off. The radio is told once more what to
    /// advertise for the active document.
    pub fn update_ble_broadcast(&mut self, new_should_broadcast: bool) -> (effects: Vec<Effect>)
        requires
            old(self).wf(),
        ensures
            final(self).wf(),
            match old(self).state {
                State::Ready(r) => {
                    &&& final(self).state == State::Ready(
                        Ready { should_broadcast: new_should_broadcast, ..r },
                    )
                    &&& Self::is_broadcast(
                        r,
                        new_should_broadcast,
                        old(self).radio.scanning,
                        final(self).radio,
                    )
                    &&& effects@ == Self::broadcast_effects(r.found_group, new_should_broadcast)
                },
                State::Uninitialized => *final(self) == *old(self) && effects@ == Seq::<
                    Effect,
                >::empty(),
            },
            old(self).is_ready() && old(self).ready().found_group == old(
                self,
            ).ready().group_is_found() && old(self).radio.scanning == old(
                self,
            ).ready().should_scan ==> final(self).coherent(),
            old(self).coherent() ==> final(self).coherent(),
    {
        let mut effects: Vec<Effect> = Vec::new();
        match &mut self.state {
            State::Ready(r) => {
                r.should_broadcast = new_should_broadcast;
                let peer_state = if r.found_group {
                    PeerState::Settled
                } else {
                    PeerState::Scanning
                };
                let document = r.doc_share.document_data.clone();
                let addrs = r.doc_share.address_data.clone();
                assert(document@ =~= r.doc_share.document_data@);
                assert(addrs@ =~= r.doc_share.address_data@);
                self.radio.peer_state = peer_state;
                self.radio.document_data = document;
                self.radio.address_data = addrs;
                self.radio.broadcasting = new_should_broadcast;
                effects.push(Effect::SetPeerState(peer_state));
                effects.push(Effect::SetDocumentData);
                effects.push(Effect::SetAddressData);
                if new_should_broadcast {
                    effects.push(Effect::StartBroadcast);
                } else {
                    effects.push(Effect::StopBroadcast);
                }
                effects.push(Effect::EmitBroadcasting(new_should_broadcast));
                assert(effects@ =~= Self::broadcast_effects(r.found_group, new_should_broadcast));
            },
            State::Uninitialized => {},
        }
        effects
    }

    /// What the listeners are told when the connection state `now` was
    /// derived and `before` is what they were told last: the new state,
    /// where it is another.
    pub open spec fn change_told(before: ConState, now: ConState) -> Seq<Effect> {
        if now != before {
            seq![Effect::EmitConState(now)]
        } else {
            Seq::empty()
        }
    }

    /// Derives the connection state anew from the flags and the number of
    /// live peers, and tells the listeners where it changed. Returns the
    /// state before and the state now; both are `Offline` without a
    /// document.
    pub fn calculate_and_update_con_state(&mut self, active_peers: u32) -> (out: (
        ConState,
        ConState,
        Vec<Effect>,
    ))
        requires
            old(self).wf(),
        ensures
            final(self).wf(),
            old(self).coherent() ==> final(self).coherent(),
            final(self).radio == old(self).radio,
            match old(self).state {
                State::Ready(r) => {
                    let new_state = con_state_of(
                        r.found_group,
                        r.should_broadcast,
                        r.should_scan,
                        active_peers,
                    );
                    &&& out.0 == r.con_state
                    &&& out.1 == new_state
                    &&& final(self).state == State::Ready(Ready { con_state: new_state, ..r })
                    &&& out.2@ == Self::change_told(r.con_state, new_state)
                },
                State::Uninitialized => {
                    &&& out.0 == ConState::Offline
                    &&& out.1 == ConState::Offline
                    &&& final(self).state == old(self).state
                    &&& out.2@ == Seq::<Effect>::empty()
                },
            },
    {
        let mut effects: Vec<Effect> = Vec::new();
        match &mut self.state {
            State::Ready(r) => {
                let new_state = derive_con_state(
                    r.found_group,
                    r.should_broadcast,
                    r.should_scan,
                    active_peers,
                );
                let old_state = r.con_state;
                if new_state != old_state {
                    r.con_state = new_state;
                    effects.push(Effect::EmitConState(new_state));
                }
                (old_state, new_state, effects)
            },
            State::Uninitialized => (ConState::Offline, ConState::Offline, effects),
        }
    }

    /// Turns scanner and broadcaster on, and derives the connection state.
    pub fn start_scanning(&mut self, active_peers: u32) -> (effects: Vec<Effect>)
        requires
            old(self).inv(),
        ensures
            final(self).inv(),
            old(self).state is Uninitialized ==> *final(self) == *old(self) && effects@
                == Seq::<Effect>::empty(),
            old(self).state matches State::Ready(r) ==> {
                let new_state = con_state_of(r.found_group, true, true, active_peers);
                &&& final(self).state == State::Ready(
                    Ready {
                        should_scan: true,
                        should_broadcast: true,
                        con_state: new_state,
                        ..r
                    },
                )
                &&& Self::is_broadcast(
                    r,
                    true,
                    if r.should_scan {
                        old(self).radio.scanning
                    } else {
                        true
                    },
                    final(self).radio,
                )
                &&& effects@ == (if r.should_scan {
                    Seq::<Effect>::empty()
                } else {
                    seq![Effect::StartScanning]
                }) + Self::broadcast_effects(r.found_group, true) + (if new_state != r.con_state {
                    seq![Effect::EmitConState(new_state)]
                } else {
                    Seq::<Effect>::empty()
                })
            },
    {
        let mut effects = self.update_scanning(true);
        let mut more = self.update_ble_broadcast(true);
        effects.append(&mut more);
        let (_, _, mut last) = self.calculate_and_update_con_state(active_peers);
        effects.append(&mut last);
        effects
    }

    /// Turns scanner and broadcaster off, and derives the connection state.
    pub fn cancel_connection_attempt(&mut self, active_peers: u32) -> (effects: Vec<Effect>)
        requires
            old(self).inv(),
        ensures
            final(self).inv(),
            old(self).state is Uninitialized ==> *final(self) == *old(self) && effects@
                == Seq::<Effect>::empty(),
            old(self).state matches State::Ready(r) ==> {
                let new_state = con_state_of(r.found_group, false, false, active_peers);
                &&& final(self).state == State::Ready(
                    Ready {
                        should_scan: false,
                        should_broadcast: false,
                        con_state: new_state,
                        ..r
                    },
                )
                &&& Self::is_broadcast(
                    r,
                    false,
                    if r.should_scan {
                        false
                    } else {
                        old(self).radio.scanning
                    },
                    final(self).radio,
                )
                &&& effects@ == (if r.should_scan {
                    seq![Effect::StopScanning]
                } else {
                    Seq::<Effect>::empty()
                }) + Self::broadcast_effects(r.found_group, false) + (if new_state != r.con_state {
                    seq![Effect::EmitConState(new_state)]
                } else {
                    Seq::<Effect>::empty()
                })
            },
    {
        let mut effects = self.update_scanning(false);
        let mut more = self.update_ble_broadcast(false);
        effects.append(&mut more);
        let (_, _, mut last) = self.calculate_and_update_con_state(active_peers);
        effects.append(&mut last);
        effects
    }
    /// The state after the check for a group.
    pub open spec fn found_checked(r: Ready, active_peers: u32) -> Ready {
        if r.group_is_found() {
            Ready {
                found_group: true,
                con_state: con_state_of(true, r.should_broadcast, r.should_scan, active_peers),
                should_scan: false,
                ..r
            }
        } else {
            Ready { found_group: false, ..r }
        }
    }

    /// What the check for a group makes the node do.
    pub open spec fn found_check_effects(r: Ready, active_peers: u32) -> Seq<Effect> {
        if r.group_is_found() {
            let new_state = con_state_of(true, r.should_broadcast, r.should_scan, active_peers);
            (if new_state != r.con_state {
                seq![Effect::EmitConState(new_state)]
            } else {
                Seq::<Effect>::empty()
            }) + seq![Effect::SetPeerState(PeerState::Settled)] + (if r.should_scan {
                seq![Effect::StopScanning]
            } else {
                Seq::<Effect>::empty()
            })
        } else {
            seq![Effect::SetPeerState(PeerState::Scanning)]
        }
    }

    /// Checks whether the document holds a group, that is more than one
    /// identity. With a group the node derives its connection state,
    /// advertises `Settled` and stops scanning; without one it advertises
    /// `Scanning`.
    pub fn check_if_found_group(&mut self, active_peers: u32) -> (effects: Vec<Effect>)
        requires
            old(self).wf(),
        ensures
            final(self).wf(),
            match old(self).state {
                State::Ready(r) => {
                    &&& final(self).state == State::Ready(Self::found_checked(r, active_peers))
                    &&& final(self).radio == (Radio {
                        peer_state: advertised(r.group_is_found()),
                        scanning: if r.group_is_found() && r.should_scan {
                            false
                        } else {
                            old(self).radio.scanning
                        },
                        ..old(self).radio
                    })
                    &&& effects@ == Self::found_check_effects(r, active_peers)
                },
                State::Uninitialized => *final(self) == *old(self) && effects@ == Seq::<
                    Effect,
                >::empty(),
            },
            old(self).state matches State::Ready(r) && old(self).radio.document_data@
                == r.doc_share.document_data@ && old(self).radio.scanning == r.should_scan && old(
                self,
            ).radio.broadcasting == r.should_broadcast ==> final(self).coherent(),
            old(self).coherent() ==> final(self).coherent(),
    {
        let mut effects: Vec<Effect> = Vec::new();
        let ghost before = *self;
        let found = match &mut self.state {
            State::Ready(r) => {
                if r.identities.identities_ref().len() > 1 {
                    r.found_group = true;
                    Some(true)
                } else {
                    r.found_group = false;
                    Some(false)
                }
            },
            State::Uninitialized => None,
        };
        match found {
            Some(true) => {
                let (_, _, mut first) = self.calculate_and_update_con_state(active_peers);
                effects.append(&mut first);
                self.radio.peer_state = PeerState::Settled;
                effects.push(Effect::SetPeerState(PeerState::Settled));
                let mut last = self.update_scanning(false);
                effects.append(&mut last);
                assert(effects@ =~= Self::found_check_effects(before.ready(), active_peers));
            },
            Some(false) => {
                self.radio.peer_state = PeerState::Scanning;
                effects.push(Effect::SetPeerState(PeerState::Scanning));
                assert(effects@ =~= Self::found_check_effects(before.ready(), active_peers));
            },
            None => {},
        }
        effects
    }

    /// The state on a document that was just opened: nothing is seen of it
    /// yet, no group is found, and its rows are not listened to. What the
    /// node last told its listeners of the connection, and whether it scans
    /// and broadcasts, is given: a change of document changes neither.
    pub open spec fn is_opened(
        r: Ready,
        doc_id: WideId,
        ticket: Ticket,
        con_state: ConState,
        should_scan: bool,
        should_broadcast: bool,
    ) -> bool {
        &&& r.doc_id == doc_id
        &&& r.con_state == con_state
        &&& r.doc_share == ticket
        &&& r.identities.rows() == Seq::<Identity>::empty()
        &&& r.identities.portraits() == Map::<PublicKey, BlobHash>::empty()
        &&& r.statuses@ == Map::<PublicKey, Status>::empty()
        &&& !r.found_group
        &&& r.should_scan == should_scan
        &&& r.should_broadcast == should_broadcast
        &&& r.ble_peers@ == Map::<u128, PeerData>::empty()
        &&& r.messages@ == Seq::<Post>::empty()
        &&& !r.listening
    }

    /// The state on the first document of a service: nothing seen yet, all
    /// flags off, the node offline.
    pub open spec fn is_fresh(r: Ready, doc_id: WideId, ticket: Ticket) -> bool {
        Self::is_opened(r, doc_id, ticket, ConState::Offline, false, false)
    }

    /// The state that follows `before` when the document `doc_id` takes the
    /// place of the active one. A service without a document starts afresh.
    pub open spec fn is_rotated(before: State, r: Ready, doc_id: WideId, ticket: Ticket) -> bool {
        match before {
            State::Ready(b) => Self::is_opened(
                r,
                doc_id,
                ticket,
                b.con_state,
                b.should_scan,
                b.should_broadcast,
            ),
            State::Uninitialized => Self::is_fresh(r, doc_id, ticket),
        }
    }

    fn opened(
        doc_id: WideId,
        ticket: Ticket,
        con_state: ConState,
        should_scan: bool,
        should_broadcast: bool,
    ) -> (r: Ready)
        ensures
            r.wf(),
            Self::is_opened(r, doc_id, ticket, con_state, should_scan, should_broadcast),
    {
        Ready {
            doc_id,
            con_state,
            doc_share: ticket,
            identities: IdentityDomain::new(),
            statuses: WideMap::new(),
            found_group: false,
            should_scan,
            should_broadcast,
            ble_peers: HashMap::new(),
            messages: PostDomain::new(),
            listening: false,
        }
    }

    /// What opening a document makes the node do: advertise it, as a
    /// scanner, and write the local author's rows onto it.
    pub open spec fn open_effects() -> Seq<Effect> {
        seq![
            Effect::SetDocumentData,
            Effect::SetPeerState(PeerState::Scanning),
            Effect::PutSelfOnDoc,
        ]
    }

    fn open(&mut self, doc_id: WideId, ticket: Ticket) -> (effects: Vec<Effect>)
        requires
            old(self).inv(),
        ensures
            final(self).inv(),
            final(self).state matches State::Ready(r) && Self::is_rotated(
                old(self).state,
                r,
                doc_id,
                ticket,
            ),
            final(self).radio.document_data@ == ticket.document_data@,
            final(self).radio.peer_state == PeerState::Scanning,
            final(self).radio.address_data == old(self).radio.address_data,
            final(self).radio.broadcasting == old(self).radio.broadcasting,
            final(self).radio.scanning == old(self).radio.scanning,
            effects@ == Self::open_effects(),
    {
        let document = ticket.document_data.clone();
        assert(document@ =~= ticket.document_data@);
        let (con_state, should_scan, should_broadcast) = match &self.state {
            State::Ready(r) => (r.con_state, r.should_scan, r.should_broadcast),
            State::Uninitialized => (ConState::Offline, false, false),
        };
        self.state = State::Ready(
            Self::opened(doc_id, ticket, con_state, should_scan, should_broadcast),
        );
        self.radio.document_data = document;
        self.radio.peer_state = PeerState::Scanning;
        let mut effects: Vec<Effect> = Vec::new();
        effects.push(Effect::SetDocumentData);
        effects.push(Effect::SetPeerState(PeerState::Scanning));
        effects.push(Effect::PutSelfOnDoc);
        assert(effects@ =~= Self::open_effects());
        effects
    }

    /// Takes the first document of a service that has none: the radio is
    /// told to advertise it and not to broadcast, and the load of the
    /// document begins. The caller goes on with `load_doc`. A service that
    /// has a document already refuses, and stays as it is.
    pub fn initialize(&mut self, doc_id: WideId, ticket: Ticket) -> (out: Result<
        Vec<Effect>,
        ServiceError,
    >)
        requires
            old(self).inv(),
        ensures
            final(self).inv(),
            match old(self).state {
                State::Uninitialized => {
                    &&& out matches Ok(effects) && effects@ == Self::broadcast_effects(false, false)
                        + Self::open_effects()
                    &&& final(self).state matches State::Ready(r) && Self::is_fresh(
                        r,
                        doc_id,
                        ticket,
                    )
                    &&& final(self).radio.document_data@ == ticket.document_data@
                    &&& final(self).radio.address_data@ == ticket.address_data@
                    &&& final(self).radio.peer_state == PeerState::Scanning
                    &&& !final(self).radio.broadcasting
                    &&& !final(self).radio.scanning
                },
                State::Ready(_) => {
                    &&& out == Err::<Vec<Effect>, ServiceError>(ServiceError::AlreadyInitialized)
                    &&& *final(self) == *old(self)
                },
            },
    {
        let ready = match &self.state {
            State::Ready(_) => true,
            State::Uninitialized => false,
        };
        if ready {
            return Err(ServiceError::AlreadyInitialized);
        }
        let mut first = self.open(doc_id, ticket);
        let mut effects = self.update_ble_broadcast(false);
        effects.append(&mut first);
        Ok(effects)
    }

    /// Replaces the active document by another: the old rows are no longer
    /// listened to, all that was kept on the old document is dropped, and
    /// the load of the new document begins. The caller goes on with
    /// `load_doc`.
    ///
    /// The radio is not told to start or stop anything, so the node goes on
    /// to scan and to broadcast as it did, and the flags say so. The
    /// connection state stays what the listeners were last told: the next
    /// `calculate_and_update_con_state` tells them where the new document
    /// changes it.
    pub fn rotate(&mut self, doc_id: WideId, ticket: Ticket) -> (effects: Vec<Effect>)
        requires
            old(self).inv(),
        ensures
            final(self).inv(),
            final(self).state matches State::Ready(r) && Self::is_rotated(
                old(self).state,
                r,
                doc_id,
                ticket,
            ),
            final(self).radio.document_data@ == ticket.document_data@,
            final(self).radio.peer_state == PeerState::Scanning,
            final(self).radio.address_data == old(self).radio.address_data,
            final(self).radio.broadcasting == old(self).radio.broadcasting,
            final(self).radio.scanning == old(self).radio.scanning,
            effects@ == (if old(self).is_ready() && old(self).ready().listening {
                seq![Effect::StopSubscription]
            } else {
                Seq::<Effect>::empty()
            }) + Self::open_effects(),
    {
        let mut effects: Vec<Effect> = Vec::new();
        let was_listening = match &self.state {
            State::Ready(r) => r.listening,
            State::Uninitialized => false,
        };
        if was_listening {
            effects.push(Effect::StopSubscription);
        }
        let mut rest = self.open(doc_id, ticket);
        effects.append(&mut rest);
        effects
    }

    /// Leaving a group ends offline, and the listeners are told so. Let a
    /// node leave its group (`leave_group` on `before`), let a fresh
    /// document take the place of the old one (`rotate`), and let it be
    /// loaded with at most one identity, that of the node itself
    /// (`load_doc`). Then the connection state derived next is `Offline`,
    /// whatever the number of live peers, and the listeners are told so
    /// unless `Offline` is what they were told last.
    pub proof fn law_leaving_ends_offline(
        before: Ready,
        opened: Ready,
        loaded: Ready,
        doc_id: WideId,
        ticket: Ticket,
        identities: Seq<Identity>,
        pics: Seq<(PublicKey, BlobHash)>,
        posts: Seq<Post>,
        statuses: Seq<(PublicKey, Status)>,
        active_peers: u32,
        live_peers: u32,
    )
        requires
            Self::is_rotated(
                State::Ready(
                    Ready { should_scan: false, should_broadcast: false, listening: false, ..before },
                ),
                opened,
                doc_id,
                ticket,
            ),
            Self::is_loaded(opened, loaded, identities, pics, posts, statuses),
            upserted_all(Seq::empty(), identities).len() <= 1,
        ensures
            ({
                let end = Self::found_checked(loaded, active_peers);
                let now = con_state_of(
                    end.found_group,
                    end.should_broadcast,
                    end.should_scan,
                    live_peers,
                );
                &&& now == ConState::Offline
                &&& Self::change_told(end.con_state, now) == if before.con_state
                    != ConState::Offline {
                    seq![Effect::EmitConState(ConState::Offline)]
                } else {
                    Seq::<Effect>::empty()
                }
            }),
    {
    }

    /// The statuses after the rows of `rows` came in, in turn: for each row,
    /// its author and the status.
    pub open spec fn with_statuses(
        statuses: Map<PublicKey, Status>,
        rows: Seq<(PublicKey, Status)>,
    ) -> Map<PublicKey, Status>
        decreases rows.len(),
    {
        if rows.len() == 0 {
            statuses
        } else {
            Self::with_statuses(statuses, rows.drop_last()).insert(rows.last().0, rows.last().1)
        }
    }

    /// The state once the rows of the document have been read into it.
    pub open spec fn is_loaded(
        before: Ready,
        after: Ready,
        identities: Seq<Identity>,
        pics: Seq<(PublicKey, BlobHash)>,
        posts: Seq<Post>,
        statuses: Seq<(PublicKey, Status)>,
    ) -> bool {
        &&& after.doc_id == before.doc_id
        &&& after.con_state == before.con_state
        &&& after.doc_share == before.doc_share
        &&& after.identities.rows() == upserted_all(Seq::empty(), identities)
        &&& after.identities.portraits() == IdentityDomain::with_pics(Map::empty(), pics)
        &&& after.statuses@ == Self::with_statuses(Map::empty(), statuses)
        &&& !after.found_group
        &&& after.should_scan == before.should_scan
        &&& after.should_broadcast == before.should_broadcast
        &&& after.ble_peers == before.ble_peers
        &&& after.messages@ == posts
        &&& after.listening
        &&& after.wf()
    }

    /// What the load of a document makes the node do, once its rows are
    /// read: the document is remembered; its rows are listened to, unless
    /// they are already; the check for a group runs on what was read; and
    /// the listeners are told the document, the profiles and the messages.
    pub open spec fn load_effects(before: Ready, loaded: Ready, active_peers: u32) -> Seq<Effect> {
        seq![Effect::RememberDoc(before.doc_id)] + (if before.listening {
            Seq::<Effect>::empty()
        } else {
            seq![Effect::Subscribe]
        }) + Self::found_check_effects(loaded, active_peers) + seq![
            Effect::EmitDocData(DocData { doc_id: before.doc_id }),
            Effect::EmitIdentities,
            Effect::EmitAllMessages,
        ]
    }

    /// The load can be repeated: a second load of the same rows leaves the
    /// identities, the portraits, the statuses, the posts, the finding of a
    /// group and the document as the first load left them, and asks for no
    /// second listener.
    pub proof fn law_load_can_be_repeated(
        before: Ready,
        first: Ready,
        second: Ready,
        identities: Seq<Identity>,
        pics: Seq<(PublicKey, BlobHash)>,
        posts: Seq<Post>,
        statuses: Seq<(PublicKey, Status)>,
        active_peers: u32,
    )
        requires
            Self::is_loaded(before, first, identities, pics, posts, statuses),
            Self::is_loaded(
                Self::found_checked(first, active_peers),
                second,
                identities,
                pics,
                posts,
                statuses,
            ),
        ensures
            ({
                let once = Self::found_checked(first, active_peers);
                let twice = Self::found_checked(second, active_peers);
                &&& twice.doc_id == once.doc_id
                &&& twice.doc_share == once.doc_share
                &&& twice.identities.rows() == once.identities.rows()
                &&& twice.identities.portraits() == once.identities.portraits()
                &&& twice.statuses@ == once.statuses@
                &&& twice.messages@ == once.messages@
                &&& twice.found_group == once.found_group
                &&& twice.listening && once.listening
                &&& !Self::load_effects(once, second, active_peers).contains(Effect::Subscribe)
            }),
    {
        let once = Self::found_checked(first, active_peers);
        let effects = Self::load_effects(once, second, active_peers);
        let check = Self::found_check_effects(second, active_peers);
        assert(!check.contains(Effect::Subscribe)) by {
            if check.contains(Effect::Subscribe) {
                let i = choose|i: int| 0 <= i < check.len() && check[i] == Effect::Subscribe;
            }
        }
        if effects.contains(Effect::Subscribe) {
            let i = choose|i: int| 0 <= i < effects.len() && effects[i] == Effect::Subscribe;
            if 1 <= i < 1 + check.len() {
                assert(check[i - 1] == Effect::Subscribe);
            }
        }
    }

    /// Ends the load of the active document. The caller has carried out what
    /// `initialize` or `rotate` asked for, and then read the rows of the
    /// document: the identities, the portraits with their authors, the posts
    /// in the order of their keys, and the statuses with their authors. The
    /// domains take them in place of what they held, the identities one by
    /// one so that each author has one row; then follows what `load_effects`
    /// says. A service without a document refuses, and stays as it is.
    pub fn load_doc(
        &mut self,
        identities: Vec<Identity>,
        pics: Vec<(PublicKey, BlobHash)>,
        posts: Vec<Post>,
        statuses: Vec<(PublicKey, Status)>,
        active_peers: u32,
    ) -> (out: Result<Vec<Effect>, ServiceError>)
        requires
            old(self).inv(),
        ensures
            final(self).inv(),
            match old(self).state {
                State::Uninitialized => {
                    &&& out == Err::<Vec<Effect>, ServiceError>(ServiceError::NoDocument)
                    &&& *final(self) == *old(self)
                },
                State::Ready(before) => {
                    &&& exists|loaded: Ready|
                        {
                            &&& Self::is_loaded(
                                before,
                                loaded,
                                identities@,
                                pics@,
                                posts@,
                                statuses@,
                            )
                            &&& final(self).state == State::Ready(
                                Self::found_checked(loaded, active_peers),
                            )
                            &&& out matches Ok(effects) && effects@ == Self::load_effects(
                                before,
                                loaded,
                                active_peers,
                            )
                        }
                    &&& final(self).radio == (Radio {
                        peer_state: advertised(final(self).ready().found_group),
                        scanning: if final(self).ready().found_group && before.should_scan {
                            false
                        } else {
                            old(self).radio.scanning
                        },
                        ..old(self).radio
                    })
                },
            },
    {
        let ready = match &self.state {
            State::Ready(_) => true,
            State::Uninitialized => false,
        };
        if !ready {
            return Err(ServiceError::NoDocument);
        }
        let mut effects: Vec<Effect> = Vec::new();
        let ghost before = self.ready();
        let mut taken: WideMap<Status> = WideMap::new();
        let mut i: usize = 0;
        assert(statuses@.take(0) =~= Seq::<(PublicKey, Status)>::empty());
        while i < statuses.len()
            invariant
                i <= statuses.len(),
                taken.wf(),
                taken@ == Self::with_statuses(Map::empty(), statuses@.take(i as int)),
            decreases statuses.len() - i,
        {
            proof {
                assert(statuses@.take(i + 1).drop_last() =~= statuses@.take(i as int));
            }
            taken.insert(statuses[i].0, statuses[i].1.clone());
            i += 1;
        }
        assert(statuses@.take(statuses.len() as int) =~= statuses@);
        let mut doc_id = WideId::from_bytes([0u8; 32]);
        let mut was_listening = false;
        match &mut self.state {
            State::Ready(r) => {
                r.found_group = false;
                r.messages.initialize(posts);
                r.identities.initialize(identities, pics);
                r.statuses = taken;
                was_listening = r.listening;
                r.listening = true;
                doc_id = r.doc_id;
            },
            State::Uninitialized => {},
        }
        let ghost loaded = self.ready();
        assert(Self::is_loaded(before, loaded, identities@, pics@, posts@, statuses@));
        effects.push(Effect::RememberDoc(doc_id));
        if !was_listening {
            effects.push(Effect::Subscribe);
        }
        let mut check = self.check_if_found_group(active_peers);
        effects.append(&mut check);
        effects.push(Effect::EmitDocData(DocData { doc_id }));
        effects.push(Effect::EmitIdentities);
        effects.push(Effect::EmitAllMessages);
        assert(effects@ =~= Self::load_effects(before, loaded, active_peers));
        Ok(effects)
    }

    /// `after` is `before` but for the table of radio peers.
    pub open spec fn same_but_peers(before: Ready, after: Ready) -> bool {
        &&& after.doc_id == before.doc_id
        &&& after.con_state == before.con_state
        &&& after.doc_share == before.doc_share
        &&& after.identities == before.identities
        &&& after.statuses == before.statuses
        &&& after.found_group == before.found_group
        &&& after.should_scan == before.should_scan
        &&& after.should_broadcast == before.should_broadcast
        &&& after.messages == before.messages
        &&& after.listening == before.listening
    }

    /// Takes in what the radio saw of a peer, in place of what was known of
    /// it. Says whether the peers are to be evaluated, once the burst of
    /// advertisements has passed: they are, unless a group is found already.
    pub fn peer_discovered(&mut self, uuid: UUID, data: PeerData) -> (evaluate: bool)
        requires
            old(self).inv(),
        ensures
            final(self).inv(),
            final(self).radio == old(self).radio,
            match old(self).state {
                State::Ready(r) => {
                    &&& final(self).is_ready()
                    &&& Self::same_but_peers(r, final(self).ready())
                    &&& final(self).ready().ble_peers@ == r.ble_peers@.insert(uuid.number(), data)
                    &&& evaluate == !r.found_group
                },
                State::Uninitialized => *final(self) == *old(self) && !evaluate,
            },
    {
        match &mut self.state {
            State::Ready(r) => {
                r.ble_peers.insert(uuid.as_u128(), data);
                !r.found_group
            },
            State::Uninitialized => false,
        }
    }

    /// Runs the rendezvous selector on the peers that the radio has seen.
    /// The node stays where the choice is its own document. Otherwise it is
    /// to join the chosen document, at the nodes that the peers which
    /// advertise it name in their addresses; where the bytes of the
    /// capability or of an address cannot be read, it stays too.
    pub fn evaluate_peers_for_connection(&self) -> (decision: JoinDecision)
        ensures
            self.state is Uninitialized ==> decision is Stay,
            self.state matches State::Ready(r) ==> (decision is Stay <==> best_doc(
                r.doc_share.document_data@,
                r.ble_peers@,
            ) == r.doc_share.document_data@),
            self.state matches State::Ready(r) ==> (decision matches JoinDecision::Join {
                document_data,
                namespace,
                addresses,
                nodes,
            } ==> {
                &&& document_data@ == best_doc(r.doc_share.document_data@, r.ble_peers@)
                &&& exists|keys: Seq<u128>|
                    is_address_collation(r.ble_peers@, document_data@, keys, addresses@)
                &&& spec_capability_namespace(document_data@) == Some(namespace.bytes())
                &&& collated(views_of(addresses@)) == Some(views_of(nodes@))
            }),
            self.state matches State::Ready(r) ==> (decision matches JoinDecision::Unreadable {
                document_data,
                addresses,
            } ==> {
                &&& document_data@ == best_doc(r.doc_share.document_data@, r.ble_peers@)
                &&& exists|keys: Seq<u128>|
                    is_address_collation(r.ble_peers@, document_data@, keys, addresses@)
                &&& !is_joinable(document_data@, views_of(addresses@))
            }),
    {
        match &self.state {
            State::Ready(r) => {
                let best_new_doc = find_best_doc_from_peers(
                    &r.doc_share.document_data,
                    &r.ble_peers,
                );
                if doc_eq(&best_new_doc, &r.doc_share.document_data) {
                    JoinDecision::Stay
                } else {
                    let addresses = collect_addrs_in_table(&best_new_doc, &r.ble_peers);
                    let ghost keys = choose|keys: Seq<u128>|
                        is_address_collation(r.ble_peers@, best_new_doc@, keys, addresses@);
                    let decision = decide_join(best_new_doc, addresses);
                    proof {
                        if decision is Join {
                            assert(is_address_collation(
                                r.ble_peers@,
                                decision->Join_document_data@,
                                keys,
                                decision->Join_addresses@,
                            ));
                        } else if decision is Unreadable {
                            assert(is_address_collation(
                                r.ble_peers@,
                                decision->Unreadable_document_data@,
                                keys,
                                decision->Unreadable_addresses@,
                            ));
                        }
                    }
                    decision
                }
            },
            State::Uninitialized => JoinDecision::Stay,
        }
    }

    /// Leaves the group: scanner and broadcaster go off, the rows of the
    /// document are no longer listened to, and a fresh document is asked
    /// for. The caller creates it and goes on with `rotate`, `load_doc`
    /// and `calculate_and_update_con_state`.
    pub fn leave_group(&mut self) -> (effects: Vec<Effect>)
        requires
            old(self).inv(),
        ensures
            final(self).inv(),
            old(self).state is Uninitialized ==> *final(self) == *old(self) && effects@
                == Seq::<Effect>::empty(),
            old(self).state matches State::Ready(r) ==> {
                &&& final(self).state == State::Ready(
                    Ready { should_scan: false, should_broadcast: false, listening: false, ..r },
                )
                &&& Self::is_broadcast(
                    r,
                    false,
                    if r.should_scan {
                        false
                    } else {
                        old(self).radio.scanning
                    },
                    final(self).radio,
                )
                &&& effects@ == (if r.should_scan {
                    seq![Effect::StopScanning]
                } else {
                    Seq::<Effect>::empty()
                }) + Self::broadcast_effects(r.found_group, false) + seq![
                    Effect::StopSubscription,
                    Effect::CreateDoc,
                ]
            },
    {
        let mut effects = self.update_scanning(false);
        let mut more = self.update_ble_broadcast(false);
        effects.append(&mut more);
        match &mut self.state {
            State::Ready(r) => {
                r.listening = false;
                effects.push(Effect::StopSubscription);
                effects.push(Effect::CreateDoc);
            },
            State::Uninitialized => {},
        }
        effects
    }

    /// What follows a check of the connection state in the periodic loop.
    /// Where the node went from connected to reconnecting, it broadcasts
    /// again and starts a sync with the peers it knows.
    pub fn after_con_state_check(&mut self, old_state: ConState, new_state: ConState) -> (effects:
        Vec<Effect>)
        requires
            old(self).inv(),
        ensures
            final(self).inv(),
            if old_state is Connected && new_state == ConState::Reconnecting {
                match old(self).state {
                    State::Ready(r) => {
                        &&& final(self).state == State::Ready(Ready { should_broadcast: true, ..r })
                        &&& Self::is_broadcast(r, true, old(self).radio.scanning, final(self).radio)
                        &&& effects@ == Self::broadcast_effects(r.found_group, true) + seq![
                            Effect::StartSync,
                        ]
                    },
                    State::Uninitialized => *final(self) == *old(self) && effects@ == Seq::<
                        Effect,
                    >::empty(),
                }
            } else {
                *final(self) == *old(self) && effects@ == Seq::<Effect>::empty()
            },
    {
        let reconnect = match (old_state, new_state) {
            (ConState::Connected(_), ConState::Reconnecting) => true,
            _ => false,
        };
        if reconnect {
            let mut effects = self.update_ble_broadcast(true);
            match &self.state {
                State::Ready(_) => {
                    effects.push(Effect::StartSync);
                },
                State::Uninitialized => {},
            }
            effects
        } else {
            Vec::new()
        }
    }

    /// `after` is `before` but for what a row of the document can change:
    /// the domains, the statuses, and what follows from a new identity.
    pub open spec fn same_frame(before: Ready, after: Ready) -> bool {
        &&& after.doc_id == before.doc_id
        &&& after.doc_share == before.doc_share
        &&& after.should_broadcast == before.should_broadcast
        &&& after.ble_peers == before.ble_peers
        &&& after.listening == before.listening
    }

    /// `after` is `before` but for the domains and the statuses.
    pub open spec fn same_flags(before: Ready, after: Ready) -> bool {
        &&& Self::same_frame(before, after)
        &&& after.con_state == before.con_state
        &&& after.found_group == before.found_group
        &&& after.should_scan == before.should_scan
    }

    /// Takes in the status of an author, and has the listeners told the
    /// profiles.
    pub fn status_update(&mut self, pk: PublicKey, status: Status) -> (effects: Vec<Effect>)
        requires
            old(self).inv(),
        ensures
            final(self).inv(),
            final(self).radio == old(self).radio,
            effects@ == seq![Effect::EmitIdentities],
            match old(self).state {
                State::Ready(r) => {
                    &&& final(self).is_ready()
                    &&& Self::same_flags(r, final(self).ready())
                    &&& final(self).ready().identities == r.identities
                    &&& final(self).ready().messages == r.messages
                    &&& final(self).ready().statuses@ == r.statuses@.insert(pk, status)
                },
                State::Uninitialized => final(self).state is Uninitialized,
            },
    {
        match &mut self.state {
            State::Ready(r) => {
                r.statuses.insert(pk, status);
            },
            State::Uninitialized => {},
        }
        let mut effects: Vec<Effect> = Vec::new();
        effects.push(Effect::EmitIdentities);
        effects
    }

    /// Takes in a row of the active document that was passed on. The
    /// caller has read the content that the row points to, where the kind of
    /// its key calls for that, and hands it over; a row whose content is not
    /// of the kind of its key is passed over.
    ///
    /// A status is kept for its author; a bio is only announced; an identity
    /// is put in place of the one held for its author, or added, and then the
    /// check for a group runs; a portrait is kept for its author; a post
    /// goes into the list of posts.
    pub fn handle_insert_entry(
        &mut self,
        e: &InsertEntry,
        content: RowContent,
        active_peers: u32,
    ) -> (effects: Vec<Effect>)
        requires
            old(self).inv(),
        ensures
            final(self).inv(),
            old(self).state is Uninitialized ==> *final(self) == *old(self) && effects@
                == Seq::<Effect>::empty(),
            old(self).state matches State::Ready(r) ==> final(self).is_ready() && Self::same_frame(
                r,
                final(self).ready(),
            ) && Self::is_after_row(
                r,
                final(self).ready(),
                *e,
                content,
                active_peers,
                effects@,
            ),
            old(self).state matches State::Ready(r) ==> final(self).radio == (Radio {
                peer_state: advertised(final(self).ready().found_group),
                scanning: if r.should_scan && !final(self).ready().should_scan {
                    false
                } else {
                    old(self).radio.scanning
                },
                ..old(self).radio
            }),
    {
        let mut effects: Vec<Effect> = Vec::new();
        let kind = classify_key(e.entry.key.as_slice());
        let author = e.entry.author;
        let ghost before = self.ready();
        match &mut self.state {
            State::Ready(r) => {
                match (kind, content) {
                    (KeyKind::Status, RowContent::Status(status)) => {
                        r.statuses.insert(author, status);
                        effects.push(Effect::EmitIdentities);
                        assert(effects@ =~= seq![Effect::EmitIdentities]);
                    },
                    (KeyKind::Bio, _) => {
                        effects.push(Effect::EmitBio(author));
                        assert(effects@ =~= seq![Effect::EmitBio(author)]);
                    },
                    (KeyKind::Identity, RowContent::Identity(identity)) => {
                        proof {
                            lemma_first_of(r.identities.rows(), identity.pk);
                        }
                        let added_new = r.identities.identity_updated(identity);
                        if added_new {
                            let ghost mid = self.ready();
                            assert(mid == (Ready { identities: mid.identities, ..before }));
                            let mut check = self.check_if_found_group(active_peers);
                            effects.append(&mut check);
                            effects.push(Effect::EmitIdentities);
                            assert(effects@ =~= Self::found_check_effects(mid, active_peers)
                                + seq![Effect::EmitIdentities]);
                            assert(self.ready().identities == mid.identities);
                            assert(self.ready() == Self::found_checked(
                                Ready { identities: self.ready().identities, ..before },
                                active_peers,
                            ));
                        } else {
                            effects.push(Effect::EmitIdentities);
                            assert(effects@ =~= seq![Effect::EmitIdentities]);
                        }
                    },
                    (KeyKind::IdPic, _) => {
                        r.identities.id_pic_updated(author, e.entry.content_hash);
                        effects.push(Effect::EmitIdentities);
                        assert(effects@ =~= seq![Effect::EmitIdentities]);
                    },
                    (KeyKind::Message, RowContent::Post(post)) => {
                        match r.messages.insert_post(post) {
                            PostUpdate::AllPosts(_) => {
                                effects.push(Effect::EmitAllMessages);
                                assert(effects@ =~= seq![Effect::EmitAllMessages]);
                            },
                            PostUpdate::OnePost(count, _) => {
                                effects.push(Effect::EmitOneMessage(count));
                                assert(effects@ =~= seq![Effect::EmitOneMessage(count)]);
                            },
                        }
                    },
                    _ => {},
                }
            },
            State::Uninitialized => {},
        }
        effects
    }

    /// What a row of the document changes, and what it makes the node do.
    pub open spec fn is_after_row(
        before: Ready,
        after: Ready,
        e: InsertEntry,
        content: RowContent,
        active_peers: u32,
        effects: Seq<Effect>,
    ) -> bool {
        match (kind_of_key(e.entry.key@), content) {
            (KeyKind::Status, RowContent::Status(status)) => {
                &&& Self::same_flags(before, after)
                &&& after.identities == before.identities
                &&& after.messages == before.messages
                &&& after.statuses@ == before.statuses@.insert(e.entry.author, status)
                &&& effects == seq![Effect::EmitIdentities]
            },
            (KeyKind::Bio, _) => {
                &&& after == before
                &&& effects == seq![Effect::EmitBio(e.entry.author)]
            },
            (KeyKind::Identity, RowContent::Identity(identity)) => {
                let added_new = !has_pk(before.identities.rows(), identity.pk);
                &&& after.identities.rows() == upserted(before.identities.rows(), identity)
                &&& after.identities.portraits() == before.identities.portraits()
                &&& after.statuses == before.statuses
                &&& after.messages == before.messages
                &&& if added_new {
                    let mid = Ready { identities: after.identities, ..before };
                    &&& after == Self::found_checked(mid, active_peers)
                    &&& effects == Self::found_check_effects(mid, active_peers) + seq![
                        Effect::EmitIdentities,
                    ]
                } else {
                    &&& Self::same_flags(before, after)
                    &&& effects == seq![Effect::EmitIdentities]
                }
            },
            (KeyKind::IdPic, _) => {
                &&& Self::same_flags(before, after)
                &&& after.identities.rows() == before.identities.rows()
                &&& after.identities.portraits() == before.identities.portraits().insert(
                    e.entry.author,
                    e.entry.content_hash,
                )
                &&& after.statuses == before.statuses
                &&& after.messages == before.messages
                &&& effects == seq![Effect::EmitIdentities]
            },
            (KeyKind::Message, RowContent::Post(post)) => {
                &&& Self::same_flags(before, after)
                &&& after.identities == before.identities
                &&& after.statuses == before.statuses
                &&& after.messages@ == with_post(before.messages@, post)
                &&& effects == if is_out_of_order(before.messages@, post) {
                    seq![Effect::EmitAllMessages]
                } else {
                    seq![Effect::EmitOneMessage(after.messages@.len() as usize)]
                }
            },
            _ => after == before && effects == Seq::<Effect>::empty(),
        }
    }
}

/// What the nearby service tells its listeners.
#[derive(Debug)]
pub enum NearbyServiceEvents {
    IdentitiesUpdated(Vec<NearbyProfile>),
    BroadcastingUpdated(bool),
    DocDataUpdated(DocData),
    AllMessagesUpdated(Vec<DisplayMessage>),
    ReceivedOneNewMessage(DisplayMessage),
    BioUpdated(PublicKey),
    ConStateUpdated(ConState),
}

fn copy_profiles(list: &Vec<NearbyProfile>) -> (copy: Vec<NearbyProfile>)
    ensures
        copy@ == list@,
{
    let mut copy: Vec<NearbyProfile> = Vec::new();
    let mut i: usize = 0;
    while i < list.len()
        invariant
            i <= list.len(),
            copy@ == list@.take(i as int),
        decreases list.len() - i,
    {
        copy.push(list[i].clone());
        assert(list@.take(i + 1) =~= list@.take(i as int).push(list[i as int]));
        i += 1;
    }
    assert(list@.take(list.len() as int) =~= list@);
    copy
}

fn copy_messages(list: &Vec<DisplayMessage>) -> (copy: Vec<DisplayMessage>)
    ensures
        copy@ == list@,
{
    let mut copy: Vec<DisplayMessage> = Vec::new();
    let mut i: usize = 0;
    while i < list.len()
        invariant
            i <= list.len(),
            copy@ == list@.take(i as int),
        decreases list.len() - i,
    {
        copy.push(list[i].clone());
        assert(list@.take(i + 1) =~= list@.take(i as int).push(list[i as int]));
        i += 1;
    }
    assert(list@.take(list.len() as int) =~= list@);
    copy
}

impl Clone for NearbyServiceEvents {
    fn clone(&self) -> (copy: Self)
        ensures
            match (*self, copy) {
                (
                    NearbyServiceEvents::IdentitiesUpdated(a),
                    NearbyServiceEvents::IdentitiesUpdated(b),
                ) => a@ == b@,
                (
                    NearbyServiceEvents::AllMessagesUpdated(a),
                    NearbyServiceEvents::AllMessagesUpdated(b),
                ) => a@ == b@,
                (a, b) => a == b,
            },
    {
        match self {
            NearbyServiceEvents::IdentitiesUpdated(list) => NearbyServiceEvents::IdentitiesUpdated(
                copy_profiles(list),
            ),
            NearbyServiceEvents::BroadcastingUpdated(on) => NearbyServiceEvents::BroadcastingUpdated(
                *on,
            ),
            NearbyServiceEvents::DocDataUpdated(data) => NearbyServiceEvents::DocDataUpdated(*data),
            NearbyServiceEvents::AllMessagesUpdated(list) => NearbyServiceEvents::AllMessagesUpdated(
                copy_messages(list),
            ),
            NearbyServiceEvents::ReceivedOneNewMessage(shown) => {
                NearbyServiceEvents::ReceivedOneNewMessage(shown.clone())
            },
            NearbyServiceEvents::BioUpdated(pk) => NearbyServiceEvents::BioUpdated(*pk),
            NearbyServiceEvents::ConStateUpdated(state) => NearbyServiceEvents::ConStateUpdated(
                *state,
            ),
        }
    }
}

/// An order for the broadcaster of the platform.
#[derive(Debug)]
pub enum RadioOrder {
    SetPeerState(u8),
    SetDocumentData(Vec<u8>),
    SetAddressData(Vec<u8>),
    Start,
    Stop,
}

/// Whether an effect is an order for the broadcaster.
pub open spec fn is_for_broadcaster(effect: Effect) -> bool {
    match effect {
        Effect::SetPeerState(_) | Effect::SetDocumentData | Effect::SetAddressData
        | Effect::StartBroadcast | Effect::StopBroadcast => true,
        _ => false,
    }
}

/// The order that an effect is for the broadcaster, with the bytes of the
/// ticket of the active document where the order carries bytes. An effect
/// of another kind is no order.
pub fn radio_order(effect: Effect, ticket: &Ticket) -> (order: Option<RadioOrder>)
    ensures
        match effect {
            Effect::SetPeerState(state) => order matches Some(RadioOrder::SetPeerState(byte))
                && byte == state.byte(),
            Effect::SetDocumentData => order matches Some(RadioOrder::SetDocumentData(bytes))
                && bytes@ == ticket.document_data@,
            Effect::SetAddressData => order matches Some(RadioOrder::SetAddressData(bytes))
                && bytes@ == ticket.address_data@,
            Effect::StartBroadcast => order matches Some(RadioOrder::Start),
            Effect::StopBroadcast => order matches Some(RadioOrder::Stop),
            _ => order is None,
        },
{
    match effect {
        Effect::SetPeerState(state) => Some(RadioOrder::SetPeerState(u8::from(state))),
        Effect::SetDocumentData => {
            let bytes = ticket.document_data.clone();
            assert(bytes@ =~= ticket.document_data@);
            Some(RadioOrder::SetDocumentData(bytes))
        },
        Effect::SetAddressData => {
            let bytes = ticket.address_data.clone();
            assert(bytes@ =~= ticket.address_data@);
            Some(RadioOrder::SetAddressData(bytes))
        },
        Effect::StartBroadcast => Some(RadioOrder::Start),
        Effect::StopBroadcast => Some(RadioOrder::Stop),
        _ => None,
    }
}

/// Carries out an effect that is an order for the broadcaster: the
/// broadcaster is told what `radio_order` makes of the effect. Says whether
/// the effect was such an order.
pub fn tell_broadcaster<B: BLEGossipBroadcaster>(
    effect: Effect,
    ticket: &Ticket,
    broadcaster: &B,
) -> (told: bool)
    ensures
        told == is_for_broadcaster(effect),
{
    match radio_order(effect, ticket) {
        Some(RadioOrder::SetPeerState(byte)) => {
            broadcaster.set_peer_state(byte);
            true
        },
        Some(RadioOrder::SetDocumentData(bytes)) => {
            broadcaster.set_document_data(bytes);
            true
        },
        Some(RadioOrder::SetAddressData(bytes)) => {
            broadcaster.set_address_data(bytes);
            true
        },
        Some(RadioOrder::Start) => {
            broadcaster.start();
            true
        },
        Some(RadioOrder::Stop) => {
            broadcaster.stop();
            true
        },
        None => false,
    }
}

/// Carries out an effect that is an order for the scanner, and says
/// whether the effect was one.
pub fn tell_scanner<S: BLEGossipScanner>(effect: Effect, scanner: &S) -> (told: bool)
    ensures
        told == (effect == Effect::StartScanning || effect == Effect::StopScanning),
{
    match effect {
        Effect::StartScanning => {
            scanner.start_scanning();
            true
        },
        Effect::StopScanning => {
            scanner.stop_scanning();
            true
        },
        _ => false,
    }
}

/// How long the periodic loop waits between two checks of the connection
/// state, in seconds.
pub const RECHECK_DELAY_SECS: u64 = 5;

/// How long the evaluation of the peers waits after an advertisement, so that
/// a burst of advertisements is evaluated once; in seconds.
pub const DEBOUNCE_SECS: u64 = 1;

/// The content that a row of the document points to, as far as the core
/// reads it.
#[derive(Debug)]
pub enum RowContent {
    Status(Status),
    Identity(Identity),
    Post(Post),
    /// The content was not read, or could not be read as what the key of
    /// the row calls for.
    Unread,
}

} // verus!
