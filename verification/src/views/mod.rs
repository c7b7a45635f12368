//! What the views of a host application are shown.

pub mod errors;
pub mod nearby_details;
pub mod node_stat;

use crate::data::{BlobHash, WideId};
use crate::identity::model::{Identity, IdentityServiceEvents};
use crate::nearby::model::{ConState, DisplayMessage, DocData, NearbyProfile, Status};
use crate::nearby::NearbyServiceEvents;
use crate::settings::SettingsEvent;
use vstd::prelude::*;

verus! {

/// What the view of the whole application is told.
#[derive(Debug)]
pub enum GlobalUpdate {
    OwnPublicKey(WideId),
    Name(String),
    Pic(BlobHash),
    Broadcasting(bool),
    NearbyProfiles(Vec<NearbyProfile>),
    Status(Status),
    DocData(DocData),
    ConnectionState(ConState),
    AllMessages(Vec<DisplayMessage>),
    OneMessage(DisplayMessage),
}

/// What the view is told when it starts: the status and the connection
/// state; the key, the name and, where there is one, the portrait of the
/// local user, where the user has an identity; and whether the node
/// broadcasts.
pub fn start(
    status: Status,
    con_state: ConState,
    identity: Option<Identity>,
    pic: Option<BlobHash>,
    broadcasting: bool,
) -> (updates: Vec<GlobalUpdate>)
    ensures
        updates@ == seq![GlobalUpdate::Status(status), GlobalUpdate::ConnectionState(con_state)]
            + (match identity {
            Some(iden) => seq![GlobalUpdate::OwnPublicKey(iden.pk), GlobalUpdate::Name(iden.name)]
                + (match pic {
                Some(hash) => seq![GlobalUpdate::Pic(hash)],
                None => Seq::<GlobalUpdate>::empty(),
            }),
            None => Seq::<GlobalUpdate>::empty(),
        }) + seq![GlobalUpdate::Broadcasting(broadcasting)],
{
    let mut updates: Vec<GlobalUpdate> = Vec::new();
    updates.push(GlobalUpdate::Status(status));
    updates.push(GlobalUpdate::ConnectionState(con_state));
    let ghost head = updates@;
    let ghost mut middle: Seq<GlobalUpdate> = Seq::empty();
    match identity {
        Some(iden) => {
            updates.push(GlobalUpdate::OwnPublicKey(iden.pk));
            updates.push(GlobalUpdate::Name(iden.name));
            proof {
                middle = seq![GlobalUpdate::OwnPublicKey(iden.pk), GlobalUpdate::Name(iden.name)];
            }
            match pic {
                Some(hash) => {
                    updates.push(GlobalUpdate::Pic(hash));
                    proof {
                        middle = middle + seq![GlobalUpdate::Pic(hash)];
                    }
                },
                None => {
                    proof {
                        middle = middle + Seq::<GlobalUpdate>::empty();
                    }
                },
            }
        },
        None => {},
    }
    assert(updates@ =~= head + middle);
    updates.push(GlobalUpdate::Broadcasting(broadcasting));
    assert(updates@ =~= head + middle + seq![GlobalUpdate::Broadcasting(broadcasting)]);
    assert(head =~= seq![GlobalUpdate::Status(status), GlobalUpdate::ConnectionState(con_state)]);
    updates
}

/// What the view is told on an event of the settings service: the status of
/// the user when it changed.
pub fn on_settings_event(event: SettingsEvent) -> (update: Option<GlobalUpdate>)
    ensures
        update == match event {
            SettingsEvent::StatusSettingChanged(s) => Some(GlobalUpdate::Status(s)),
            _ => None,
        },
{
    match event {
        SettingsEvent::StatusSettingChanged(s) => Some(GlobalUpdate::Status(s)),
        _ => None,
    }
}

/// What the view is told on an event of the identity service: the new name,
/// or the new portrait, of the user.
pub fn on_identity_event(event: IdentityServiceEvents) -> (update: GlobalUpdate)
    ensures
        update == match event {
            IdentityServiceEvents::DefaultIdentityUpdated(i) => GlobalUpdate::Name(i.name),
            IdentityServiceEvents::DefaultIdentityPicUpdated(hash, _) => GlobalUpdate::Pic(hash),
        },
{
    match event {
        IdentityServiceEvents::DefaultIdentityUpdated(i) => GlobalUpdate::Name(i.name),
        IdentityServiceEvents::DefaultIdentityPicUpdated(hash, _) => GlobalUpdate::Pic(hash),
    }
}

/// What the view is told on an event of the nearby service. The change of a
/// bio is nothing to this view.
pub fn on_nearby_event(event: NearbyServiceEvents) -> (update: Option<GlobalUpdate>)
    ensures
        update == match event {
            NearbyServiceEvents::BroadcastingUpdated(on) => Some(GlobalUpdate::Broadcasting(on)),
            NearbyServiceEvents::IdentitiesUpdated(list) => Some(GlobalUpdate::NearbyProfiles(list)),
            NearbyServiceEvents::DocDataUpdated(data) => Some(GlobalUpdate::DocData(data)),
            NearbyServiceEvents::AllMessagesUpdated(list) => Some(GlobalUpdate::AllMessages(list)),
            NearbyServiceEvents::ReceivedOneNewMessage(shown) => Some(
                GlobalUpdate::OneMessage(shown),
            ),
            NearbyServiceEvents::ConStateUpdated(state) => Some(
                GlobalUpdate::ConnectionState(state),
            ),
            NearbyServiceEvents::BioUpdated(_) => None,
        },
{
    match event {
        NearbyServiceEvents::BroadcastingUpdated(on) => Some(GlobalUpdate::Broadcasting(on)),
        NearbyServiceEvents::IdentitiesUpdated(list) => Some(GlobalUpdate::NearbyProfiles(list)),
        NearbyServiceEvents::DocDataUpdated(data) => Some(GlobalUpdate::DocData(data)),
        NearbyServiceEvents::AllMessagesUpdated(list) => Some(GlobalUpdate::AllMessages(list)),
        NearbyServiceEvents::ReceivedOneNewMessage(shown) => Some(GlobalUpdate::OneMessage(shown)),
        NearbyServiceEvents::ConStateUpdated(state) => Some(GlobalUpdate::ConnectionState(state)),
        NearbyServiceEvents::BioUpdated(_) => None,
    }
}

} // verus!
