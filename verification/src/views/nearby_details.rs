//! The view of one author of the active document.

use crate::data::{BlobHash, PublicKey};
use crate::nearby::model::{BioDetails, NearbyProfile, Status};
use crate::nearby::NearbyServiceEvents;
use crate::settings::SettingsEvent;
use vstd::prelude::*;

verus! {

/// What the view of an author is told.
#[derive(Debug)]
pub enum DetailsUpdate {
    Name(String),
    Pic(Option<BlobHash>),
    Status(Status),
    Editable(bool),
    ShareBio(bool),
    Availability(bool),
    Bio(BioDetails),
}

/// What the view is told of the profile of its author: name, portrait,
/// status, whether the user `me` can edit it, and whether the bio is
/// shared.
pub fn profile_updates(
    profile: NearbyProfile,
    me: &PublicKey,
    subject: &PublicKey,
    share_it: bool,
) -> (updates: Vec<DetailsUpdate>)
    ensures
        updates@ == seq![
            DetailsUpdate::Name(profile.name),
            DetailsUpdate::Pic(profile.pic),
            DetailsUpdate::Status(profile.status),
            DetailsUpdate::Editable(*me == *subject),
            DetailsUpdate::ShareBio(share_it),
        ],
{
    let mut updates: Vec<DetailsUpdate> = Vec::new();
    let editable = *me == *subject;
    updates.push(DetailsUpdate::Name(profile.name));
    updates.push(DetailsUpdate::Pic(profile.pic));
    updates.push(DetailsUpdate::Status(profile.status));
    updates.push(DetailsUpdate::Editable(editable));
    updates.push(DetailsUpdate::ShareBio(share_it));
    assert(updates@ =~= seq![
        DetailsUpdate::Name(profile.name),
        DetailsUpdate::Pic(profile.pic),
        DetailsUpdate::Status(profile.status),
        DetailsUpdate::Editable(*me == *subject),
        DetailsUpdate::ShareBio(share_it),
    ]);
    updates
}

/// What the view is told of the bio of its author: that there is none, or
/// that there is one, and the bio.
pub fn bio_updates(bio: Option<BioDetails>) -> (updates: Vec<DetailsUpdate>)
    ensures
        updates@ == match bio {
            None => seq![DetailsUpdate::Availability(false)],
            Some(details) => seq![DetailsUpdate::Availability(true), DetailsUpdate::Bio(details)],
        },
{
    let mut updates: Vec<DetailsUpdate> = Vec::new();
    match bio {
        None => {
            updates.push(DetailsUpdate::Availability(false));
            assert(updates@ =~= seq![DetailsUpdate::Availability(false)]);
        },
        Some(details) => {
            updates.push(DetailsUpdate::Availability(true));
            updates.push(DetailsUpdate::Bio(details));
            assert(updates@ =~= seq![
                DetailsUpdate::Availability(true),
                DetailsUpdate::Bio(details),
            ]);
        },
    }
    updates
}

/// What the view does on an event.
#[derive(Debug, Clone, Copy, PartialEq, Eq, Structural)]
pub enum ListenStep {
    /// Read the data of the author again and show it.
    Refresh,
    /// Go on listening.
    Ignore,
    /// End listening.
    Stop,
}

/// The step on an event of the settings service: the view of the local
/// user shows its data anew when the user's own bio changed.
pub fn on_settings_event(
    event: &SettingsEvent,
    me: &PublicKey,
    subject: &PublicKey,
) -> (step: ListenStep)
    ensures
        step == if *event is OwnPublicBioUpdated && *me == *subject {
            ListenStep::Refresh
        } else {
            ListenStep::Ignore
        },
{
    match event {
        SettingsEvent::OwnPublicBioUpdated(_) => {
            if *me == *subject {
                ListenStep::Refresh
            } else {
                ListenStep::Ignore
            }
        },
        _ => ListenStep::Ignore,
    }
}

/// The step on an event of the nearby service: when the bio of the view's
/// author changed, the view shows its data anew; when the bio of another
/// author changed, the view ends listening.
pub fn on_nearby_event(event: &NearbyServiceEvents, subject: &PublicKey) -> (step: ListenStep)
    ensures
        step == match *event {
            NearbyServiceEvents::BioUpdated(pk) => if pk == *subject {
                ListenStep::Refresh
            } else {
                ListenStep::Stop
            },
            _ => ListenStep::Ignore,
        },
{
    match event {
        NearbyServiceEvents::BioUpdated(pk) => {
            if *pk == *subject {
                ListenStep::Refresh
            } else {
                ListenStep::Stop
            }
        },
        _ => ListenStep::Ignore,
    }
}

} // verus!
