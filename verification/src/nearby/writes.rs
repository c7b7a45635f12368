//! What the node writes onto the active document: the rows of the local
//! author, and its posts.

use crate::data::{BlobHash, PublicKey};
use crate::blob_dispatcher::NamedBlob;
use crate::data::replace_or_add_blob;
use crate::identity::model::{Identity, IdentityServiceEvents};
use crate::nearby::bio::BIO_TEXT_NAME;
use crate::nearby::model::{Post, Status, Timestamp};
use crate::nearby::{Service, State};
use crate::settings::SettingsEvent;
use vstd::prelude::*;

verus! {

/// A row of the local author that is to be written onto the active
/// document.
#[derive(Debug)]
pub enum DocWrite {
    /// The identity, under `identity`.
    Identity(Identity),
    /// The status, under `status`.
    Status(Status),
    /// The pointer to the portrait with this hash and size, under `id_pic`.
    Pic(BlobHash, u64),
    /// The row of the public bio, as `update_my_bio_on_doc` decides.
    Bio,
}

impl Service {
    /// The rows that put the local author onto a document: identity, status,
    /// the portrait where there is one, and the bio, in this order. An author
    /// without identity writes nothing yet.
    pub fn put_self_on_doc(
        identity: Option<Identity>,
        status: Status,
        pic: Option<(BlobHash, u64)>,
    ) -> (writes: Vec<DocWrite>)
        ensures
            match identity {
                None => writes@ == Seq::<DocWrite>::empty(),
                Some(iden) => match pic {
                    Some((hash, size)) => writes@ == seq![
                        DocWrite::Identity(iden),
                        DocWrite::Status(status),
                        DocWrite::Pic(hash, size),
                        DocWrite::Bio,
                    ],
                    None => writes@ == seq![
                        DocWrite::Identity(iden),
                        DocWrite::Status(status),
                        DocWrite::Bio,
                    ],
                },
            },
    {
        let mut writes: Vec<DocWrite> = Vec::new();
        match identity {
            None => {},
            Some(iden) => {
                writes.push(DocWrite::Identity(iden));
                writes.push(DocWrite::Status(status));
                match pic {
                    Some((hash, size)) => {
                        writes.push(DocWrite::Pic(hash, size));
                    },
                    None => {},
                }
                writes.push(DocWrite::Bio);
                proof {
                    match pic {
                        Some((hash, size)) => {
                            assert(writes@ =~= seq![
                                DocWrite::Identity(iden),
                                DocWrite::Status(status),
                                DocWrite::Pic(hash, size),
                                DocWrite::Bio,
                            ]);
                        },
                        None => {
                            assert(writes@ =~= seq![
                                DocWrite::Identity(iden),
                                DocWrite::Status(status),
                                DocWrite::Bio,
                            ]);
                        },
                    }
                }
            },
        }
        writes
    }
}

/// What a change of a setting makes the node write.
#[derive(Debug)]
pub enum SettingsReaction {
    /// Write this row onto the active document.
    Write(DocWrite),
    /// Decide on the bio row anew, where the setting calls for it.
    Setting(String, crate::settings::StoreValue),
    /// Nothing: the service has no document.
    Nothing,
}

impl Service {
    /// What an event of the identity service makes the node write onto the
    /// active document: the new identity or portrait of the default
    /// author. Nothing is written without a document.
    pub fn on_identity_event(&self, event: IdentityServiceEvents) -> (write: Option<DocWrite>)
        ensures
            write == match self.state {
                State::Ready(_) => Some(
                    match event {
                        IdentityServiceEvents::DefaultIdentityUpdated(iden) => DocWrite::Identity(
                            iden,
                        ),
                        IdentityServiceEvents::DefaultIdentityPicUpdated(hash, size) => DocWrite::Pic(
                            hash,
                            size,
                        ),
                    },
                ),
                State::Uninitialized => None,
            },
    {
        match &self.state {
            State::Ready(_) => Some(
                match event {
                    IdentityServiceEvents::DefaultIdentityUpdated(iden) => DocWrite::Identity(iden),
                    IdentityServiceEvents::DefaultIdentityPicUpdated(hash, size) => DocWrite::Pic(
                        hash,
                        size,
                    ),
                },
            ),
            State::Uninitialized => None,
        }
    }

    /// What an event of the settings service makes the node do on the
    /// active document: write the new status, decide on the bio row, or
    /// look at the setting that changed.
    pub fn on_settings_event(&self, event: SettingsEvent) -> (reaction: SettingsReaction)
        ensures
            reaction == match self.state {
                State::Ready(_) => match event {
                    SettingsEvent::StatusSettingChanged(s) => SettingsReaction::Write(
                        DocWrite::Status(s),
                    ),
                    SettingsEvent::OwnPublicBioUpdated(_) => SettingsReaction::Write(DocWrite::Bio),
                    SettingsEvent::SettingChanged(key, _, new) => SettingsReaction::Setting(key, new),
                },
                State::Uninitialized => SettingsReaction::Nothing,
            },
    {
        match &self.state {
            State::Ready(_) => match event {
                SettingsEvent::StatusSettingChanged(s) => SettingsReaction::Write(
                    DocWrite::Status(s),
                ),
                SettingsEvent::OwnPublicBioUpdated(_) => SettingsReaction::Write(DocWrite::Bio),
                SettingsEvent::SettingChanged(key, _, new) => SettingsReaction::Setting(key, new),
            },
            State::Uninitialized => SettingsReaction::Nothing,
        }
    }
}

impl Service {
    /// The post that carries a message of the author `me`, created at the
    /// given instant: the text as body, and the payload where there is one.
    pub fn post_message(
        me: PublicKey,
        created_at: Timestamp,
        text: String,
        payload: Option<BlobHash>,
    ) -> (post: Post)
        ensures
            post == (Post { pk: me, created_at, title: None, body: Some(text), payload }),
    {
        Post::at(me, created_at).body(text).payload(payload)
    }

    /// Puts the blob of a new bio text into the collection of the bio, in
    /// place of the text it held.
    pub fn set_bio_text(text_hash: BlobHash, bio_blobs: &mut Vec<NamedBlob>)
        ensures
            ({
                let at = crate::data::first_named(old(bio_blobs)@, BIO_TEXT_NAME@);
                &&& final(bio_blobs)@.len() == if at < old(bio_blobs)@.len() {
                    old(bio_blobs)@.len()
                } else {
                    old(bio_blobs)@.len() + 1
                }
                &&& final(bio_blobs)@[at].name@ == BIO_TEXT_NAME@
                &&& final(bio_blobs)@[at].hash == text_hash
                &&& forall|j: int|
                    0 <= j < old(bio_blobs)@.len() && j != at ==> final(bio_blobs)@[j] == old(
                        bio_blobs,
                    )@[j]
            }),
    {
        replace_or_add_blob(BIO_TEXT_NAME, text_hash, bio_blobs);
    }
}

} // verus!
