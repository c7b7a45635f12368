//! The local user's identity, and the identities seen on a document.
//!
//! The identity service keeps identities and portraits on the root
//! document, under keys that end in the author's key. This module sorts
//! the rows of the root document, and says which of them concern the
//! default identity.

pub mod domain;
pub mod model;

use crate::data::{is_named, spec_base32, wideid_to_string, BlobHash, PublicKey};
use crate::doc::{has_value_after, text_after, value_after};
use crate::identity::model::{Identity, IdentityServiceEvents, IDENTITY_PREFIX, ID_PIC_PREFIX};
use crate::nearby::post::starts_with;
use vstd::prelude::*;
use vstd::string::StringSliceAdditionalSpecFns;

verus! {

/// What a row of the root document is to the identity service.
#[derive(Debug, Clone, Copy, PartialEq, Eq, Structural)]
pub enum IdentityRow {
    /// An identity: the key begins with `identity/by_pk`.
    Identity,
    /// A portrait: the key begins with `identity/pic/by_pk`.
    Pic,
    /// Any other row; the service passes it over.
    Other,
}

/// The kind of the row of the root document with the given key.
pub fn identity_row(key: &[u8]) -> (kind: IdentityRow)
    ensures
        kind == if IDENTITY_PREFIX.spec_bytes().is_prefix_of(key@) {
            IdentityRow::Identity
        } else if ID_PIC_PREFIX.spec_bytes().is_prefix_of(key@) {
            IdentityRow::Pic
        } else {
            IdentityRow::Other
        },
{
    if starts_with(key, IDENTITY_PREFIX.as_bytes()) {
        IdentityRow::Identity
    } else if starts_with(key, ID_PIC_PREFIX.as_bytes()) {
        IdentityRow::Pic
    } else {
        IdentityRow::Other
    }
}

/// What the listeners are told of an identity row: the identity, where it
/// is that of the default author.
pub fn identity_inserted(iden: Identity, default_pk: &PublicKey) -> (event: Option<
    IdentityServiceEvents,
>)
    ensures
        event == if iden.pk == *default_pk {
            Some(IdentityServiceEvents::DefaultIdentityUpdated(iden))
        } else {
            None
        },
{
    if iden.pk == *default_pk {
        Some(IdentityServiceEvents::DefaultIdentityUpdated(iden))
    } else {
        None
    }
}

/// The key of a portrait row names the default author: what stands in it
/// behind the prefix is the text of the author's key.
pub open spec fn is_default_pic_key(key: &str, default_pk: PublicKey) -> bool {
    has_value_after(ID_PIC_PREFIX, key) && text_after(ID_PIC_PREFIX, key) == spec_base32(
        default_pk.bytes(),
    )
}

/// What the listeners are told of a portrait row: the hash and size of the
/// portrait, where the key of the row names the default author.
pub fn id_pic_inserted(
    key: &str,
    content_hash: BlobHash,
    content_len: u64,
    default_pk: &PublicKey,
) -> (event: Option<IdentityServiceEvents>)
    ensures
        event == if is_default_pic_key(key, *default_pk) {
            Some(IdentityServiceEvents::DefaultIdentityPicUpdated(content_hash, content_len))
        } else {
            None
        },
{
    if ID_PIC_PREFIX.len() < key.len() && key.is_char_boundary(ID_PIC_PREFIX.len() + 1) {
        let pk_from_key = value_after(ID_PIC_PREFIX, key);
        let default = wideid_to_string(*default_pk);
        let named = pk_from_key.to_owned();
        if is_named(&named, default.as_str()) {
            Some(IdentityServiceEvents::DefaultIdentityPicUpdated(content_hash, content_len))
        } else {
            None
        }
    } else {
        None
    }
}

/// The identity to save when the user takes a name: the identity held with
/// the new name, or a new identity of the author.
pub fn set_name(existing: Option<Identity>, name: String, pk: PublicKey) -> (iden: Identity)
    ensures
        iden.name == name,
        iden.pk == match existing {
            Some(held) => held.pk,
            None => pk,
        },
{
    match existing {
        None => Identity { name, pk },
        Some(held) => {
            let mut held = held;
            held.name = name;
            held
        },
    }
}

} // verus!
