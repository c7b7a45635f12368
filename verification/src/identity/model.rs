//! An author's identity row and where the identity service keeps it.

use crate::data::{join_key, spec_base32, wideid_to_string, BlobHash, PublicKey, WideId};
use vstd::prelude::*;

verus! {

/// Key of the identity row that each author writes on a shared document.
pub const IDENTITY: &'static str = "identity";

/// Key of the portrait pointer that each author writes on a shared document.
pub const ID_PIC: &'static str = "id_pic";

/// Prefix of the keys under which the root document holds identities.
pub const IDENTITY_PREFIX: &'static str = "identity/by_pk";

/// Prefix of the keys under which the root document holds portraits.
pub const ID_PIC_PREFIX: &'static str = "identity/pic/by_pk";

/// The key of the identity of `pk` on the root document.
pub fn identity_prefix(pk: WideId) -> (key: String)
    ensures
        key@ == IDENTITY_PREFIX@ + "/"@ + spec_base32(pk.bytes()),
{
    let text = wideid_to_string(pk);
    join_key(IDENTITY_PREFIX, text.as_str())
}

/// The key of the portrait of `pk` on the root document.
pub fn identity_pic_prefix(pk: WideId) -> (key: String)
    ensures
        key@ == ID_PIC_PREFIX@ + "/"@ + spec_base32(pk.bytes()),
{
    let text = wideid_to_string(pk);
    join_key(ID_PIC_PREFIX, text.as_str())
}

/// An author as the others see them: one per author per document.
#[derive(Debug, PartialEq)]
pub struct Identity {
    pub name: String,
    pub pk: PublicKey,
}

impl Clone for Identity {
    fn clone(&self) -> (copy: Self)
        ensures
            copy == *self,
    {
        Identity { name: self.name.clone(), pk: self.pk }
    }
}

/// What the identity service tells its listeners.
#[derive(Debug)]
pub enum IdentityServiceEvents {
    DefaultIdentityUpdated(Identity),
    DefaultIdentityPicUpdated(BlobHash, u64),
}

impl Clone for IdentityServiceEvents {
    fn clone(&self) -> (copy: Self)
        ensures
            copy == *self,
    {
        match self {
            IdentityServiceEvents::DefaultIdentityUpdated(identity) => {
                IdentityServiceEvents::DefaultIdentityUpdated(identity.clone())
            },
            IdentityServiceEvents::DefaultIdentityPicUpdated(hash, size) => {
                IdentityServiceEvents::DefaultIdentityPicUpdated(*hash, *size)
            },
        }
    }
}

} // verus!
