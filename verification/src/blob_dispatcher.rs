//! What a view is told while the bytes of a blob, or the members of a
//! collection, are fetched for it.

use crate::data::BlobHash;
use vstd::prelude::*;

verus! {

/// The state of a blob that a view asked for.
#[derive(Debug)]
pub enum BlobDataState {
    Empty,
    Loading,
    Loaded(BlobHash, Vec<u8>),
    Failed(String),
}

/// The state of a collection that a view asked for.
#[derive(Debug)]
pub enum CollectionState {
    Empty,
    Loading,
    Loaded(Vec<NamedBlob>),
    Failed(String),
}

/// A member of a collection: a name and the hash of a blob.
#[derive(Debug)]
pub struct NamedBlob {
    pub name: String,
    pub hash: BlobHash,
}

impl Clone for NamedBlob {
    fn clone(&self) -> (copy: Self)
        ensures
            copy == *self,
    {
        NamedBlob { name: self.name.clone(), hash: self.hash }
    }
}

/// What the dispatcher does for a view first: a view without a hash is
/// told nothing and nothing is fetched; any other view is told that its
/// blob is loading, and the blob with its hash is fetched.
pub fn begin_hydrate(hash: Option<BlobHash>) -> (first: Option<(BlobDataState, BlobHash)>)
    ensures
        match hash {
            Some(h) => first matches Some(f) && f.0 is Loading && f.1 == h,
            None => first is None,
        },
{
    match hash {
        Some(h) => Some((BlobDataState::Loading, h)),
        None => None,
    }
}

/// What the view is told when the fetch has ended: the bytes under their
/// hash, or the failure.
pub fn finish_hydrate(hash: BlobHash, fetched: Result<Vec<u8>, String>) -> (state: BlobDataState)
    ensures
        state == match fetched {
            Ok(bytes) => BlobDataState::Loaded(hash, bytes),
            Err(message) => BlobDataState::Failed(message),
        },
{
    match fetched {
        Ok(bytes) => BlobDataState::Loaded(hash, bytes),
        Err(message) => BlobDataState::Failed(message),
    }
}

/// What the view is told when the fetch of a collection has ended: its
/// members, or the failure.
pub fn finish_collection(fetched: Result<Vec<NamedBlob>, String>) -> (state: CollectionState)
    ensures
        state == match fetched {
            Ok(items) => CollectionState::Loaded(items),
            Err(message) => CollectionState::Failed(message),
        },
{
    match fetched {
        Ok(items) => CollectionState::Loaded(items),
        Err(message) => CollectionState::Failed(message),
    }
}

} // verus!
