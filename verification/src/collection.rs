//! Getting a collection that may not be on this node yet: when to ask the
//! peers for it, and when what is here can be handed out.

use crate::blob_dispatcher::NamedBlob;
use crate::data::BlobHash;
use vstd::prelude::*;

verus! {

/// What the blob store says of a blob.
#[derive(Debug, Clone, Copy, PartialEq, Eq, Structural)]
pub enum BlobStatus {
    /// All bytes are here; with the size.
    Complete { size: u64 },
    /// Some bytes are here; with the size, where it is known.
    Partial { known_size: Option<u64> },
    NotFound,
}

/// Where the fetch of a collection stands.
#[derive(Debug, Clone, Copy, PartialEq, Eq, Structural)]
pub enum FetchState {
    /// Nothing was asked yet.
    Start,
    /// The collection was asked for, for the first time.
    FirstLook,
    /// The collection was not here and is being downloaded.
    Downloading,
    /// The collection was downloaded and is asked for again.
    SecondLook,
    /// The collection is here; the member at this place is asked about, of
    /// this many members.
    Checking { next: usize, len: usize },
    /// A member was not complete and the collection is being downloaded.
    Repairing,
    /// The collection can be handed out.
    Done,
    /// The collection cannot be had.
    Failed,
}

/// What the outside reports to the fetch.
#[derive(Debug, Clone, Copy, PartialEq, Eq, Structural)]
pub enum FetchEvent {
    /// The fetch is started.
    Begin,
    /// The collection is here, with this many members.
    Found { len: usize },
    /// The collection is not here.
    Missing,
    /// The download has ended well.
    Downloaded,
    /// The download has failed.
    DownloadFailed,
    /// The status of the member that was asked about: whether all its bytes
    /// are here.
    Member { complete: bool },
}

/// What the fetch asks the outside to do next.
#[derive(Debug, Clone, Copy, PartialEq, Eq, Structural)]
pub enum FetchAction {
    /// Ask the blob store for the collection.
    Look,
    /// Download the collection from the known peers.
    Download,
    /// Ask the blob store about the member at this place.
    CheckMember(usize),
    /// Hand out the collection as it was found.
    Deliver,
    /// Report the failure.
    GiveUp,
}

/// The step of the fetch: from where it stands and what was reported, to
/// where it stands next and what is to be done.
///
/// A collection that is not here is downloaded once and looked for again.
/// A collection that is here had better be whole: its members are asked
/// about one by one, and the first that is not complete has the collection
/// downloaded once; then what was found is handed out.
pub open spec fn fetch_step(state: FetchState, event: FetchEvent) -> (FetchState, FetchAction) {
    match (state, event) {
        (FetchState::Start, FetchEvent::Begin) => (FetchState::FirstLook, FetchAction::Look),
        (FetchState::FirstLook, FetchEvent::Found { len }) => if len == 0 {
            (FetchState::Done, FetchAction::Deliver)
        } else {
            (FetchState::Checking { next: 0, len }, FetchAction::CheckMember(0))
        },
        (FetchState::FirstLook, FetchEvent::Missing) => (
            FetchState::Downloading,
            FetchAction::Download,
        ),
        (FetchState::Downloading, FetchEvent::Downloaded) => (
            FetchState::SecondLook,
            FetchAction::Look,
        ),
        (FetchState::SecondLook, FetchEvent::Found { len }) => (
            FetchState::Done,
            FetchAction::Deliver,
        ),
        (FetchState::Checking { next, len }, FetchEvent::Member { complete }) => if !complete {
            (FetchState::Repairing, FetchAction::Download)
        } else if next + 1 < len {
            (
                FetchState::Checking { next: (next + 1) as usize, len },
                FetchAction::CheckMember((next + 1) as usize),
            )
        } else {
            (FetchState::Done, FetchAction::Deliver)
        },
        (FetchState::Repairing, FetchEvent::Downloaded) => (FetchState::Done, FetchAction::Deliver),
        (FetchState::Done, _) => (FetchState::Done, FetchAction::Deliver),
        _ => (FetchState::Failed, FetchAction::GiveUp),
    }
}

/// Takes one step of the fetch of a collection.
pub fn get_or_download_collection(state: FetchState, event: FetchEvent) -> (next: (
    FetchState,
    FetchAction,
))
    ensures
        next == fetch_step(state, event),
{
    match (state, event) {
        (FetchState::Start, FetchEvent::Begin) => (FetchState::FirstLook, FetchAction::Look),
        (FetchState::FirstLook, FetchEvent::Found { len }) => {
            if len == 0 {
                (FetchState::Done, FetchAction::Deliver)
            } else {
                (FetchState::Checking { next: 0, len }, FetchAction::CheckMember(0))
            }
        },
        (FetchState::FirstLook, FetchEvent::Missing) => (
            FetchState::Downloading,
            FetchAction::Download,
        ),
        (FetchState::Downloading, FetchEvent::Downloaded) => (
            FetchState::SecondLook,
            FetchAction::Look,
        ),
        (FetchState::SecondLook, FetchEvent::Found { len: _ }) => (
            FetchState::Done,
            FetchAction::Deliver,
        ),
        (FetchState::Checking { next, len }, FetchEvent::Member { complete }) => {
            if !complete {
                (FetchState::Repairing, FetchAction::Download)
            } else if next < usize::MAX && next + 1 < len {
                (FetchState::Checking { next: next + 1, len }, FetchAction::CheckMember(next + 1))
            } else {
                (FetchState::Done, FetchAction::Deliver)
            }
        },
        (FetchState::Repairing, FetchEvent::Downloaded) => (FetchState::Done, FetchAction::Deliver),
        (FetchState::Done, _) => (FetchState::Done, FetchAction::Deliver),
        _ => (FetchState::Failed, FetchAction::GiveUp),
    }
}

/// How many downloads the fetch asks for along `events`, from `state` on.
pub open spec fn downloads(state: FetchState, events: Seq<FetchEvent>) -> nat
    decreases events.len(),
{
    if events.len() == 0 {
        0
    } else {
        let (next, action) = fetch_step(state, events[0]);
        (if action == FetchAction::Download {
            1nat
        } else {
            0nat
        }) + downloads(next, events.drop_first())
    }
}

/// A state from which the fetch asks for no download any more.
pub open spec fn is_past_download(state: FetchState) -> bool {
    match state {
        FetchState::Downloading | FetchState::SecondLook | FetchState::Repairing | FetchState::Done
        | FetchState::Failed => true,
        _ => false,
    }
}

proof fn lemma_no_more_downloads(state: FetchState, events: Seq<FetchEvent>)
    requires
        is_past_download(state),
    ensures
        downloads(state, events) == 0,
    decreases events.len(),
{
    if events.len() > 0 {
        let (next, action) = fetch_step(state, events[0]);
        lemma_no_more_downloads(next, events.drop_first());
    }
}

/// Whatever is reported, a fetch downloads its collection at most once.
pub proof fn lemma_downloads_once(state: FetchState, events: Seq<FetchEvent>)
    ensures
        downloads(state, events) <= 1,
    decreases events.len(),
{
    if events.len() > 0 {
        let (next, action) = fetch_step(state, events[0]);
        if action == FetchAction::Download {
            lemma_no_more_downloads(next, events.drop_first());
        } else {
            lemma_downloads_once(next, events.drop_first());
        }
    }
}

/// A collection could not be written.
#[derive(Debug, Clone, Copy, PartialEq, Eq, Structural)]
pub enum CollectionError {
    /// The collection that was made is not complete in the blob store.
    Incomplete,
}

impl CollectionError {
    pub fn message(&self) -> (text: &'static str)
        ensures
            text@ == "Cannot set collection if it is not complete"@,
    {
        "Cannot set collection if it is not complete"
    }
}

/// The size under which a collection that was just made is written to the
/// document: it is written only where the blob store holds it complete.
pub fn set_collection(status: BlobStatus) -> (size: Result<u64, CollectionError>)
    ensures
        size == match status {
            BlobStatus::Complete { size } => Ok::<u64, CollectionError>(size),
            _ => Err::<u64, CollectionError>(CollectionError::Incomplete),
        },
{
    match status {
        BlobStatus::Complete { size } => Ok(size),
        _ => Err(CollectionError::Incomplete),
    }
}

/// The payload row that goes with a post: the hash of the payload and its
/// size, where the post has a payload and the blob store holds it
/// complete. The post is published without the row otherwise.
pub fn payload_row(payload: Option<BlobHash>, status: Option<BlobStatus>) -> (row: Option<
    (BlobHash, u64),
>)
    ensures
        row == match (payload, status) {
            (Some(hash), Some(BlobStatus::Complete { size })) => Some((hash, size)),
            _ => None,
        },
{
    match (payload, status) {
        (Some(hash), Some(BlobStatus::Complete { size })) => Some((hash, size)),
        _ => None,
    }
}

/// The members of a collection, from the names and hashes that the blob
/// store holds for it.
pub fn named_blobs(members: Vec<(String, BlobHash)>) -> (blobs: Vec<NamedBlob>)
    ensures
        blobs.len() == members.len(),
        forall|i: int|
            0 <= i < blobs.len() ==> (#[trigger] blobs[i]).name == members[i].0 && blobs[i].hash
                == members[i].1,
{
    let mut blobs: Vec<NamedBlob> = Vec::new();
    let mut i: usize = 0;
    while i < members.len()
        invariant
            i <= members.len(),
            blobs.len() == i,
            forall|j: int|
                0 <= j < i ==> (#[trigger] blobs[j]).name == members[j].0 && blobs[j].hash
                    == members[j].1,
        decreases members.len() - i,
    {
        blobs.push(NamedBlob { name: members[i].0.clone(), hash: members[i].1 });
        i += 1;
    }
    blobs
}

} // verus!
