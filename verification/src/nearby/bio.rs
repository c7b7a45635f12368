//! The public bio of an author: a collection that holds a text under a
//! fixed name and, under other names, the pictures of a gallery.

use crate::blob_dispatcher::NamedBlob;
use crate::data::{decimal, decimal_text, is_named, BlobHash, PublicKey};
use crate::nearby::model::BioDetails;
use crate::nearby::Service;
use crate::settings::{StoreValue, SHARE_NEARBY_PUBLIC_BIO};
use vstd::prelude::*;
use vstd::string::*;

verus! {

/// The name of the text of a bio in its collection.
pub const BIO_TEXT_NAME: &'static str = "bio_text.txt";

/// The number of pictures that a gallery holds at most.
pub const MAX_GALLERY_PICS: usize = 9;

/// What `flexbuffers` writes for a text. Stands for what
/// `flexbuffers::to_vec` returns for it; there is none where that fails.
pub uninterp spec fn spec_text_blob(text: Seq<char>) -> Option<Seq<u8>>;

/// Calls `flexbuffers::to_vec` on the text. The bytes are believed to
/// depend on the text alone.
#[verifier::external_body]
fn text_blob(text: &String) -> (bytes: Option<Vec<u8>>)
    ensures
        match bytes {
            Some(b) => spec_text_blob(text@) == Some(b@),
            None => spec_text_blob(text@) is None,
        },
{
    flexbuffers::to_vec(text).ok()
}

/// The bytes of the blob that holds a bio text.
pub fn write_bio_text(text: &String) -> (bytes: Option<Vec<u8>>)
    ensures
        match bytes {
            Some(b) => spec_text_blob(text@) == Some(b@),
            None => spec_text_blob(text@) is None,
        },
{
    text_blob(text)
}

/// The hash of the text of the bio: that of the last member under the name
/// of the text.
pub open spec fn text_of(blobs: Seq<NamedBlob>) -> Option<BlobHash>
    decreases blobs.len(),
{
    if blobs.len() == 0 {
        None
    } else if blobs.last().name@ == BIO_TEXT_NAME@ {
        Some(blobs.last().hash)
    } else {
        text_of(blobs.drop_last())
    }
}

/// The hashes of the pictures of the bio: those of the members under any
/// other name, in their order.
pub open spec fn pics_of(blobs: Seq<NamedBlob>) -> Seq<BlobHash>
    decreases blobs.len(),
{
    if blobs.len() == 0 {
        Seq::empty()
    } else if blobs.last().name@ == BIO_TEXT_NAME@ {
        pics_of(blobs.drop_last())
    } else {
        pics_of(blobs.drop_last()).push(blobs.last().hash)
    }
}

/// Takes the collection of a bio apart: the hash of its text, if it has
/// one, and the hashes of its pictures.
pub fn split_bio(collection: &Vec<NamedBlob>) -> (parts: (Option<BlobHash>, Vec<BlobHash>))
    ensures
        parts.0 == text_of(collection@),
        parts.1@ == pics_of(collection@),
{
    let mut bio_text_hash: Option<BlobHash> = None;
    let mut pics: Vec<BlobHash> = Vec::new();
    let mut i: usize = 0;
    assert(collection@.take(0) =~= Seq::<NamedBlob>::empty());
    while i < collection.len()
        invariant
            i <= collection.len(),
            bio_text_hash == text_of(collection@.take(i as int)),
            pics@ == pics_of(collection@.take(i as int)),
        decreases collection.len() - i,
    {
        proof {
            assert(collection@.take(i + 1).drop_last() =~= collection@.take(i as int));
        }
        if is_named(&collection[i].name, BIO_TEXT_NAME) {
            bio_text_hash = Some(collection[i].hash);
        } else {
            pics.push(collection[i].hash);
        }
        i += 1;
    }
    assert(collection@.take(collection.len() as int) =~= collection@);
    (bio_text_hash, pics)
}

/// Where the bio of an author is read from.
#[derive(Debug, Clone, Copy, PartialEq, Eq, Structural)]
pub enum BioSource {
    /// The local user's own bio: from the settings, whatever the document
    /// holds.
    Settings,
    /// The bio of another author: from the row of that author on the active
    /// document.
    Document,
}

pub fn bio_source(me: &PublicKey, owner: &PublicKey) -> (source: BioSource)
    ensures
        source == if *me == *owner {
            BioSource::Settings
        } else {
            BioSource::Document
        },
{
    if *me == *owner {
        BioSource::Settings
    } else {
        BioSource::Document
    }
}

/// A bio could not be shown.
#[derive(Debug, Clone, Copy, PartialEq, Eq, Structural)]
pub enum BioError {
    /// The blob of the text holds no text.
    UnreadableText,
    /// More pictures were given than a gallery holds.
    TooManyPics,
}

impl BioError {
    pub fn message(&self) -> (text: &'static str)
        ensures
            text@ == match *self {
                BioError::UnreadableText => "the text of the bio cannot be read"@,
                BioError::TooManyPics => "only supports up to 9 gallery pics"@,
            },
    {
        match self {
            BioError::UnreadableText => "the text of the bio cannot be read",
            BioError::TooManyPics => "only supports up to 9 gallery pics",
        }
    }
}

/// The text of a bio, as the host has read it from the blob that the
/// collection names for it.
#[derive(Debug)]
pub enum BioText {
    /// The collection names no text.
    Absent,
    /// The text of the blob.
    Read(String),
    /// The blob holds no text.
    Unreadable,
}

/// The bio of `owner` as shown to the user `me`, from the pictures of its
/// collection and its text. A bio without a text has the empty text; a bio
/// whose text cannot be read is not shown. The owner alone can edit a bio.
pub fn bio_details(me: &PublicKey, owner: &PublicKey, text: BioText, pics: Vec<BlobHash>) -> (details:
    Result<BioDetails, BioError>)
    ensures
        match text {
            BioText::Read(t) => details matches Ok(d) && d.text == t && d.shared && d.editable == (
            *owner == *me) && d.pics == pics,
            BioText::Absent => details matches Ok(d) && d.text@ == Seq::<char>::empty() && d.shared
                && d.editable == (*owner == *me) && d.pics == pics,
            BioText::Unreadable => details == Err::<BioDetails, BioError>(
                BioError::UnreadableText,
            ),
        },
{
    let text = match text {
        BioText::Read(t) => t,
        BioText::Absent => String::new(),
        BioText::Unreadable => {
            return Err(BioError::UnreadableText);
        },
    };
    Ok(BioDetails { text, shared: true, editable: *owner == *me, pics })
}

/// The name of the picture at place `i` of a gallery: the decimal text of
/// the place, and `.png`.
pub open spec fn gallery_name(i: int) -> Seq<char> {
    decimal(i as nat) + ".png"@
}

fn name_of_pic(i: usize) -> (name: String)
    ensures
        name@ == gallery_name(i as int),
{
    let mut name = decimal_text(i as u128);
    name.append(".png");
    name
}

/// The members under the name of the text, in their order.
pub open spec fn texts_of(blobs: Seq<NamedBlob>) -> Seq<NamedBlob>
    decreases blobs.len(),
{
    if blobs.len() == 0 {
        Seq::empty()
    } else if blobs.last().name@ == BIO_TEXT_NAME@ {
        texts_of(blobs.drop_last()).push(blobs.last())
    } else {
        texts_of(blobs.drop_last())
    }
}

/// `gallery` holds the pictures `pics`, each under the name of its place.
pub open spec fn is_gallery(pics: Seq<BlobHash>, gallery: Seq<NamedBlob>) -> bool {
    &&& gallery.len() == pics.len()
    &&& forall|i: int|
        0 <= i < pics.len() ==> (#[trigger] gallery[i]).hash == pics[i] && gallery[i].name@
            == gallery_name(i)
}

impl Service {
    /// The collection of a bio with a new gallery: what it held under the name
    /// of the text stays, the pictures it held go, and the new pictures follow
    /// under the names of their places. More than nine pictures are refused.
    pub fn set_gallery_pics(pics: &Vec<BlobHash>, bio_blobs: &Vec<NamedBlob>) -> (out: Result<
        Vec<NamedBlob>,
        BioError,
    >)
        ensures
            match out {
                Ok(blobs) => {
                    &&& pics.len() <= MAX_GALLERY_PICS
                    &&& blobs@.len() == texts_of(bio_blobs@).len() + pics.len()
                    &&& blobs@.take(texts_of(bio_blobs@).len() as int) == texts_of(bio_blobs@)
                    &&& is_gallery(pics@, blobs@.skip(texts_of(bio_blobs@).len() as int))
                },
                Err(e) => pics.len() > MAX_GALLERY_PICS && e == BioError::TooManyPics,
            },
    {
        if pics.len() > MAX_GALLERY_PICS {
            return Err(BioError::TooManyPics);
        }
        let mut blobs: Vec<NamedBlob> = Vec::new();
        let mut i: usize = 0;
        assert(bio_blobs@.take(0) =~= Seq::<NamedBlob>::empty());
        while i < bio_blobs.len()
            invariant
                i <= bio_blobs.len(),
                blobs@ == texts_of(bio_blobs@.take(i as int)),
            decreases bio_blobs.len() - i,
        {
            proof {
                assert(bio_blobs@.take(i + 1).drop_last() =~= bio_blobs@.take(i as int));
            }
            if is_named(&bio_blobs[i].name, BIO_TEXT_NAME) {
                blobs.push(bio_blobs[i].clone());
            }
            i += 1;
        }
        assert(bio_blobs@.take(bio_blobs.len() as int) =~= bio_blobs@);
        let ghost kept = blobs@;
        let mut k: usize = 0;
        while k < pics.len()
            invariant
                k <= pics.len(),
                pics.len() <= MAX_GALLERY_PICS,
                blobs@.len() == kept.len() + k,
                blobs@.take(kept.len() as int) == kept,
                forall|j: int|
                    0 <= j < k ==> (#[trigger] blobs@[kept.len() + j]).hash == pics[j] && blobs@[kept.len()
                        + j].name@ == gallery_name(j),
            decreases pics.len() - k,
        {
            let ghost before = blobs@;
            blobs.push(NamedBlob { name: name_of_pic(k), hash: pics[k] });
            proof {
                assert(blobs@.take(kept.len() as int) =~= before.take(kept.len() as int));
                assert forall|j: int| 0 <= j < k + 1 implies (#[trigger] blobs@[kept.len() + j]).hash
                    == pics[j] && blobs@[kept.len() + j].name@ == gallery_name(j) by {
                    if j < k {
                        assert(blobs@[kept.len() + j] == before[kept.len() + j]);
                    }
                }
            }
            k += 1;
        }
        proof {
            let gallery = blobs@.skip(kept.len() as int);
            assert forall|i: int| 0 <= i < pics.len() implies (#[trigger] gallery[i]).hash == pics[i]
                && gallery[i].name@ == gallery_name(i) by {
                assert(gallery[i] == blobs@[kept.len() + i]);
            }
        }
        Ok(blobs)
    }
}

/// What is done with the bio row of the local author on the active
/// document.
#[derive(Debug, Clone, Copy, PartialEq, Eq, Structural)]
pub enum BioAction {
    /// Point the row at the bio collection of the settings.
    Publish,
    /// Delete the row.
    Withdraw,
    /// Leave the document as it is.
    Nothing,
}

impl Service {
    /// Decides on the bio row: a shared bio is published where the settings
    /// hold one; a bio that is not shared is withdrawn.
    pub fn update_my_bio_on_doc(should_post_bio: bool, has_bio_entry: bool) -> (action: BioAction)
        ensures
            action == if !should_post_bio {
                BioAction::Withdraw
            } else if has_bio_entry {
                BioAction::Publish
            } else {
                BioAction::Nothing
            },
    {
        if should_post_bio {
            if has_bio_entry {
                BioAction::Publish
            } else {
                BioAction::Nothing
            }
        } else {
            BioAction::Withdraw
        }
    }

    /// Whether the change of a setting calls for a new decision on the bio
    /// row: it does where the setting is the one that shares the bio and its
    /// new value is a flag.
    pub fn handle_setting_change(key: &str, new: &StoreValue) -> (update_bio: bool)
        ensures
            update_bio == (key@ == SHARE_NEARBY_PUBLIC_BIO@ && new is Bool),
    {
        let name = key.to_owned();
        match new {
            StoreValue::Bool(_) => is_named(&name, SHARE_NEARBY_PUBLIC_BIO),
            _ => false,
        }
    }
}

} // verus!
