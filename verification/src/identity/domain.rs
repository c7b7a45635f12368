//! The identity domain: the identities and portraits seen on the active
//! document.

use crate::data::{BlobHash, PublicKey};
use crate::doc::{same_key, InsertEntry};
use crate::identity::model::{Identity, IDENTITY, ID_PIC};
use crate::wide_map::WideMap;
use vstd::prelude::*;
use vstd::string::StringSliceAdditionalSpecFns;

verus! {

/// No two of the rows are of the same author.
pub open spec fn unique_pks(rows: Seq<Identity>) -> bool {
    forall|i: int, j: int| 0 <= i < j < rows.len() ==> rows[i].pk != rows[j].pk
}

/// Some row is of the author `pk`.
pub open spec fn has_pk(rows: Seq<Identity>, pk: PublicKey) -> bool {
    exists|i: int| 0 <= i < rows.len() && (#[trigger] rows[i]).pk == pk
}

/// The place of the first row of the author `pk`, or the number of rows
/// where there is none.
pub open spec fn first_of(rows: Seq<Identity>, pk: PublicKey) -> int
    decreases rows.len(),
{
    if rows.len() == 0 {
        0
    } else if rows[0].pk == pk {
        0
    } else {
        1 + first_of(rows.drop_first(), pk)
    }
}

/// The rows after `identity` came in: it stands in place of the first row
/// of its author, or at the end where the author had none.
pub open spec fn upserted(rows: Seq<Identity>, identity: Identity) -> Seq<Identity> {
    if has_pk(rows, identity.pk) {
        rows.update(first_of(rows, identity.pk), identity)
    } else {
        rows.push(identity)
    }
}

/// The rows after each of `arrivals` came in, in turn.
pub open spec fn upserted_all(rows: Seq<Identity>, arrivals: Seq<Identity>) -> Seq<Identity>
    decreases arrivals.len(),
{
    if arrivals.len() == 0 {
        rows
    } else {
        upserted(upserted_all(rows, arrivals.drop_last()), arrivals.last())
    }
}

pub proof fn lemma_first_of(rows: Seq<Identity>, pk: PublicKey)
    ensures
        0 <= first_of(rows, pk) <= rows.len(),
        forall|j: int| 0 <= j < first_of(rows, pk) ==> (#[trigger] rows[j]).pk != pk,
        first_of(rows, pk) < rows.len() ==> rows[first_of(rows, pk)].pk == pk,
        first_of(rows, pk) < rows.len() <==> has_pk(rows, pk),
    decreases rows.len(),
{
    if rows.len() > 0 && rows[0].pk != pk {
        let rest = rows.drop_first();
        lemma_first_of(rest, pk);
        assert forall|j: int| 0 <= j < first_of(rows, pk) implies (#[trigger] rows[j]).pk != pk by {
            if j > 0 {
                assert(rest[j - 1].pk != pk);
            }
        }
        if has_pk(rows, pk) {
            let i = choose|i: int| 0 <= i < rows.len() && (#[trigger] rows[i]).pk == pk;
            assert(rest[i - 1].pk == pk);
        }
        if has_pk(rest, pk) {
            let i = choose|i: int| 0 <= i < rest.len() && (#[trigger] rest[i]).pk == pk;
            assert(rows[i + 1].pk == pk);
        }
    } else if rows.len() > 0 {
        assert(rows[0].pk == pk);
    }
}

/// Where each author has at most one row, that holds
/// after an identity came in.
pub proof fn law_upsert_keeps_unique(rows: Seq<Identity>, identity: Identity)
    requires
        unique_pks(rows),
    ensures
        unique_pks(upserted(rows, identity)),
        has_pk(upserted(rows, identity), identity.pk),
{
    lemma_first_of(rows, identity.pk);
    let out = upserted(rows, identity);
    if has_pk(rows, identity.pk) {
        let at = first_of(rows, identity.pk);
        assert(out[at].pk == identity.pk);
        assert forall|i: int, j: int| 0 <= i < j < out.len() implies out[i].pk != out[j].pk by {
            assert(rows[i].pk != rows[j].pk);
        }
    } else {
        assert(out[rows.len() as int].pk == identity.pk);
        assert forall|i: int, j: int| 0 <= i < j < out.len() implies out[i].pk != out[j].pk by {
            if j < rows.len() {
                assert(rows[i].pk != rows[j].pk);
            } else {
                assert(rows[i].pk != identity.pk);
            }
        }
    }
}

/// After any sequence of identities came in, rows
/// that held at most one row for each author, such as those of a new
/// domain, still do.
pub proof fn law_identities_stay_unique(rows: Seq<Identity>, arrivals: Seq<Identity>)
    requires
        unique_pks(rows),
    ensures
        unique_pks(upserted_all(rows, arrivals)),
    decreases arrivals.len(),
{
    if arrivals.len() > 0 {
        law_identities_stay_unique(rows, arrivals.drop_last());
        law_upsert_keeps_unique(upserted_all(rows, arrivals.drop_last()), arrivals.last());
    }
}

/// Rows read with at most one row for each author are held as they were
/// read: taking them in one by one, as `initialize` does, changes nothing.
pub proof fn law_distinct_rows_are_kept(rows: Seq<Identity>)
    requires
        unique_pks(rows),
    ensures
        upserted_all(Seq::empty(), rows) == rows,
    decreases rows.len(),
{
    if rows.len() > 0 {
        let front = rows.drop_last();
        assert forall|i: int, j: int| 0 <= i < j < front.len() implies front[i].pk
            != front[j].pk by {
            assert(rows[i].pk != rows[j].pk);
        }
        law_distinct_rows_are_kept(front);
        if has_pk(front, rows.last().pk) {
            let i = choose|i: int| 0 <= i < front.len() && (#[trigger] front[i]).pk == rows.last().pk;
            assert(rows[i].pk == rows[rows.len() - 1].pk);
        }
        assert(front.push(rows.last()) =~= rows);
    } else {
        assert(rows =~= Seq::<Identity>::empty());
    }
}

/// What the domain reports after a row came in.
#[derive(Debug, Clone, Copy, PartialEq, Eq, Structural)]
pub enum IdentityUpdate {
    /// The identities changed; `added_new` says whether an author was added.
    Identities { added_new: bool },
    /// The portraits changed.
    Pics,
    /// The row was not taken in: its key is not the domain's, or the
    /// identity it points to could not be read.
    Ignored,
}

/// The identities and portraits seen on the active document.
pub struct IdentityDomain {
    identities: Vec<Identity>,
    pics: WideMap<BlobHash>,
}

fn copy_identities(rows: &Vec<Identity>) -> (copy: Vec<Identity>)
    ensures
        copy@ == rows@,
{
    let mut copy: Vec<Identity> = Vec::new();
    let mut i: usize = 0;
    while i < rows.len()
        invariant
            i <= rows.len(),
            copy@ == rows@.take(i as int),
        decreases rows.len() - i,
    {
        copy.push(rows[i].clone());
        assert(rows@.take(i + 1) =~= rows@.take(i as int).push(rows[i as int]));
        i += 1;
    }
    assert(rows@.take(rows.len() as int) =~= rows@);
    copy
}

impl IdentityDomain {
    /// The identities held, in the order in which their authors came in.
    pub closed spec fn rows(&self) -> Seq<Identity> {
        self.identities@
    }

    /// The portrait of each author that has one.
    pub closed spec fn portraits(&self) -> Map<PublicKey, BlobHash> {
        self.pics@
    }

    /// The domain is well formed: it holds at most one identity for each
    /// author.
    pub closed spec fn wf(&self) -> bool {
        self.pics.wf() && unique_pks(self.identities@)
    }

    /// A well-formed domain holds at most one identity for each author, so
    /// the number of its rows is the number of authors it has seen.
    pub proof fn lemma_unique(&self)
        requires
            self.wf(),
        ensures
            unique_pks(self.rows()),
    {
    }

    /// A domain that has seen nothing.
    pub fn new() -> (domain: IdentityDomain)
        ensures
            domain.wf(),
            domain.rows() == Seq::<Identity>::empty(),
            domain.portraits() == Map::<PublicKey, BlobHash>::empty(),
    {
        IdentityDomain { identities: Vec::new(), pics: WideMap::new() }
    }

    /// The portraits after the rows of `pics` came in, in turn: for each
    /// row, its author and the hash of the portrait.
    pub open spec fn with_pics(
        portraits: Map<PublicKey, BlobHash>,
        pics: Seq<(PublicKey, BlobHash)>,
    ) -> Map<PublicKey, BlobHash>
        decreases pics.len(),
    {
        if pics.len() == 0 {
            portraits
        } else {
            Self::with_pics(portraits, pics.drop_last()).insert(pics.last().0, pics.last().1)
        }
    }

    /// Takes what was read from the document in place of what is held: the
    /// identity rows one by one, each in place of the row of its author or
    /// as a new row, and the portrait rows one by one.
    pub fn initialize(&mut self, identities: Vec<Identity>, pics: Vec<(PublicKey, BlobHash)>)
        ensures
            final(self).wf(),
            final(self).rows() == upserted_all(Seq::empty(), identities@),
            final(self).portraits() == Self::with_pics(Map::empty(), pics@),
    {
        self.identities = Vec::new();
        self.pics = WideMap::new();
        let mut k: usize = 0;
        assert(identities@.take(0) =~= Seq::<Identity>::empty());
        while k < identities.len()
            invariant
                k <= identities.len(),
                self.wf(),
                self.pics@ == Map::<PublicKey, BlobHash>::empty(),
                self.identities@ == upserted_all(Seq::empty(), identities@.take(k as int)),
            decreases identities.len() - k,
        {
            proof {
                assert(identities@.take(k + 1).drop_last() =~= identities@.take(k as int));
            }
            self.identity_updated(identities[k].clone());
            k += 1;
        }
        assert(identities@.take(identities.len() as int) =~= identities@);
        let mut i: usize = 0;
        assert(pics@.take(0) =~= Seq::<(PublicKey, BlobHash)>::empty());
        while i < pics.len()
            invariant
                i <= pics.len(),
                self.wf(),
                self.identities@ == upserted_all(Seq::empty(), identities@),
                self.pics@ == Self::with_pics(Map::empty(), pics@.take(i as int)),
            decreases pics.len() - i,
        {
            proof {
                assert(pics@.take(i + 1).drop_last() =~= pics@.take(i as int));
            }
            self.pics.insert(pics[i].0, pics[i].1);
            i += 1;
        }
        assert(pics@.take(pics.len() as int) =~= pics@);
    }

    pub fn identities(&self) -> (rows: Vec<Identity>)
        ensures
            rows@ == self.rows(),
    {
        copy_identities(&self.identities)
    }

    pub fn identities_ref(&self) -> (rows: &Vec<Identity>)
        ensures
            rows@ == self.rows(),
    {
        &self.identities
    }

    pub fn pics(&self) -> (pics: &WideMap<BlobHash>)
        requires
            self.wf(),
        ensures
            pics.wf(),
            pics@ == self.portraits(),
    {
        &self.pics
    }

    /// Takes in the identity of an author: in place of the one held for
    /// that author, or as a new row. Says whether the author is new.
    pub fn identity_updated(&mut self, updated_iden: Identity) -> (added_new: bool)
        requires
            old(self).wf(),
        ensures
            final(self).wf(),
            final(self).rows() == upserted(old(self).rows(), updated_iden),
            final(self).portraits() == old(self).portraits(),
            added_new == !has_pk(old(self).rows(), updated_iden.pk),
    {
        proof {
            lemma_first_of(self.identities@, updated_iden.pk);
            law_upsert_keeps_unique(self.identities@, updated_iden);
        }
        let mut i: usize = 0;
        while i < self.identities.len()
            invariant
                *self == *old(self),
                self.wf(),
                i <= self.identities.len(),
                forall|j: int| 0 <= j < i ==> (#[trigger] self.identities[j]).pk != updated_iden.pk,
            decreases self.identities.len() - i,
        {
            if self.identities[i].pk == updated_iden.pk {
                proof {
                    lemma_first_of(self.identities@, updated_iden.pk);
                    assert(first_of(self.identities@, updated_iden.pk) == i);
                }
                self.identities[i] = updated_iden;
                return false;
            }
            i += 1;
        }
        proof {
            lemma_first_of(self.identities@, updated_iden.pk);
        }
        self.identities.push(updated_iden);
        true
    }

    /// Takes in the portrait of an author.
    pub fn id_pic_updated(&mut self, author: PublicKey, content_hash: BlobHash)
        requires
            old(self).wf(),
        ensures
            final(self).wf(),
            final(self).rows() == old(self).rows(),
            final(self).portraits() == old(self).portraits().insert(author, content_hash),
    {
        self.pics.insert(author, content_hash);
    }

    /// Whether a row under `key` is the domain's: the key is `identity` or
    /// `id_pic`.
    pub fn handles(&self, key: &[u8]) -> (yes: bool)
        ensures
            yes == (key@ == IDENTITY.spec_bytes() || key@ == ID_PIC.spec_bytes()),
    {
        same_key(key, IDENTITY.as_bytes()) || same_key(key, ID_PIC.as_bytes())
    }

    /// Takes in a row of the document. For an identity row the caller has
    /// read the identity that the row points to, and hands it over; where
    /// that could not be read the row is passed over.
    pub fn insert_entry(&mut self, e: &InsertEntry, identity: Option<Identity>) -> (update:
        IdentityUpdate)
        requires
            old(self).wf(),
        ensures
            final(self).wf(),
            if e.entry.key@ == IDENTITY.spec_bytes() {
                match identity {
                    Some(row) => {
                        &&& final(self).rows() == upserted(old(self).rows(), row)
                        &&& final(self).portraits() == old(self).portraits()
                        &&& update == (IdentityUpdate::Identities {
                            added_new: !has_pk(old(self).rows(), row.pk),
                        })
                    },
                    None => {
                        &&& final(self).rows() == old(self).rows()
                        &&& final(self).portraits() == old(self).portraits()
                        &&& update == IdentityUpdate::Ignored
                    },
                }
            } else if e.entry.key@ == ID_PIC.spec_bytes() {
                &&& final(self).rows() == old(self).rows()
                &&& final(self).portraits() == old(self).portraits().insert(
                    e.entry.author,
                    e.entry.content_hash,
                )
                &&& update == IdentityUpdate::Pics
            } else {
                &&& final(self).rows() == old(self).rows()
                &&& final(self).portraits() == old(self).portraits()
                &&& update == IdentityUpdate::Ignored
            },
    {
        if same_key(e.entry.key.as_slice(), IDENTITY.as_bytes()) {
            match identity {
                Some(row) => {
                    let added_new = self.identity_updated(row);
                    IdentityUpdate::Identities { added_new }
                },
                None => IdentityUpdate::Ignored,
            }
        } else if same_key(e.entry.key.as_slice(), ID_PIC.as_bytes()) {
            self.id_pic_updated(e.entry.author, e.entry.content_hash);
            IdentityUpdate::Pics
        } else {
            IdentityUpdate::Ignored
        }
    }
}

} // verus!
