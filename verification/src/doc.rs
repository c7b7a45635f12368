//! The document session: the rows of the active document as the core sees
//! them, the buffer that holds a remote row back until its content is here,
//! and the sorting of rows by key.

use crate::data::{BlobHash, PublicKey, WideId};
use crate::identity::model::{IDENTITY, ID_PIC};
use crate::nearby::model::{BIO, MESSAGES, MESSAGE_PAYLOADS, PUBLIC_STATUS};
use crate::nearby::post::starts_with;
use crate::wide_map::WideMap;
use vstd::prelude::*;
use vstd::string::StringSliceAdditionalSpecFns;

verus! {

/// One row of a document: a key, its author, and the address and size of
/// the content.
#[derive(Debug)]
pub struct Entry {
    pub key: Vec<u8>,
    pub author: WideId,
    pub content_hash: BlobHash,
    pub content_len: u64,
    pub timestamp: u64,
}

/// Whether the bytes of a row's content are on this node.
#[derive(Debug, Clone, Copy, PartialEq, Eq, Structural)]
pub enum ContentStatus {
    Complete,
    Incomplete,
    Missing,
}

/// Where a row came from: this node, or a peer.
#[derive(Debug, Clone, Copy, PartialEq, Eq, Structural)]
pub enum Origin {
    Local,
    Remote(PublicKey),
}

/// A row handed on to the domain handlers.
#[derive(Debug)]
pub struct InsertEntry {
    pub location: Origin,
    pub entry: Entry,
    pub content_status: ContentStatus,
}

/// What the replication stream of a document reports.
#[derive(Debug)]
pub enum LiveEvent {
    /// This node wrote a row.
    InsertLocal { entry: Entry },
    /// A peer's row arrived, with or without its content.
    InsertRemote { from: PublicKey, entry: Entry, content_status: ContentStatus },
    /// The content with this hash is now complete on this node.
    ContentReady { hash: BlobHash },
    /// Anything else: neighbours coming and going, the end of a sync, an
    /// error of the stream.
    Other,
}

/// What a row is, going by its key.
#[derive(Debug, Clone, Copy, PartialEq, Eq, Structural)]
pub enum KeyKind {
    /// `status`
    Status,
    /// `public_bio`
    Bio,
    /// `identity`
    Identity,
    /// `id_pic`
    IdPic,
    /// `messages/<created_at>`
    Message,
    /// `message_payloads/<created_at>`; such rows are passed over, the
    /// payload is fetched when it is asked for.
    Payload,
    /// Every other key; such rows are passed over.
    Other,
}

/// The kind of the row with the given key. The exact keys come first; a
/// key that only begins with `messages` is a post, one that begins with
/// `message_payloads` points to a payload.
pub open spec fn kind_of_key(key: Seq<u8>) -> KeyKind {
    if key == PUBLIC_STATUS.spec_bytes() {
        KeyKind::Status
    } else if key == BIO.spec_bytes() {
        KeyKind::Bio
    } else if key == IDENTITY.spec_bytes() {
        KeyKind::Identity
    } else if key == ID_PIC.spec_bytes() {
        KeyKind::IdPic
    } else if MESSAGES.spec_bytes().is_prefix_of(key) {
        KeyKind::Message
    } else if MESSAGE_PAYLOADS.spec_bytes().is_prefix_of(key) {
        KeyKind::Payload
    } else {
        KeyKind::Other
    }
}

/// Whether two keys are the same bytes.
pub fn same_key(a: &[u8], b: &[u8]) -> (same: bool)
    ensures
        same == (a@ == b@),
{
    if a.len() != b.len() {
        return false;
    }
    let same = starts_with(a, b);
    proof {
        if same {
            assert(a@ =~= b@);
        }
    }
    same
}

/// Sorts a row by its key.
pub fn classify_key(key: &[u8]) -> (kind: KeyKind)
    ensures
        kind == kind_of_key(key@),
{
    if same_key(key, PUBLIC_STATUS.as_bytes()) {
        KeyKind::Status
    } else if same_key(key, BIO.as_bytes()) {
        KeyKind::Bio
    } else if same_key(key, IDENTITY.as_bytes()) {
        KeyKind::Identity
    } else if same_key(key, ID_PIC.as_bytes()) {
        KeyKind::IdPic
    } else if starts_with(key, MESSAGES.as_bytes()) {
        KeyKind::Message
    } else if starts_with(key, MESSAGE_PAYLOADS.as_bytes()) {
        KeyKind::Payload
    } else {
        KeyKind::Other
    }
}

/// The key of a row.
pub fn key_of(entry: &Entry) -> (key: &[u8])
    ensures
        key@ == entry.key@,
{
    entry.key.as_slice()
}

/// The key can be cut behind `prefix` and the one byte that follows it.
pub open spec fn has_value_after(prefix: &str, key: &str) -> bool {
    prefix.len() < key.len() && key.is_char_boundary((prefix.len() + 1) as usize)
}

/// The text that stands in `key` behind `prefix` and the one byte that
/// follows it.
pub open spec fn text_after(prefix: &str, key: &str) -> Seq<char> {
    vstd::utf8::decode_utf8(
        key.spec_bytes().subrange(prefix.len() + 1, key.spec_bytes().len() as int),
    )
}

/// What stands in `key` behind `prefix` and the one byte that follows it.
/// The key has to be long enough for that, and must not be cut inside a
/// character.
pub fn value_after<'a>(prefix: &str, key: &'a str) -> (rest: &'a str)
    requires
        has_value_after(prefix, key),
    ensures
        rest@ == text_after(prefix, key),
{
    let (_, rest) = key.split_at(prefix.len() + 1);
    proof {
        vstd::utf8::encode_utf8_decode_utf8(rest@);
    }
    rest
}

/// The bytes of two texts, one behind the other, are the bytes of the
/// joined text.
proof fn lemma_bytes_of_joined(a: Seq<char>, b: Seq<char>)
    ensures
        vstd::utf8::encode_utf8(a + b) == vstd::utf8::encode_utf8(a) + vstd::utf8::encode_utf8(b),
    decreases a.len(),
{
    if a.len() == 0 {
        assert(a + b =~= b);
        assert(vstd::utf8::encode_utf8(a) + vstd::utf8::encode_utf8(b) =~= vstd::utf8::encode_utf8(
            b,
        ));
    } else {
        assert((a + b).drop_first() =~= a.drop_first() + b);
        lemma_bytes_of_joined(a.drop_first(), b);
        assert(vstd::utf8::encode_utf8(a + b) =~= vstd::utf8::encode_utf8(a)
            + vstd::utf8::encode_utf8(b));
    }
}

/// Where two texts are joined, a character begins in the bytes.
proof fn lemma_boundary_between(a: Seq<char>, b: Seq<char>)
    ensures
        vstd::utf8::is_char_boundary(
            vstd::utf8::encode_utf8(a + b),
            vstd::utf8::encode_utf8(a).len() as int,
        ),
    decreases a.len(),
{
    let bytes = vstd::utf8::encode_utf8(a + b);
    vstd::utf8::encode_utf8_valid_utf8(a + b);
    if a.len() > 0 {
        vstd::utf8::encode_utf8_first_scalar(a + b);
        assert((a + b).drop_first() =~= a.drop_first() + b);
        assert(vstd::utf8::pop_first_scalar(bytes) =~= vstd::utf8::encode_utf8(
            a.drop_first() + b,
        ));
        lemma_boundary_between(a.drop_first(), b);
        lemma_bytes_of_joined(a, b);
    }
}

/// A key that is made of a prefix, a mark of one byte and a value has a
/// value behind the prefix, and `value_after` gives that value. The key is
/// one that the machine can hold.
pub proof fn law_value_after(prefix: &str, key: &str, mark: char, value: Seq<char>)
    requires
        (mark as u32) < 0x80,
        key@ == prefix@ + seq![mark] + value,
        key.spec_bytes().len() <= usize::MAX,
    ensures
        has_value_after(prefix, key),
        text_after(prefix, key) == value,
{
    let head = prefix@ + seq![mark];
    lemma_bytes_of_joined(prefix@, seq![mark]);
    lemma_bytes_of_joined(head, value);
    lemma_boundary_between(head, value);
    assert(seq![mark].drop_first() =~= Seq::<char>::empty());
    assert(vstd::utf8::encode_utf8(seq![mark]).len() == 1) by {
        reveal_with_fuel(vstd::utf8::encode_utf8, 2);
    }
    let bytes = key.spec_bytes();
    let cut = prefix.spec_bytes().len() + 1;
    assert(bytes.subrange(cut as int, bytes.len() as int) =~= vstd::utf8::encode_utf8(value));
    vstd::utf8::encode_utf8_decode_utf8(value);
}

/// The row that a stream event brings, before it is passed on or held back.
pub open spec fn row_of(event: LiveEvent) -> Option<InsertEntry> {
    match event {
        LiveEvent::InsertLocal { entry } => Some(
            InsertEntry { location: Origin::Local, entry, content_status: ContentStatus::Complete },
        ),
        LiveEvent::InsertRemote { from, entry, content_status } => Some(
            InsertEntry { location: Origin::Remote(from), entry, content_status },
        ),
        _ => None,
    }
}

/// A row that has to wait: it came from a peer and its content is not
/// complete.
pub open spec fn must_wait(row: InsertEntry) -> bool {
    row.location is Remote && row.content_status != ContentStatus::Complete
}

/// The rows that go downstream on an event, in the order in which they
/// came. A local row and a remote row with complete content pass at once;
/// the rows that waited for a content pass, all of them, when that content
/// is ready.
pub open spec fn passed_on(waiting: Map<BlobHash, Seq<InsertEntry>>, event: LiveEvent) -> Seq<
    InsertEntry,
> {
    match event {
        LiveEvent::ContentReady { hash } => if waiting.contains_key(hash) {
            waiting[hash]
        } else {
            Seq::empty()
        },
        LiveEvent::Other => Seq::empty(),
        _ => if must_wait(row_of(event)->0) {
            Seq::empty()
        } else {
            seq![row_of(event)->0]
        },
    }
}

/// The rows that wait under a hash; none where nothing waits there.
pub open spec fn waiting_for(waiting: Map<BlobHash, Seq<InsertEntry>>, hash: BlobHash) -> Seq<
    InsertEntry,
> {
    if waiting.contains_key(hash) {
        waiting[hash]
    } else {
        Seq::empty()
    }
}

/// The rows that wait after an event. A remote row without complete
/// content waits under the hash of its content, behind the rows that wait
/// there already; the rows whose content is ready wait no longer.
pub open spec fn held_back(waiting: Map<BlobHash, Seq<InsertEntry>>, event: LiveEvent) -> Map<
    BlobHash,
    Seq<InsertEntry>,
> {
    match event {
        LiveEvent::ContentReady { hash } => waiting.remove(hash),
        LiveEvent::Other => waiting,
        _ => if must_wait(row_of(event)->0) {
            let row = row_of(event)->0;
            waiting.insert(
                row.entry.content_hash,
                waiting_for(waiting, row.entry.content_hash).push(row),
            )
        } else {
            waiting
        },
    }
}

/// Every waiting row waits under the hash of its own content, and has to
/// wait; where a hash is held, some row waits under it.
pub open spec fn is_sound(waiting: Map<BlobHash, Seq<InsertEntry>>) -> bool {
    forall|h: BlobHash| #[trigger]
        waiting.contains_key(h) ==> waiting[h].len() > 0 && forall|i: int|
            0 <= i < waiting[h].len() ==> (#[trigger] waiting[h][i]).entry.content_hash == h
                && must_wait(waiting[h][i])
}

/// A row of a peer whose content was not complete when it arrived goes
/// downstream only on the event that reports its content ready, and only
/// after it was held back. No row that waits is lost: a row that is held
/// back joins the rows that wait under its hash, and when a content is
/// ready every row that waited for it goes downstream. The rows that wait
/// stay sound.
pub proof fn law_content_gating(waiting: Map<BlobHash, Seq<InsertEntry>>, event: LiveEvent)
    requires
        is_sound(waiting),
    ensures
        is_sound(held_back(waiting, event)),
        forall|i: int|
            0 <= i < passed_on(waiting, event).len() && must_wait(
                #[trigger] passed_on(waiting, event)[i],
            ) ==> {
                let row = passed_on(waiting, event)[i];
                &&& event == (LiveEvent::ContentReady { hash: row.entry.content_hash })
                &&& waiting_for(waiting, row.entry.content_hash).contains(row)
            },
        forall|h: BlobHash, i: int|
            0 <= i < waiting_for(waiting, h).len() ==> {
                let row = #[trigger] waiting_for(waiting, h)[i];
                if event == (LiveEvent::ContentReady { hash: h }) {
                    passed_on(waiting, event)[i] == row && !held_back(waiting, event).contains_key(h)
                } else {
                    waiting_for(held_back(waiting, event), h)[i] == row
                }
            },
{
    let after = held_back(waiting, event);
    assert forall|h: BlobHash| #[trigger] after.contains_key(h) implies after[h].len() > 0
        && forall|i: int|
        0 <= i < after[h].len() ==> (#[trigger] after[h][i]).entry.content_hash == h && must_wait(
            after[h][i],
        ) by {
        if waiting.contains_key(h) {
            assert(waiting[h].len() > 0);
        }
        assert forall|i: int| 0 <= i < after[h].len() implies (#[trigger] after[h][i]).entry.content_hash
            == h && must_wait(after[h][i]) by {
            if waiting.contains_key(h) && i < waiting[h].len() {
                assert(waiting[h][i].entry.content_hash == h);
            }
        }
    }
    assert forall|i: int|
        0 <= i < passed_on(waiting, event).len() && must_wait(
            #[trigger] passed_on(waiting, event)[i],
        ) implies {
        let row = passed_on(waiting, event)[i];
        &&& event == (LiveEvent::ContentReady { hash: row.entry.content_hash })
        &&& waiting_for(waiting, row.entry.content_hash).contains(row)
    } by {
        if let LiveEvent::ContentReady { hash } = event {
            assert(waiting.contains_key(hash));
            assert(waiting[hash][i].entry.content_hash == hash);
        }
    }
}

/// The rows of remote peers that wait for their content.
pub struct PendingRows {
    pending: WideMap<Vec<InsertEntry>>,
}

impl PendingRows {
    /// The rows that wait, by the hash of their content and in the order in
    /// which they came.
    pub closed spec fn view(&self) -> Map<BlobHash, Seq<InsertEntry>> {
        Map::new(|h: BlobHash| self.pending@.contains_key(h), |h: BlobHash| self.pending@[h]@)
    }

    pub closed spec fn wf(&self) -> bool {
        self.pending.wf() && is_sound(self@)
    }

    /// The rows that wait are sound.
    pub proof fn lemma_sound(&self)
        requires
            self.wf(),
        ensures
            is_sound(self@),
    {
    }

    /// A buffer with nothing waiting.
    pub fn new() -> (buffer: PendingRows)
        ensures
            buffer.wf(),
            buffer@ == Map::<BlobHash, Seq<InsertEntry>>::empty(),
    {
        let buffer = PendingRows { pending: WideMap::new() };
        assert(buffer@ =~= Map::<BlobHash, Seq<InsertEntry>>::empty());
        buffer
    }

    /// Takes one event of the stream and hands on the rows that may go
    /// downstream now.
    pub fn step(&mut self, event: LiveEvent) -> (passed: Vec<InsertEntry>)
        requires
            old(self).wf(),
        ensures
            final(self).wf(),
            final(self)@ == held_back(old(self)@, event),
            passed@ == passed_on(old(self)@, event),
    {
        proof {
            law_content_gating(self@, event);
        }
        let mut passed: Vec<InsertEntry> = Vec::new();
        match event {
            LiveEvent::InsertLocal { entry } => {
                passed.push(
                    InsertEntry {
                        location: Origin::Local,
                        entry,
                        content_status: ContentStatus::Complete,
                    },
                );
                assert(passed@ =~= passed_on(old(self)@, event));
            },
            LiveEvent::InsertRemote { from, entry, content_status } => {
                let row = InsertEntry { location: Origin::Remote(from), entry, content_status };
                if content_status == ContentStatus::Complete {
                    passed.push(row);
                    assert(passed@ =~= passed_on(old(self)@, event));
                } else {
                    let hash_key = row.entry.content_hash;
                    let mut rows = match self.pending.remove(&hash_key) {
                        Some(rows) => rows,
                        None => Vec::new(),
                    };
                    assert(rows@ =~= waiting_for(old(self)@, hash_key));
                    rows.push(row);
                    self.pending.insert(hash_key, rows);
                    assert(self@ =~= held_back(old(self)@, event));
                }
            },
            LiveEvent::ContentReady { hash } => {
                match self.pending.remove(&hash) {
                    Some(rows) => {
                        passed = rows;
                    },
                    None => {},
                }
                assert(self@ =~= held_back(old(self)@, event));
                assert(passed@ =~= passed_on(old(self)@, event));
            },
            LiveEvent::Other => {},
        }
        passed
    }
}

/// A peer counts as live when its last packet came less than this many
/// seconds ago.
pub const ACTIVE_WITHIN_SECS: u64 = 15;

/// How many of the peers are live. For each sync peer the list holds the
/// seconds since its last packet, or nothing where none was received.
pub open spec fn active_peers(last_received: Seq<Option<u64>>) -> nat
    decreases last_received.len(),
{
    if last_received.len() == 0 {
        0
    } else {
        active_peers(last_received.drop_last()) + match last_received.last() {
            Some(secs) if secs < ACTIVE_WITHIN_SECS => 1nat,
            _ => 0nat,
        }
    }
}

pub proof fn lemma_active_peers_bound(last_received: Seq<Option<u64>>)
    ensures
        active_peers(last_received) <= last_received.len(),
    decreases last_received.len(),
{
    if last_received.len() > 0 {
        lemma_active_peers_bound(last_received.drop_last());
    }
}

/// Counts the live peers.
pub fn get_active_connected_peer_count(last_received: &Vec<Option<u64>>) -> (count: u32)
    requires
        last_received.len() <= u32::MAX,
    ensures
        count == active_peers(last_received@),
{
    let mut count: u32 = 0;
    let mut i: usize = 0;
    assert(last_received@.take(0) =~= Seq::<Option<u64>>::empty());
    while i < last_received.len()
        invariant
            i <= last_received.len(),
            last_received.len() <= u32::MAX,
            count == active_peers(last_received@.take(i as int)),
        decreases last_received.len() - i,
    {
        proof {
            assert(last_received@.take(i + 1).drop_last() =~= last_received@.take(i as int));
            lemma_active_peers_bound(last_received@.take(i as int));
        }
        match last_received[i] {
            Some(secs) => {
                if secs < ACTIVE_WITHIN_SECS {
                    count += 1;
                }
            },
            None => {},
        }
        i += 1;
    }
    assert(last_received@.take(last_received.len() as int) =~= last_received@);
    count
}

} // verus!
