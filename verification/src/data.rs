//! Fixed-width identifiers: 256-bit ids for authors, namespaces and content
//! hashes, and the 128-bit ids that radio peers advertise; and the one
//! way in which keys of a document are put together.

use crate::blob_dispatcher::NamedBlob;
use vstd::bytes::*;
use vstd::prelude::*;
use vstd::string::*;

verus! {

/// The eight bytes of a word, least significant first.
pub open spec fn word_bytes(x: u64) -> Seq<u8> {
    spec_u64_to_le_bytes(x)
}

fn split_word(x: u64) -> (out: Vec<u8>)
    ensures
        out@ == word_bytes(x),
        out@.len() == 8,
{
    u64_to_le_bytes(x)
}

fn join_word(s: &[u8], at: usize) -> (x: u64)
    requires
        at + 8 <= s.len(),
    ensures
        word_bytes(x) == s@.subrange(at as int, at + 8),
{
    proof {
        lemma_auto_spec_u64_to_from_le_bytes();
    }
    u64_from_le_bytes(&s[at..at + 8])
}

/// A word is the bytes it splits into: two words with the same bytes are
/// the same.
pub proof fn lemma_word_bytes_identify(x: u64, y: u64)
    ensures
        word_bytes(x).len() == 8,
        word_bytes(y).len() == 8,
        word_bytes(x) == word_bytes(y) <==> x == y,
{
    lemma_auto_spec_u64_to_from_le_bytes();
}

/// A 256-bit opaque identifier, compared byte for byte.
#[derive(Clone, Copy, PartialEq, Eq, Hash, Debug, Structural)]
pub struct WideId {
    w0: u64,
    w1: u64,
    w2: u64,
    w3: u64,
}

/// A public key of an author.
pub type PublicKey = WideId;

/// A content hash of a blob.
pub type BlobHash = WideId;

impl WideId {
    /// The 32 bytes of the identifier.
    pub closed spec fn bytes(self) -> Seq<u8> {
        word_bytes(self.w0) + word_bytes(self.w1) + word_bytes(self.w2) + word_bytes(self.w3)
    }

    /// The identifier with the given 32 bytes.
    pub closed spec fn of_bytes(bytes: Seq<u8>) -> WideId {
        WideId {
            w0: spec_u64_from_le_bytes(bytes.subrange(0, 8)),
            w1: spec_u64_from_le_bytes(bytes.subrange(8, 16)),
            w2: spec_u64_from_le_bytes(bytes.subrange(16, 24)),
            w3: spec_u64_from_le_bytes(bytes.subrange(24, 32)),
        }
    }

    /// The identifier of 32 bytes has these bytes, and an identifier is the
    /// one of its bytes.
    pub proof fn lemma_of_bytes(self, bytes: Seq<u8>)
        requires
            bytes.len() == 32,
        ensures
            WideId::of_bytes(bytes).bytes() == bytes,
            WideId::of_bytes(self.bytes()) == self,
    {
        lemma_auto_spec_u64_to_from_le_bytes();
        assert(WideId::of_bytes(bytes).bytes() =~= bytes);
        let own = self.bytes();
        assert(own.subrange(0, 8) =~= word_bytes(self.w0));
        assert(own.subrange(8, 16) =~= word_bytes(self.w1));
        assert(own.subrange(16, 24) =~= word_bytes(self.w2));
        assert(own.subrange(24, 32) =~= word_bytes(self.w3));
    }

    /// An identifier is its 32 bytes: two with the same bytes are the same.
    pub proof fn lemma_bytes_identify(self, other: WideId)
        ensures
            self.bytes().len() == 32,
            self.bytes() == other.bytes() <==> self == other,
    {
        lemma_word_bytes_identify(self.w0, other.w0);
        lemma_word_bytes_identify(self.w1, other.w1);
        lemma_word_bytes_identify(self.w2, other.w2);
        lemma_word_bytes_identify(self.w3, other.w3);
        if self.bytes() == other.bytes() {
            let a = self.bytes();
            let b = other.bytes();
            assert(a.subrange(0, 8) =~= word_bytes(self.w0));
            assert(b.subrange(0, 8) =~= word_bytes(other.w0));
            assert(a.subrange(8, 16) =~= word_bytes(self.w1));
            assert(b.subrange(8, 16) =~= word_bytes(other.w1));
            assert(a.subrange(16, 24) =~= word_bytes(self.w2));
            assert(b.subrange(16, 24) =~= word_bytes(other.w2));
            assert(a.subrange(24, 32) =~= word_bytes(self.w3));
            assert(b.subrange(24, 32) =~= word_bytes(other.w3));
        }
    }

    /// The identifier with the given bytes.
    pub fn from_bytes(value: [u8; 32]) -> (id: WideId)
        ensures
            id.bytes() == value@,
            id == WideId::of_bytes(value@),
    {
        let s = value.as_slice();
        let id = WideId {
            w0: join_word(s, 0),
            w1: join_word(s, 8),
            w2: join_word(s, 16),
            w3: join_word(s, 24),
        };
        proof {
            lemma_word_bytes_identify(0, 0);
            assert(id.bytes() =~= value@);
            id.lemma_of_bytes(value@);
        }
        id
    }

    pub fn to_bytes(self) -> (out: [u8; 32])
        ensures
            out@ == self.bytes(),
    {
        self.as_bytes()
    }

    pub fn as_bytes(&self) -> (out: [u8; 32])
        ensures
            out@ == self.bytes(),
    {
        let a = split_word(self.w0);
        let b = split_word(self.w1);
        let c = split_word(self.w2);
        let d = split_word(self.w3);
        let out: [u8; 32] = [
            a[0], a[1], a[2], a[3], a[4], a[5], a[6], a[7],
            b[0], b[1], b[2], b[3], b[4], b[5], b[6], b[7],
            c[0], c[1], c[2], c[3], c[4], c[5], c[6], c[7],
            d[0], d[1], d[2], d[3], d[4], d[5], d[6], d[7],
        ];
        assert(out@ =~= self.bytes());
        out
    }
}

impl From<[u8; 32]> for WideId {
    fn from(value: [u8; 32]) -> (id: WideId) {
        WideId::from_bytes(value)
    }
}

impl vstd::std_specs::convert::FromSpecImpl<[u8; 32]> for WideId {
    open spec fn obeys_from_spec() -> bool {
        true
    }

    open spec fn from_spec(value: [u8; 32]) -> WideId {
        WideId::of_bytes(value@)
    }
}

/// The 128-bit identifier of a radio peer, stable for one advertising
/// session.
#[derive(Clone, Copy, PartialEq, Eq, Hash, Debug, Structural)]
pub struct UUID {
    w0: u64,
    w1: u64,
}

impl UUID {
    /// The 16 bytes of the identifier.
    pub closed spec fn bytes(self) -> Seq<u8> {
        word_bytes(self.w0) + word_bytes(self.w1)
    }

    /// The identifier as one number, which keys the table of radio peers.
    pub closed spec fn number(self) -> u128 {
        (self.w0 as int + self.w1 as int * 0x1_0000_0000_0000_0000) as u128
    }

    /// The identifier with the given 16 bytes.
    pub closed spec fn of_bytes(bytes: Seq<u8>) -> UUID {
        UUID {
            w0: spec_u64_from_le_bytes(bytes.subrange(0, 8)),
            w1: spec_u64_from_le_bytes(bytes.subrange(8, 16)),
        }
    }

    /// The identifier of 16 bytes has these bytes, and an identifier is the
    /// one of its bytes.
    pub proof fn lemma_of_bytes(self, bytes: Seq<u8>)
        requires
            bytes.len() == 16,
        ensures
            UUID::of_bytes(bytes).bytes() == bytes,
            UUID::of_bytes(self.bytes()) == self,
    {
        lemma_auto_spec_u64_to_from_le_bytes();
        assert(UUID::of_bytes(bytes).bytes() =~= bytes);
        let own = self.bytes();
        assert(own.subrange(0, 8) =~= word_bytes(self.w0));
        assert(own.subrange(8, 16) =~= word_bytes(self.w1));
    }

    /// Two identifiers with the same bytes, or the same number, are the same.
    pub proof fn lemma_bytes_identify(self, other: UUID)
        ensures
            self.bytes().len() == 16,
            self.bytes() == other.bytes() <==> self == other,
            self.number() == other.number() <==> self == other,
    {
        lemma_word_bytes_identify(self.w0, other.w0);
        lemma_word_bytes_identify(self.w1, other.w1);
        if self.bytes() == other.bytes() {
            let a = self.bytes();
            let b = other.bytes();
            assert(a.subrange(0, 8) =~= word_bytes(self.w0));
            assert(b.subrange(0, 8) =~= word_bytes(other.w0));
            assert(a.subrange(8, 16) =~= word_bytes(self.w1));
            assert(b.subrange(8, 16) =~= word_bytes(other.w1));
        }
    }

    /// The identifier with the given bytes.
    pub fn from_bytes(value: [u8; 16]) -> (id: UUID)
        ensures
            id.bytes() == value@,
            id == UUID::of_bytes(value@),
    {
        let s = value.as_slice();
        let id = UUID { w0: join_word(s, 0), w1: join_word(s, 8) };
        proof {
            lemma_word_bytes_identify(0, 0);
            assert(id.bytes() =~= value@);
            id.lemma_of_bytes(value@);
        }
        id
    }

    pub fn to_bytes(self) -> (out: [u8; 16])
        ensures
            out@ == self.bytes(),
    {
        self.as_bytes()
    }

    pub fn as_bytes(&self) -> (out: [u8; 16])
        ensures
            out@ == self.bytes(),
    {
        let a = split_word(self.w0);
        let b = split_word(self.w1);
        let out: [u8; 16] = [
            a[0], a[1], a[2], a[3], a[4], a[5], a[6], a[7],
            b[0], b[1], b[2], b[3], b[4], b[5], b[6], b[7],
        ];
        assert(out@ =~= self.bytes());
        out
    }

    /// The key under which the table of radio peers holds this peer.
    pub fn as_u128(&self) -> (n: u128)
        ensures
            n == self.number(),
    {
        self.w0 as u128 + self.w1 as u128 * 0x1_0000_0000_0000_0000
    }
}

impl From<[u8; 16]> for UUID {
    fn from(value: [u8; 16]) -> (id: UUID) {
        UUID::from_bytes(value)
    }
}

impl vstd::std_specs::convert::FromSpecImpl<[u8; 16]> for UUID {
    open spec fn obeys_from_spec() -> bool {
        true
    }

    open spec fn from_spec(value: [u8; 16]) -> UUID {
        UUID::of_bytes(value@)
    }
}

/// The text that an identifier is shown and written into keys as: its 32
/// bytes in base 32, without padding, in lower case. Stands for what
/// `iroh_base::base32::fmt` returns.
pub uninterp spec fn spec_base32(bytes: Seq<u8>) -> Seq<char>;

/// Calls `iroh_base::base32::fmt` on the bytes. The text is believed to be
/// a function of the bytes alone; nothing else is claimed of it.
#[verifier::external_body]
fn base32_text(bytes: &[u8; 32]) -> (text: String)
    ensures
        text@ == spec_base32(bytes@),
{
    iroh_base::base32::fmt(bytes)
}

/// The display form of an identifier.
pub fn wideid_to_string(wide_id: WideId) -> (text: String)
    ensures
        text@ == spec_base32(wide_id.bytes()),
{
    let bytes = wide_id.to_bytes();
    base32_text(&bytes)
}

/// The identifier made of sixteen bytes given one by one.
pub fn uuid_from_bytes(
    b1: u8,
    b2: u8,
    b3: u8,
    b4: u8,
    b5: u8,
    b6: u8,
    b7: u8,
    b8: u8,
    b9: u8,
    b10: u8,
    b11: u8,
    b12: u8,
    b13: u8,
    b14: u8,
    b15: u8,
    b16: u8,
) -> (id: UUID)
    ensures
        id.bytes() == seq![b1, b2, b3, b4, b5, b6, b7, b8, b9, b10, b11, b12, b13, b14, b15, b16],
{
    let bytes: [u8; 16] = [b1, b2, b3, b4, b5, b6, b7, b8, b9, b10, b11, b12, b13, b14, b15, b16];
    assert(bytes@ =~= seq![b1, b2, b3, b4, b5, b6, b7, b8, b9, b10, b11, b12, b13, b14, b15, b16]);
    UUID::from_bytes(bytes)
}

/// Whether the text of `name` is `wanted`.
pub fn is_named(name: &String, wanted: &str) -> (same: bool)
    ensures
        same == (name@ == wanted@),
{
    let wanted = wanted.to_owned();
    *name == wanted
}

/// The place of the first blob with the given name, or the number of
/// blobs where none has it.
pub open spec fn first_named(blobs: Seq<NamedBlob>, name: Seq<char>) -> int
    decreases blobs.len(),
{
    if blobs.len() == 0 {
        0
    } else if blobs[0].name@ == name {
        0
    } else {
        1 + first_named(blobs.drop_first(), name)
    }
}

pub proof fn lemma_first_named(blobs: Seq<NamedBlob>, name: Seq<char>)
    ensures
        0 <= first_named(blobs, name) <= blobs.len(),
        forall|j: int| 0 <= j < first_named(blobs, name) ==> (#[trigger] blobs[j]).name@ != name,
        first_named(blobs, name) < blobs.len() ==> blobs[first_named(blobs, name)].name@ == name,
    decreases blobs.len(),
{
    if blobs.len() > 0 && blobs[0].name@ != name {
        let rest = blobs.drop_first();
        lemma_first_named(rest, name);
        assert forall|j: int| 0 <= j < first_named(blobs, name) implies (#[trigger] blobs[j]).name@
            != name by {
            if j > 0 {
                assert(rest[j - 1].name@ != name);
            }
        }
    }
}

/// Puts the blob `hash` under `name` into the list: in place of the first
/// blob of that name, or at the end where there is none.
pub fn replace_or_add_blob(name: &str, hash: BlobHash, blob_list: &mut Vec<NamedBlob>)
    ensures
        ({
            let at = first_named(old(blob_list)@, name@);
            &&& final(blob_list)@.len() == if at < old(blob_list)@.len() {
                old(blob_list)@.len()
            } else {
                old(blob_list)@.len() + 1
            }
            &&& final(blob_list)@[at].name@ == name@
            &&& final(blob_list)@[at].hash == hash
            &&& forall|j: int|
                0 <= j < old(blob_list)@.len() && j != at ==> final(blob_list)@[j] == old(
                    blob_list,
                )@[j]
        }),
{
    proof {
        lemma_first_named(blob_list@, name@);
    }
    let mut i: usize = 0;
    while i < blob_list.len()
        invariant
            blob_list@ == old(blob_list)@,
            i <= blob_list.len(),
            forall|j: int| 0 <= j < i ==> (#[trigger] blob_list[j]).name@ != name@,
        decreases blob_list.len() - i,
    {
        if is_named(&blob_list[i].name, name) {
            proof {
                lemma_first_named(blob_list@, name@);
                assert(first_named(blob_list@, name@) == i);
            }
            blob_list[i] = NamedBlob { name: name.to_owned(), hash };
            return;
        }
        i += 1;
    }
    proof {
        lemma_first_named(blob_list@, name@);
    }
    blob_list.push(NamedBlob { name: name.to_owned(), hash });
}

/// The character of a decimal digit.
pub open spec fn digit_char(d: int) -> char {
    if d == 0 {
        '0'
    } else if d == 1 {
        '1'
    } else if d == 2 {
        '2'
    } else if d == 3 {
        '3'
    } else if d == 4 {
        '4'
    } else if d == 5 {
        '5'
    } else if d == 6 {
        '6'
    } else if d == 7 {
        '7'
    } else if d == 8 {
        '8'
    } else {
        '9'
    }
}

/// The decimal text of a number, without leading zeros.
pub open spec fn decimal(n: nat) -> Seq<char>
    decreases n,
{
    if n < 10 {
        seq![digit_char(n as int)]
    } else {
        decimal(n / 10).push(digit_char((n % 10) as int))
    }
}

fn digit_text(d: u128) -> (text: &'static str)
    requires
        d < 10,
    ensures
        text@ == seq![digit_char(d as int)],
{
    proof {
        reveal_strlit("0");
        reveal_strlit("1");
        reveal_strlit("2");
        reveal_strlit("3");
        reveal_strlit("4");
        reveal_strlit("5");
        reveal_strlit("6");
        reveal_strlit("7");
        reveal_strlit("8");
        reveal_strlit("9");
    }
    let text = if d == 0 {
        "0"
    } else if d == 1 {
        "1"
    } else if d == 2 {
        "2"
    } else if d == 3 {
        "3"
    } else if d == 4 {
        "4"
    } else if d == 5 {
        "5"
    } else if d == 6 {
        "6"
    } else if d == 7 {
        "7"
    } else if d == 8 {
        "8"
    } else {
        "9"
    };
    assert(text@ =~= seq![digit_char(d as int)]);
    text
}

/// The decimal text of a number.
pub fn decimal_text(n: u128) -> (text: String)
    ensures
        text@ == decimal(n as nat),
    decreases n,
{
    if n < 10 {
        digit_text(n).to_owned()
    } else {
        let mut text = decimal_text(n / 10);
        text.append(digit_text(n % 10));
        assert(text@ =~= decimal(n as nat));
        text
    }
}

/// A key of a document: a prefix, a slash, and what it is about.
pub fn join_key(prefix: &str, value: &str) -> (key: String)
    ensures
        key@ == prefix@ + "/"@ + value@,
{
    let mut key = String::from_str(prefix);
    key.append("/");
    key.append(value);
    key
}

} // verus!
