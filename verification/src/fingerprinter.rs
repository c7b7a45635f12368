//! A fingerprint of a 256-bit value, read out bit by bit: each step says
//! whether the next bit of the value is set, starting at the lowest bit of
//! the first byte.

use vstd::prelude::*;

verus! {

/// The carry that the shift hands from byte `i` to the next byte. A byte
/// carries when the shifted byte is smaller than the byte was.
pub open spec fn carry_out(bytes: Seq<u8>, i: int) -> u8
    decreases i, 1int,
{
    if i < 0 {
        0
    } else if shifted_byte(bytes, i) < bytes[i] {
        1
    } else {
        0
    }
}

/// Byte `i` after the shift: the byte moved up by one bit, with the carry
/// of the byte before it in the lowest bit.
pub open spec fn shifted_byte(bytes: Seq<u8>, i: int) -> u8
    decreases i, 0int,
{
    if i < 0 {
        0
    } else if i == 0 {
        (bytes[i] << 1) | 0
    } else {
        (bytes[i] << 1) | carry_out(bytes, i - 1)
    }
}

/// The bytes with every bit moved up by one place, across the bytes.
pub open spec fn shifted(bytes: Seq<u8>) -> Seq<u8> {
    Seq::new(bytes.len(), |i: int| shifted_byte(bytes, i))
}

/// Bit `k` of the value: bit `k % 8` of byte `k / 8`.
pub open spec fn bit_of(bytes: Seq<u8>, k: int) -> bool {
    (bytes[k / 8] >> ((k % 8) as u8)) & 1 == 1
}

/// The bytes that hold bit `k` alone; all zero from `k = 256` on.
pub open spec fn mark(k: int) -> Seq<u8> {
    Seq::new(
        32,
        |i: int|
            if i == k / 8 && k < 256 {
                1u8 << ((k % 8) as u8)
            } else {
                0u8
            },
    )
}

/// The bytes of `a` and `b`, and-ed one by one.
pub fn and_bytes(a: &[u8; 32], b: &[u8; 32]) -> (result: [u8; 32])
    ensures
        forall|i: int| 0 <= i < 32 ==> result[i] == a[i] & b[i],
{
    let mut result = [0u8;32];
    let mut i: usize = 0;
    while i < 32
        invariant
            i <= 32,
            forall|j: int| 0 <= j < i ==> result[j] == a[j] & b[j],
        decreases 32 - i,
    {
        result[i] = a[i] & b[i];
        i += 1;
    }
    result
}

/// Moves every bit of the bytes up by one place.
pub fn shift_bytes(arr: &mut [u8; 32])
    ensures
        final(arr)@ == shifted(old(arr)@),
{
    let ghost start = arr@;
    let mut carry = 0u8;
    let mut i: usize = 0;
    while i < 32
        invariant
            i <= 32,
            carry == carry_out(start, i - 1),
            carry <= 1,
            forall|j: int| 0 <= j < i ==> arr[j] == shifted_byte(start, j),
            forall|j: int| i <= j < 32 ==> arr[j] == start[j],
        decreases 32 - i,
    {
        let byte = arr[i];
        let new_byte = (byte << 1) | carry;
        carry = if new_byte < byte {
            1u8
        } else {
            0u8
        };
        arr[i] = new_byte;
        i += 1;
    }
    assert(arr@ =~= shifted(start));
}

/// Whether any of the bytes has a bit set.
pub fn or_bytes(a: &[u8; 32]) -> (any: bool)
    ensures
        any == exists|i: int| 0 <= i < 32 && a[i] > 0,
{
    let mut i: usize = 0;
    while i < 32
        invariant
            i <= 32,
            forall|j: int| 0 <= j < i ==> a[j] == 0,
        decreases 32 - i,
    {
        if a[i] > 0 {
            return true;
        }
        i += 1;
    }
    false
}

proof fn lemma_bits(b: u8, j: u8)
    requires
        j < 8,
    ensures
        ((1u8 << j) & b) > 0 <==> (b >> j) & 1 == 1,
        0 & b == 0,
        j < 7 ==> ((1u8 << j) << 1) | 0 == 1u8 << ((j + 1) as u8),
        j < 7 ==> !((1u8 << ((j + 1) as u8)) < (1u8 << j)),
        j == 7 ==> ((1u8 << j) << 1) | 0 == 0,
        j == 7 ==> 0 < (1u8 << j),
        (0u8 << 1) | 1 == 1u8 << 0,
        (0u8 << 1) | 0 == 0,
{
    assert(((1u8 << j) & b) > 0 <==> (b >> j) & 1 == 1) by (bit_vector)
        requires
            j < 8,
    ;
    assert(0 & b == 0) by (bit_vector);
    assert(j < 7 ==> ((1u8 << j) << 1) | 0 == 1u8 << ((j + 1) as u8)) by (bit_vector);
    assert(j < 7 ==> !((1u8 << ((j + 1) as u8)) < (1u8 << j))) by (bit_vector);
    assert(j == 7 ==> ((1u8 << j) << 1) | 0 == 0) by (bit_vector);
    assert(j == 7 ==> 0 < (1u8 << j)) by (bit_vector);
    assert((0u8 << 1) | 1 == 1u8 << 0) by (bit_vector);
    assert((0u8 << 1) | 0 == 0) by (bit_vector);
}

/// What the shift makes of the bytes of one mark, byte by byte.
proof fn lemma_shift_mark_byte(k: int, i: int)
    requires
        0 <= k,
        0 <= i < 32,
    ensures
        shifted_byte(mark(k), i) == mark(k + 1)[i],
        carry_out(mark(k), i) == if k < 256 && i == k / 8 && k % 8 == 7 {
            1u8
        } else {
            0u8
        },
    decreases i,
{
    if i > 0 {
        lemma_shift_mark_byte(k, i - 1);
    }
    let j = (k % 8) as u8;
    lemma_bits(0, j);
    if k < 256 && i == k / 8 {
        assert(mark(k)[i] == 1u8 << j);
    } else {
        assert(mark(k)[i] == 0u8);
    }
    if k + 1 < 256 && i == (k + 1) / 8 {
        assert(mark(k + 1)[i] == 1u8 << (((k + 1) % 8) as u8));
    } else {
        assert(mark(k + 1)[i] == 0u8);
    }
}

/// Shifting the mark of bit `k` gives the mark of bit `k + 1`.
pub proof fn lemma_shift_mark(k: int)
    requires
        0 <= k,
    ensures
        shifted(mark(k)) == mark(k + 1),
{
    assert forall|i: int| 0 <= i < 32 implies shifted(mark(k))[i] == mark(k + 1)[i] by {
        lemma_shift_mark_byte(k, i);
    }
    assert(shifted(mark(k)) =~= mark(k + 1));
}

/// Reads the bits of a 256-bit value one after the other.
pub struct Fingerprinter {
    hash: [u8; 32],
    step: [u8; 32],
    place: Ghost<int>,
}

impl Fingerprinter {
    /// The value that is read.
    pub closed spec fn hash(&self) -> Seq<u8> {
        self.hash@
    }

    /// The number of the bit that the next step reads; from 256 on the
    /// value is read out.
    pub closed spec fn position(&self) -> int {
        self.place@
    }

    pub closed spec fn wf(&self) -> bool {
        &&& 0 <= self.place@
        &&& self.step@ == mark(self.place@)
    }

    /// A reader at the first bit of `hash`.
    pub fn new(hash: [u8; 32]) -> (reader: Fingerprinter)
        ensures
            reader.wf(),
            reader.hash() == hash@,
            reader.position() == 0,
    {
        let mut step = [0u8;32];
        step[0] = 1;
        proof {
            assert(1u8 << 0u8 == 1) by (bit_vector);
            assert(step@ =~= mark(0));
        }
        Fingerprinter { hash, step, place: Ghost(0) }
    }

    /// Goes back to the first bit.
    pub fn reset(&mut self)
        ensures
            final(self).wf(),
            final(self).hash() == old(self).hash(),
            final(self).position() == 0,
    {
        self.step = [0u8;32];
        self.step[0] = 1;
        self.place = Ghost(0);
        proof {
            assert(1u8 << 0u8 == 1) by (bit_vector);
            assert(self.step@ =~= mark(0));
        }
    }

    /// Reads one bit: says whether the bit at the position is set, and moves
    /// on to the next. Once all 256 bits are read, every step says no.
    pub fn iterate(&mut self) -> (set: bool)
        requires
            old(self).wf(),
        ensures
            final(self).wf(),
            final(self).hash() == old(self).hash(),
            final(self).position() == old(self).position() + 1,
            set == (old(self).position() < 256 && bit_of(old(self).hash(), old(self).position())),
    {
        let ghost k = self.place@;
        let output = and_bytes(&self.step, &self.hash);
        shift_bytes(&mut self.step);
        let any_up = or_bytes(&output);
        proof {
            lemma_shift_mark(k);
            let j = (k % 8) as u8;
            assert forall|i: int| 0 <= i < 32 implies (output[i] > 0 <==> (k < 256 && i == k / 8
                && bit_of(self.hash@, k))) by {
                lemma_bits(self.hash@[i], j);
                assert(output[i] == mark(k)[i] & self.hash@[i]);
                if k < 256 && i == k / 8 {
                    assert(mark(k)[i] == 1u8 << j);
                } else {
                    assert(mark(k)[i] == 0u8);
                }
            }
            if k < 256 && bit_of(self.hash@, k) {
                assert(output[k / 8] > 0);
            }
        }
        self.place = Ghost(k + 1);
        any_up
    }
}

} // verus!
