//! The fixed-width items of the key-store encoding, read from a byte string
//! at a given place: 64-bit numbers and field elements, both little-endian.

use crate::field::{limb_radix, limbs_value, modulus, FieldElement};
use vstd::prelude::*;

verus! {

/// The width in bytes of an encoded 64-bit number.
pub const WORD_BYTES: usize = 8;

/// The width in bytes of an encoded field element.
pub const FIELD_BYTES: usize = 32;

/// The number that a byte string spells, least significant byte first.
pub open spec fn le_value(bytes: Seq<u8>) -> nat
    decreases bytes.len(),
{
    if bytes.len() == 0 {
        0
    } else {
        (bytes[0] as nat) + 256 * le_value(bytes.drop_first())
    }
}

/// The byte string of a given width that spells a number, least significant
/// byte first; what does not fit in the width is dropped.
pub open spec fn le_bytes(n: nat, width: nat) -> Seq<u8>
    decreases width,
{
    if width == 0 {
        Seq::empty()
    } else {
        seq![(n % 256) as u8] + le_bytes(n / 256, (width - 1) as nat)
    }
}

/// 256 to a power.
pub open spec fn pow256(k: nat) -> nat
    decreases k,
{
    if k == 0 {
        1
    } else {
        256 * pow256((k - 1) as nat)
    }
}

/// The 64-bit number encoded at a place, where eight bytes are left there.
pub open spec fn u64_at(bytes: Seq<u8>, at: int) -> Option<nat> {
    if 0 <= at && at + 8 <= bytes.len() {
        Some(le_value(bytes.subrange(at, at + 8)))
    } else {
        None
    }
}

/// The field element encoded at a place, where 32 bytes are left there and
/// spell a number below the field's order.
pub open spec fn field_at(bytes: Seq<u8>, at: int) -> Option<nat> {
    if 0 <= at && at + 32 <= bytes.len() && le_value(bytes.subrange(at, at + 32)) < modulus() {
        Some(le_value(bytes.subrange(at, at + 32)))
    } else {
        None
    }
}

/// Eight bytes have the power two to the 64.
pub proof fn lemma_pow256_word()
    ensures
        pow256(8) == limb_radix(),
{
    reveal_with_fuel(pow256, 9);
}

/// The value of a byte string is that of its head plus that of its tail,
/// the tail moved up by the head's length.
pub proof fn lemma_le_value_split(bytes: Seq<u8>, k: int)
    requires
        0 <= k <= bytes.len(),
    ensures
        le_value(bytes) == le_value(bytes.subrange(0, k)) + pow256(k as nat) * le_value(
            bytes.subrange(k, bytes.len() as int),
        ),
    decreases k,
{
    let hi = le_value(bytes.subrange(k, bytes.len() as int));
    if k == 0 {
        assert(bytes.subrange(0, bytes.len() as int) =~= bytes);
        assert(le_value(bytes.subrange(0, 0)) == 0);
        assert(pow256(0) == 1);
        assert(pow256(0) * hi == hi) by (nonlinear_arith)
            requires
                pow256(0) == 1,
        ;
    } else {
        let tail = bytes.drop_first();
        let head = bytes.subrange(0, k);
        let p = pow256((k - 1) as nat);
        lemma_le_value_split(tail, k - 1);
        assert(tail.subrange(0, k - 1) =~= head.drop_first());
        assert(tail.subrange(k - 1, tail.len() as int) =~= bytes.subrange(k, bytes.len() as int));
        assert(le_value(tail) == le_value(head.drop_first()) + p * hi);
        assert(le_value(head) == (head[0] as nat) + 256 * le_value(head.drop_first()));
        assert(head[0] == bytes[0]);
        assert(pow256(k as nat) == 256 * p);
        assert(pow256(k as nat) * hi == 256 * (p * hi)) by (nonlinear_arith)
            requires
                pow256(k as nat) == 256 * p,
        ;
    }
}

/// Written bytes have the width asked for.
pub proof fn lemma_le_bytes_len(n: nat, width: nat)
    ensures
        le_bytes(n, width).len() == width,
    decreases width,
{
    if width > 0 {
        lemma_le_bytes_len(n / 256, (width - 1) as nat);
    }
}

/// Reading back what was written gives the number, where it fits in the width.
pub proof fn lemma_le_round_trip(n: nat, width: nat)
    requires
        n < pow256(width),
    ensures
        le_value(le_bytes(n, width)) == n,
    decreases width,
{
    if width > 0 {
        let rest = le_bytes(n / 256, (width - 1) as nat);
        lemma_le_round_trip(n / 256, (width - 1) as nat);
        assert(le_bytes(n, width).drop_first() =~= rest);
    }
}

/// Whether two byte strings have the same first `n` bytes.
pub open spec fn same_start(first: Seq<u8>, second: Seq<u8>, n: int) -> bool {
    &&& 0 <= n <= first.len()
    &&& n <= second.len()
    &&& first.subrange(0, n) == second.subrange(0, n)
}

/// Byte strings with the same start have the same bytes in every stretch of it.
pub proof fn lemma_same_stretch(first: Seq<u8>, second: Seq<u8>, n: int, from: int, to: int)
    requires
        same_start(first, second, n),
        0 <= from <= to <= n,
    ensures
        first.subrange(from, to) == second.subrange(from, to),
{
    assert(first.subrange(from, to) =~= first.subrange(0, n).subrange(from, to));
    assert(second.subrange(from, to) =~= second.subrange(0, n).subrange(from, to));
}

/// A number that is read inside the common start of two byte strings is
/// the same in both.
pub proof fn lemma_u64_same(first: Seq<u8>, second: Seq<u8>, n: int, at: int)
    requires
        same_start(first, second, n),
        u64_at(first, at) is Some,
        at + 8 <= n,
    ensures
        u64_at(second, at) == u64_at(first, at),
{
    lemma_same_stretch(first, second, n, at, at + 8);
}

/// A field element that is read inside the common start of two byte
/// strings is the same in both.
pub proof fn lemma_field_same(first: Seq<u8>, second: Seq<u8>, n: int, at: int)
    requires
        same_start(first, second, n),
        field_at(first, at) is Some,
        at + 32 <= n,
    ensures
        field_at(second, at) == field_at(first, at),
{
    lemma_same_stretch(first, second, n, at, at + 32);
}

/// Reads the 64-bit number at a place.
pub fn read_u64(bytes: &[u8], at: usize) -> (out: Option<u64>)
    ensures
        match out {
            Some(value) => u64_at(bytes@, at as int) == Some(value as nat),
            None => u64_at(bytes@, at as int) is None,
        },
{
    if at > bytes.len() || bytes.len() - at < WORD_BYTES {
        return None;
    }
    let ghost word = bytes@.subrange(at as int, at + 8);
    let b0: u64 = bytes[at] as u64;
    let b1: u64 = bytes[at + 1] as u64;
    let b2: u64 = bytes[at + 2] as u64;
    let b3: u64 = bytes[at + 3] as u64;
    let b4: u64 = bytes[at + 4] as u64;
    let b5: u64 = bytes[at + 5] as u64;
    let b6: u64 = bytes[at + 6] as u64;
    let b7: u64 = bytes[at + 7] as u64;
    proof {
        lemma_word_value(word);
    }
    let value: u64 = b0 + 0x100 * b1 + 0x1_0000 * b2 + 0x100_0000 * b3 + 0x1_0000_0000 * b4
        + 0x100_0000_0000 * b5 + 0x1_0000_0000_0000 * b6 + 0x100_0000_0000_0000 * b7;
    Some(value)
}

/// The value of eight bytes, written out.
proof fn lemma_word_value(b: Seq<u8>)
    requires
        b.len() == 8,
    ensures
        le_value(b) == (b[0] as nat) + 0x100 * (b[1] as nat) + 0x1_0000 * (b[2] as nat)
            + 0x100_0000 * (b[3] as nat) + 0x1_0000_0000 * (b[4] as nat) + 0x100_0000_0000 * (
        b[5] as nat) + 0x1_0000_0000_0000 * (b[6] as nat) + 0x100_0000_0000_0000 * (b[7] as nat),
{
    let t1 = b.drop_first();
    let t2 = t1.drop_first();
    let t3 = t2.drop_first();
    let t4 = t3.drop_first();
    let t5 = t4.drop_first();
    let t6 = t5.drop_first();
    let t7 = t6.drop_first();
    let t8 = t7.drop_first();
    assert(le_value(t8) == 0);
    assert(le_value(t7) == b[7] as nat);
    assert(le_value(t6) == (b[6] as nat) + 256 * le_value(t7));
    assert(le_value(t5) == (b[5] as nat) + 256 * le_value(t6));
    assert(le_value(t4) == (b[4] as nat) + 256 * le_value(t5));
    assert(le_value(t3) == (b[3] as nat) + 256 * le_value(t4));
    assert(le_value(t2) == (b[2] as nat) + 256 * le_value(t3));
    assert(le_value(t1) == (b[1] as nat) + 256 * le_value(t2));
    assert(le_value(b) == (b[0] as nat) + 256 * le_value(t1));
}

/// Reads the field element at a place.
pub fn read_field(bytes: &[u8], at: usize) -> (out: Option<FieldElement>)
    ensures
        match out {
            Some(element) => field_at(bytes@, at as int) == Some(element@),
            None => field_at(bytes@, at as int) is None,
        },
{
    if at > bytes.len() || bytes.len() - at < FIELD_BYTES {
        return None;
    }
    let ghost chunk = bytes@.subrange(at as int, at + 32);
    let l0 = read_u64(bytes, at).unwrap();
    let l1 = read_u64(bytes, at + 8).unwrap();
    let l2 = read_u64(bytes, at + 16).unwrap();
    let l3 = read_u64(bytes, at + 24).unwrap();
    proof {
        let c1 = chunk.subrange(8, 32);
        let c2 = c1.subrange(8, 24);
        let c3 = c2.subrange(8, 16);
        lemma_pow256_word();
        lemma_le_value_split(chunk, 8);
        lemma_le_value_split(c1, 8);
        lemma_le_value_split(c2, 8);
        assert(chunk.subrange(0, 8) =~= bytes@.subrange(at as int, at + 8));
        assert(c1.subrange(0, 8) =~= bytes@.subrange(at + 8, at + 16));
        assert(c2.subrange(0, 8) =~= bytes@.subrange(at + 16, at + 24));
        assert(c3 =~= bytes@.subrange(at + 24, at + 32));
        assert(limbs_value(l0, l1, l2, l3) == le_value(chunk));
    }
    FieldElement::from_limbs([l0, l1, l2, l3])
}

} // verus!
