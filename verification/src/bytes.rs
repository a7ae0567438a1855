//! Fixed-width integer byte layouts used by the wire frame: big-endian for the
//! frame header and trailer, little-endian for the payload fields.

use vstd::prelude::*;
use vstd::slice::slice_index_get;

verus! {

/// The two big-endian bytes of a 16-bit value.
pub open spec fn spec_u16_be(x: u16) -> Seq<u8> {
    seq![(x >> 8) as u8, x as u8]
}

/// The four big-endian bytes of a 32-bit value.
pub open spec fn spec_u32_be(x: u32) -> Seq<u8> {
    seq![(x >> 24) as u8, (x >> 16) as u8, (x >> 8) as u8, x as u8]
}

/// The four little-endian bytes of a 32-bit value.
pub open spec fn spec_u32_le(x: u32) -> Seq<u8> {
    seq![x as u8, (x >> 8) as u8, (x >> 16) as u8, (x >> 24) as u8]
}

/// The eight little-endian bytes of a 64-bit value.
pub open spec fn spec_u64_le(x: u64) -> Seq<u8> {
    seq![
        x as u8,
        (x >> 8) as u8,
        (x >> 16) as u8,
        (x >> 24) as u8,
        (x >> 32) as u8,
        (x >> 40) as u8,
        (x >> 48) as u8,
        (x >> 56) as u8,
    ]
}

/// The sixteen little-endian bytes of a 128-bit value.
pub open spec fn spec_u128_le(x: u128) -> Seq<u8> {
    seq![
        x as u8,
        (x >> 8) as u8,
        (x >> 16) as u8,
        (x >> 24) as u8,
        (x >> 32) as u8,
        (x >> 40) as u8,
        (x >> 48) as u8,
        (x >> 56) as u8,
        (x >> 64) as u8,
        (x >> 72) as u8,
        (x >> 80) as u8,
        (x >> 88) as u8,
        (x >> 96) as u8,
        (x >> 104) as u8,
        (x >> 112) as u8,
        (x >> 120) as u8,
    ]
}

/// The 16-bit value whose big-endian bytes stand at `off` in `s`.
pub open spec fn spec_u16_be_val(s: Seq<u8>, off: int) -> u16 {
    ((s[off] as u16) << 8) | (s[off + 1] as u16)
}

/// The 32-bit value whose big-endian bytes stand at `off` in `s`.
pub open spec fn spec_u32_be_val(s: Seq<u8>, off: int) -> u32 {
    ((s[off] as u32) << 24) | ((s[off + 1] as u32) << 16) | ((s[off + 2] as u32) << 8) | (s[off
        + 3] as u32)
}

/// The 32-bit value whose little-endian bytes stand at `off` in `s`.
pub open spec fn spec_u32_le_val(s: Seq<u8>, off: int) -> u32 {
    (s[off] as u32) | ((s[off + 1] as u32) << 8) | ((s[off + 2] as u32) << 16) | ((s[off
        + 3] as u32) << 24)
}

/// The 64-bit value whose little-endian bytes stand at `off` in `s`.
pub open spec fn spec_u64_le_val(s: Seq<u8>, off: int) -> u64 {
    (s[off] as u64) | ((s[off + 1] as u64) << 8) | ((s[off + 2] as u64) << 16) | ((s[off
        + 3] as u64) << 24) | ((s[off + 4] as u64) << 32) | ((s[off + 5] as u64) << 40) | ((s[off
        + 6] as u64) << 48) | ((s[off + 7] as u64) << 56)
}

/// The 128-bit value whose little-endian bytes stand at `off` in `s`.
pub open spec fn spec_u128_le_val(s: Seq<u8>, off: int) -> u128 {
    (s[off] as u128) | ((s[off + 1] as u128) << 8) | ((s[off + 2] as u128) << 16) | ((s[off
        + 3] as u128) << 24) | ((s[off + 4] as u128) << 32) | ((s[off + 5] as u128) << 40) | ((s[off
        + 6] as u128) << 48) | ((s[off + 7] as u128) << 56) | ((s[off + 8] as u128) << 64) | ((s[off
        + 9] as u128) << 72) | ((s[off + 10] as u128) << 80) | ((s[off + 11] as u128) << 88)
        | ((s[off + 12] as u128) << 96) | ((s[off + 13] as u128) << 104) | ((s[off
        + 14] as u128) << 112) | ((s[off + 15] as u128) << 120)
}

/// Reassembling the big-endian bytes of a 16-bit value gives the value back.
pub proof fn lemma_u16_be_val_at(s: Seq<u8>, off: int, x: u16)
    requires
        0 <= off,
        off + 2 <= s.len(),
        s.subrange(off, off + 2) == spec_u16_be(x),
    ensures
        spec_u16_be_val(s, off) == x,
{
    assert(s[off] == spec_u16_be(x)[0]);
    assert(s[off + 1] == spec_u16_be(x)[1]);
    assert((((x >> 8) as u8 as u16) << 8) | (x as u8 as u16) == x) by (bit_vector);
}

/// Reassembling the big-endian bytes of a 32-bit value gives the value back.
pub proof fn lemma_u32_be_val_at(s: Seq<u8>, off: int, x: u32)
    requires
        0 <= off,
        off + 4 <= s.len(),
        s.subrange(off, off + 4) == spec_u32_be(x),
    ensures
        spec_u32_be_val(s, off) == x,
{
    assert(s[off] == spec_u32_be(x)[0]);
    assert(s[off + 1] == spec_u32_be(x)[1]);
    assert(s[off + 2] == spec_u32_be(x)[2]);
    assert(s[off + 3] == spec_u32_be(x)[3]);
    assert((((x >> 24) as u8 as u32) << 24) | (((x >> 16) as u8 as u32) << 16) | (((x
        >> 8) as u8 as u32) << 8) | (x as u8 as u32) == x) by (bit_vector);
}

/// Reassembling the little-endian bytes of a 32-bit value gives the value back.
pub proof fn lemma_u32_le_val_at(s: Seq<u8>, off: int, x: u32)
    requires
        0 <= off,
        off + 4 <= s.len(),
        s.subrange(off, off + 4) == spec_u32_le(x),
    ensures
        spec_u32_le_val(s, off) == x,
{
    assert(s[off] == spec_u32_le(x)[0]);
    assert(s[off + 1] == spec_u32_le(x)[1]);
    assert(s[off + 2] == spec_u32_le(x)[2]);
    assert(s[off + 3] == spec_u32_le(x)[3]);
    assert((x as u8 as u32) | (((x >> 8) as u8 as u32) << 8) | (((x >> 16) as u8 as u32) << 16) | (((
    x >> 24) as u8 as u32) << 24) == x) by (bit_vector);
}

/// Reassembling the little-endian bytes of a 64-bit value gives the value back.
pub proof fn lemma_u64_le_val_at(s: Seq<u8>, off: int, x: u64)
    requires
        0 <= off,
        off + 8 <= s.len(),
        s.subrange(off, off + 8) == spec_u64_le(x),
    ensures
        spec_u64_le_val(s, off) == x,
{
    assert forall|j: int| 0 <= j < 8 implies s[off + j] == spec_u64_le(x)[j] by {
        assert(s.subrange(off, off + 8)[j] == s[off + j]);
    }
    assert(s[off] == spec_u64_le(x)[0]);
    assert(s[off + 1] == spec_u64_le(x)[1]);
    assert(s[off + 2] == spec_u64_le(x)[2]);
    assert(s[off + 3] == spec_u64_le(x)[3]);
    assert(s[off + 4] == spec_u64_le(x)[4]);
    assert(s[off + 5] == spec_u64_le(x)[5]);
    assert(s[off + 6] == spec_u64_le(x)[6]);
    assert(s[off + 7] == spec_u64_le(x)[7]);
    assert((x as u8 as u64) | (((x >> 8) as u8 as u64) << 8) | (((x >> 16) as u8 as u64) << 16) | (((
    x >> 24) as u8 as u64) << 24) | (((x >> 32) as u8 as u64) << 32) | (((x >> 40) as u8 as u64)
        << 40) | (((x >> 48) as u8 as u64) << 48) | (((x >> 56) as u8 as u64) << 56) == x)
        by (bit_vector);
}

/// Reassembling the little-endian bytes of a 128-bit value gives the value back.
pub proof fn lemma_u128_le_val_at(s: Seq<u8>, off: int, x: u128)
    requires
        0 <= off,
        off + 16 <= s.len(),
        s.subrange(off, off + 16) == spec_u128_le(x),
    ensures
        spec_u128_le_val(s, off) == x,
{
    assert forall|j: int| 0 <= j < 16 implies s[off + j] == spec_u128_le(x)[j] by {
        assert(s.subrange(off, off + 16)[j] == s[off + j]);
    }
    assert(s[off] == spec_u128_le(x)[0]);
    assert(s[off + 1] == spec_u128_le(x)[1]);
    assert(s[off + 2] == spec_u128_le(x)[2]);
    assert(s[off + 3] == spec_u128_le(x)[3]);
    assert(s[off + 4] == spec_u128_le(x)[4]);
    assert(s[off + 5] == spec_u128_le(x)[5]);
    assert(s[off + 6] == spec_u128_le(x)[6]);
    assert(s[off + 7] == spec_u128_le(x)[7]);
    assert(s[off + 8] == spec_u128_le(x)[8]);
    assert(s[off + 9] == spec_u128_le(x)[9]);
    assert(s[off + 10] == spec_u128_le(x)[10]);
    assert(s[off + 11] == spec_u128_le(x)[11]);
    assert(s[off + 12] == spec_u128_le(x)[12]);
    assert(s[off + 13] == spec_u128_le(x)[13]);
    assert(s[off + 14] == spec_u128_le(x)[14]);
    assert(s[off + 15] == spec_u128_le(x)[15]);
    assert((x as u8 as u128) | (((x >> 8) as u8 as u128) << 8) | (((x >> 16) as u8 as u128) << 16)
        | (((x >> 24) as u8 as u128) << 24) | (((x >> 32) as u8 as u128) << 32) | (((x
    >> 40) as u8 as u128) << 40) | (((x >> 48) as u8 as u128) << 48) | (((x >> 56) as u8 as u128)
        << 56) | (((x >> 64) as u8 as u128) << 64) | (((x >> 72) as u8 as u128) << 72) | (((x
    >> 80) as u8 as u128) << 80) | (((x >> 88) as u8 as u128) << 88) | (((x >> 96) as u8 as u128)
        << 96) | (((x >> 104) as u8 as u128) << 104) | (((x >> 112) as u8 as u128) << 112) | (((x
    >> 120) as u8 as u128) << 120) == x) by (bit_vector);
}

/// Appends the big-endian bytes of a 16-bit value.
pub fn put_u16_be(out: &mut Vec<u8>, x: u16)
    ensures
        final(out)@ == old(out)@ + spec_u16_be(x),
{
    out.push((x >> 8) as u8);
    out.push(x as u8);
    assert(out@ =~= old(out)@ + spec_u16_be(x));
}

/// Appends the big-endian bytes of a 32-bit value.
pub fn put_u32_be(out: &mut Vec<u8>, x: u32)
    ensures
        final(out)@ == old(out)@ + spec_u32_be(x),
{
    out.push((x >> 24) as u8);
    out.push((x >> 16) as u8);
    out.push((x >> 8) as u8);
    out.push(x as u8);
    assert(out@ =~= old(out)@ + spec_u32_be(x));
}

/// Appends the little-endian bytes of a 32-bit value.
pub fn put_u32_le(out: &mut Vec<u8>, x: u32)
    ensures
        final(out)@ == old(out)@ + spec_u32_le(x),
{
    out.push(x as u8);
    out.push((x >> 8) as u8);
    out.push((x >> 16) as u8);
    out.push((x >> 24) as u8);
    assert(out@ =~= old(out)@ + spec_u32_le(x));
}

/// Appends the little-endian bytes of a 64-bit value.
pub fn put_u64_le(out: &mut Vec<u8>, x: u64)
    ensures
        final(out)@ == old(out)@ + spec_u64_le(x),
{
    out.push(x as u8);
    out.push((x >> 8) as u8);
    out.push((x >> 16) as u8);
    out.push((x >> 24) as u8);
    out.push((x >> 32) as u8);
    out.push((x >> 40) as u8);
    out.push((x >> 48) as u8);
    out.push((x >> 56) as u8);
    assert(out@ =~= old(out)@ + spec_u64_le(x));
}

/// Appends the little-endian bytes of a 128-bit value.
pub fn put_u128_le(out: &mut Vec<u8>, x: u128)
    ensures
        final(out)@ == old(out)@ + spec_u128_le(x),
{
    out.push(x as u8);
    out.push((x >> 8) as u8);
    out.push((x >> 16) as u8);
    out.push((x >> 24) as u8);
    out.push((x >> 32) as u8);
    out.push((x >> 40) as u8);
    out.push((x >> 48) as u8);
    out.push((x >> 56) as u8);
    out.push((x >> 64) as u8);
    out.push((x >> 72) as u8);
    out.push((x >> 80) as u8);
    out.push((x >> 88) as u8);
    out.push((x >> 96) as u8);
    out.push((x >> 104) as u8);
    out.push((x >> 112) as u8);
    out.push((x >> 120) as u8);
    assert(out@ =~= old(out)@ + spec_u128_le(x));
}

/// Reads the 16-bit big-endian value at `off`.
pub fn read_u16_be(s: &[u8], off: usize) -> (r: u16)
    requires
        off + 2 <= s@.len(),
    ensures
        r == spec_u16_be_val(s@, off as int),
{
    let n: usize = s.len();
    assert(off + 2 <= n);
    let b0 = *slice_index_get(s, off);
    let b1 = *slice_index_get(s, off + 1);
    ((b0 as u16) << 8) | (b1 as u16)
}

/// Reads the 32-bit big-endian value at `off`.
pub fn read_u32_be(s: &[u8], off: usize) -> (r: u32)
    requires
        off + 4 <= s@.len(),
    ensures
        r == spec_u32_be_val(s@, off as int),
{
    let n: usize = s.len();
    assert(off + 4 <= n);
    let b0 = *slice_index_get(s, off);
    let b1 = *slice_index_get(s, off + 1);
    let b2 = *slice_index_get(s, off + 2);
    let b3 = *slice_index_get(s, off + 3);
    ((b0 as u32) << 24) | ((b1 as u32) << 16) | ((b2 as u32) << 8) | (b3 as u32)
}

/// Reads the 32-bit little-endian value at `off`.
pub fn read_u32_le(s: &[u8], off: usize) -> (r: u32)
    requires
        off + 4 <= s@.len(),
    ensures
        r == spec_u32_le_val(s@, off as int),
{
    let n: usize = s.len();
    assert(off + 4 <= n);
    let b0 = *slice_index_get(s, off);
    let b1 = *slice_index_get(s, off + 1);
    let b2 = *slice_index_get(s, off + 2);
    let b3 = *slice_index_get(s, off + 3);
    (b0 as u32) | ((b1 as u32) << 8) | ((b2 as u32) << 16) | ((b3 as u32) << 24)
}

/// Reads the 64-bit little-endian value at `off`.
pub fn read_u64_le(s: &[u8], off: usize) -> (r: u64)
    requires
        off + 8 <= s@.len(),
    ensures
        r == spec_u64_le_val(s@, off as int),
{
    let n: usize = s.len();
    assert(off + 8 <= n);
    let b0 = *slice_index_get(s, off);
    let b1 = *slice_index_get(s, off + 1);
    let b2 = *slice_index_get(s, off + 2);
    let b3 = *slice_index_get(s, off + 3);
    let b4 = *slice_index_get(s, off + 4);
    let b5 = *slice_index_get(s, off + 5);
    let b6 = *slice_index_get(s, off + 6);
    let b7 = *slice_index_get(s, off + 7);
    (b0 as u64) | ((b1 as u64) << 8) | ((b2 as u64) << 16) | ((b3 as u64) << 24) | ((b4 as u64)
        << 32) | ((b5 as u64) << 40) | ((b6 as u64) << 48) | ((b7 as u64) << 56)
}

/// Reads the 128-bit little-endian value at `off`.
pub fn read_u128_le(s: &[u8], off: usize) -> (r: u128)
    requires
        off + 16 <= s@.len(),
    ensures
        r == spec_u128_le_val(s@, off as int),
{
    let n: usize = s.len();
    assert(off + 16 <= n);
    let b0 = *slice_index_get(s, off);
    let b1 = *slice_index_get(s, off + 1);
    let b2 = *slice_index_get(s, off + 2);
    let b3 = *slice_index_get(s, off + 3);
    let b4 = *slice_index_get(s, off + 4);
    let b5 = *slice_index_get(s, off + 5);
    let b6 = *slice_index_get(s, off + 6);
    let b7 = *slice_index_get(s, off + 7);
    let b8 = *slice_index_get(s, off + 8);
    let b9 = *slice_index_get(s, off + 9);
    let b10 = *slice_index_get(s, off + 10);
    let b11 = *slice_index_get(s, off + 11);
    let b12 = *slice_index_get(s, off + 12);
    let b13 = *slice_index_get(s, off + 13);
    let b14 = *slice_index_get(s, off + 14);
    let b15 = *slice_index_get(s, off + 15);
    (b0 as u128) | ((b1 as u128) << 8) | ((b2 as u128) << 16) | ((b3 as u128) << 24) | ((b4 as u128)
        << 32) | ((b5 as u128) << 40) | ((b6 as u128) << 48) | ((b7 as u128) << 56) | ((b8 as u128)
        << 64) | ((b9 as u128) << 72) | ((b10 as u128) << 80) | ((b11 as u128) << 88) | ((
    b12 as u128) << 96) | ((b13 as u128) << 104) | ((b14 as u128) << 112) | ((b15 as u128) << 120)
}

/// Appends a byte slice to a vector.
pub fn append_bytes(out: &mut Vec<u8>, data: &[u8])
    ensures
        final(out)@ == old(out)@ + data@,
{
    let len = data.len();
    let mut i: usize = 0;
    while i < len
        invariant
            i <= len,
            len == data@.len(),
            out@ == old(out)@ + data@.subrange(0, i as int),
        decreases len - i,
    {
        out.push(*slice_index_get(data, i));
        proof {
            assert(old(out)@ + data@.subrange(0, i as int) + seq![data@[i as int]] =~= old(out)@
                + data@.subrange(0, i + 1));
        }
        i = i + 1;
    }
    assert(out@ =~= old(out)@ + data@);
}

} // verus!
