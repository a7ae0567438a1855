//! Source identity: the 128-bit value an agent draws once and keeps in a
//! local file as decimal text. The file I/O lives at the process edge; here
//! stand the drawing of a fresh identity and the exact text round trip.

use vstd::prelude::*;
use vstd::slice::slice_index_get;

verus! {

/// Whether a byte is an ASCII decimal digit.
pub open spec fn spec_is_digit(b: u8) -> bool {
    48 <= b <= 57
}

/// The number the digit bytes of `s` spell, most significant first.
pub open spec fn spec_decimal_val(s: Seq<u8>) -> int
    decreases s.len(),
{
    if s.len() == 0 {
        0
    } else {
        spec_decimal_val(s.drop_last()) * 10 + (s.last() - 48)
    }
}

/// The digit bytes that spell a nonnegative number, most significant first.
pub open spec fn spec_decimal_bytes(v: int) -> Seq<u8>
    decreases v,
{
    if v < 10 {
        seq![(48 + v) as u8]
    } else {
        spec_decimal_bytes(v / 10).push((48 + v % 10) as u8)
    }
}

/// A digit string spells a nonnegative number.
proof fn lemma_decimal_val_nonneg(s: Seq<u8>)
    requires
        forall|j: int| 0 <= j < s.len() ==> spec_is_digit(s[j]),
    ensures
        spec_decimal_val(s) >= 0,
    decreases s.len(),
{
    if s.len() > 0 {
        lemma_decimal_val_nonneg(s.drop_last());
    }
}

/// Appending digits never shrinks the number a digit string spells.
proof fn lemma_decimal_prefix_le(s: Seq<u8>, i: int)
    requires
        0 <= i <= s.len(),
        forall|j: int| 0 <= j < s.len() ==> spec_is_digit(s[j]),
    ensures
        spec_decimal_val(s.subrange(0, i)) <= spec_decimal_val(s),
    decreases s.len() - i,
{
    if i == s.len() {
        assert(s.subrange(0, i) =~= s);
    } else {
        lemma_decimal_prefix_le(s, i + 1);
        let p = s.subrange(0, i + 1);
        assert(p.drop_last() =~= s.subrange(0, i));
        assert(forall|j: int| 0 <= j < s.subrange(0, i).len() ==> spec_is_digit(
            s.subrange(0, i)[j],
        ));
        lemma_decimal_val_nonneg(s.subrange(0, i));
        assert(spec_decimal_val(p) == spec_decimal_val(s.subrange(0, i)) * 10 + (s[i] - 48));
    }
}

/// Parses the decimal text of a source identity: `Some` exactly on a
/// nonempty, all-digit string whose value fits 128 bits, and then the value
/// it spells.
pub fn parse_source_id(bytes: &[u8]) -> (r: Option<u128>)
    ensures
        r == if bytes@.len() > 0 && (forall|j: int|
            0 <= j < bytes@.len() ==> spec_is_digit(bytes@[j])) && spec_decimal_val(bytes@)
            <= u128::MAX {
            Some(spec_decimal_val(bytes@) as u128)
        } else {
            None::<u128>
        },
{
    let n = bytes.len();
    if n == 0 {
        return None;
    }
    let mut value: u128 = 0;
    let mut i: usize = 0;
    while i < n
        invariant
            0 < n == bytes@.len(),
            i <= n,
            forall|j: int| 0 <= j < i ==> spec_is_digit(bytes@[j]),
            value == spec_decimal_val(bytes@.subrange(0, i as int)),
        decreases n - i,
    {
        let b = *slice_index_get(bytes, i);
        if b < 48 || b > 57 {
            return None;
        }
        let d: u128 = (b - 48) as u128;
        proof {
            assert(bytes@.subrange(0, i + 1).drop_last() =~= bytes@.subrange(0, i as int));
            vstd::arithmetic::div_mod::lemma_fundamental_div_mod(
                u128::MAX - (b - 48) as u128 as int,
                10,
            );
        }
        if value > (u128::MAX - d) / 10 {
            proof {
                if bytes@.len() > 0 && (forall|j: int|
                    0 <= j < bytes@.len() ==> spec_is_digit(bytes@[j])) {
                    lemma_decimal_prefix_le(bytes@, i + 1);
                }
            }
            return None;
        }
        value = value * 10 + d;
        i = i + 1;
    }
    proof {
        assert(bytes@.subrange(0, n as int) =~= bytes@);
    }
    Some(value)
}

/// Renders a source identity as the decimal text kept in the identity file.
pub fn format_source_id(id: u128) -> (r: Vec<u8>)
    ensures
        r@ == spec_decimal_bytes(id as int),
    decreases id,
{
    let mut out: Vec<u8>;
    if id >= 10 {
        proof {
            vstd::arithmetic::div_mod::lemma_fundamental_div_mod(id as int, 10);
        }
        out = format_source_id(id / 10);
    } else {
        out = Vec::new();
        assert(out@ =~= Seq::<u8>::empty());
    }
    out.push(48 + (id % 10) as u8);
    assert(out@ =~= spec_decimal_bytes(id as int));
    out
}

/// The decimal text of a number spells that number: nonempty, digits only,
/// and parsing gives the value back.
pub proof fn lemma_decimal_text_round_trip(v: int)
    requires
        v >= 0,
    ensures
        spec_decimal_bytes(v).len() > 0,
        forall|j: int|
            0 <= j < spec_decimal_bytes(v).len() ==> spec_is_digit(spec_decimal_bytes(v)[j]),
        spec_decimal_val(spec_decimal_bytes(v)) == v,
    decreases v,
{
    vstd::arithmetic::div_mod::lemma_fundamental_div_mod(v, 10);
    if v < 10 {
        let s = spec_decimal_bytes(v);
        assert(s.len() == 1);
        assert(s.drop_last() =~= Seq::<u8>::empty());
        assert(spec_decimal_val(s.drop_last()) == 0);
        assert(s.last() == (48 + v) as u8);
        assert((48 + v) as u8 == 48 + v);
        assert(spec_decimal_val(s) == spec_decimal_val(s.drop_last()) * 10 + (s.last() - 48));
        assert(spec_decimal_val(s) == v);
    } else {
        vstd::arithmetic::div_mod::lemma_mod_bound(v, 10);
        lemma_decimal_text_round_trip(v / 10);
        let s = spec_decimal_bytes(v);
        assert(s.drop_last() =~= spec_decimal_bytes(v / 10));
        assert(spec_decimal_val(s.drop_last()) == v / 10);
        assert(s.last() == (48 + v % 10) as u8);
        assert((48 + v % 10) as u8 == 48 + v % 10);
        assert(spec_decimal_val(s) == spec_decimal_val(s.drop_last()) * 10 + (s.last() - 48));
        assert(spec_decimal_val(s) == v);
    }
}

/// Relies on uuid::Uuid::new_v4 and as_u128: a freshly drawn random 128-bit
/// identity. Nothing can be promised of a random value.
#[verifier::external_body]
pub fn fresh_source_id() -> u128 {
    uuid::Uuid::new_v4().as_u128()
}

} // verus!
