//! The canonical bit ordering of the protocol.
//!
//! A value is laid out on a wire most-significant-bit first: position 0 of a
//! wire of width `len` carries the bit worth `2^(len-1)`. Encoding and
//! decoding both go through this one definition, so they are mutually
//! inverse by construction.

use vstd::prelude::*;
use vstd::arithmetic::power2::*;

verus! {

/// Bit `i` (most-significant first) of the low `len` bits of `v`.
pub open spec fn bit_at(v: u8, i: int, len: int) -> bool
    recommends
        0 <= i < len <= 8,
{
    (v >> ((len - 1 - i) as u8)) & 1 == 1
}

/// The low `len` bits of `v`, most-significant first.
pub open spec fn bits_of(v: u8, len: nat) -> Seq<bool> {
    Seq::new(len, |i: int| bit_at(v, i, len as int))
}

/// The value of a bit sequence read most-significant-bit first.
pub open spec fn value_of(bits: Seq<bool>) -> nat
    decreases bits.len(),
{
    if bits.len() == 0 {
        0
    } else {
        2 * value_of(bits.drop_last()) + (if bits.last() {
            1nat
        } else {
            0nat
        })
    }
}

proof fn lemma_shift_bit_step(v: u8, k: u8)
    by (bit_vector)
    requires
        1 <= k < 8,
    ensures
        ((v >> k) & 1) == (((v >> 1) >> ((k - 1) as u8)) & 1),
{
}

proof fn lemma_shift_low_bit(v: u8)
    by (bit_vector)
    ensures
        (v >> 1) == v / 2,
        ((v >> 0u8) & 1 == 1) == (v % 2 == 1),
{
}

/// Dropping the last (least significant) bit of `bits_of(v, len)` gives the
/// bit layout of `v / 2` at width `len - 1`.
proof fn lemma_bits_of_unfold(v: u8, len: nat)
    requires
        1 <= len <= 8,
    ensures
        bits_of(v, len).drop_last() =~= bits_of(v / 2, (len - 1) as nat),
        bits_of(v, len).last() == (v % 2 == 1),
{
    lemma_shift_low_bit(v);
    assert forall|i: int| 0 <= i < len - 1 implies bits_of(v, len).drop_last()[i] == bits_of(
        v / 2,
        (len - 1) as nat,
    )[i] by {
        lemma_shift_bit_step(v, (len - 1 - i) as u8);
    }
}

/// The value of the bit layout of `v` at width `len` is `v` reduced modulo
/// `2^len`: the canonical ordering loses nothing but the high bits.
pub proof fn lemma_value_of_bits_of(v: u8, len: nat)
    requires
        len <= 8,
    ensures
        value_of(bits_of(v, len)) == (v as int) % (pow2(len) as int),
    decreases len,
{
    lemma_pow2_pos(len);
    if len == 0 {
        assert(pow2(0) == 1) by {
            lemma2_to64();
        }
    } else {
        lemma_bits_of_unfold(v, len);
        lemma_value_of_bits_of(v / 2, (len - 1) as nat);
        lemma_pow2_unfold(len);
        lemma_pow2_pos((len - 1) as nat);
        let m = pow2((len - 1) as nat) as int;
        assert((v as int) % (2 * m) == 2 * (((v as int) / 2) % m) + (v as int) % 2) by {
            vstd::arithmetic::div_mod::lemma_mod_breakdown(v as int, 2, m);
        }
    }
}

/// At full width nothing is lost: the layout of a byte decodes to the byte.
pub proof fn lemma_value_of_bits_of_full(v: u8)
    ensures
        value_of(bits_of(v, 8)) == v,
{
    lemma_value_of_bits_of(v, 8);
    assert(pow2(8) == 256) by {
        lemma2_to64();
    }
}

/// A bit sequence of length `len` is worth less than `2^len`.
pub proof fn lemma_value_of_bound(bits: Seq<bool>)
    ensures
        value_of(bits) < pow2(bits.len()),
    decreases bits.len(),
{
    if bits.len() == 0 {
        assert(pow2(0) == 1) by {
            lemma2_to64();
        }
    } else {
        lemma_value_of_bound(bits.drop_last());
        lemma_pow2_unfold(bits.len());
    }
}

/// The low `len` bits of `value`, most-significant first, as booleans.
///
/// This is the canonical value-to-wire ordering: position 0 carries the
/// highest-order bit. It also produces the choice bits the Evaluator hands
/// to the oblivious-transfer receiver for a private input.
pub fn to_bit_arr(value: u8, len: u32) -> (r: Vec<bool>)
    requires
        1 <= len <= 8,
    ensures
        r@ == bits_of(value, len as nat),
{
    let mut r: Vec<bool> = Vec::new();
    for i in 0..len
        invariant
            1 <= len <= 8,
            r@.len() == i,
            forall|j: int| 0 <= j < i ==> r@[j] == bit_at(value, j, len as int),
    {
        let b: bool = ((value >> ((len - 1 - i) as u8)) & 1) == 1;
        r.push(b);
    }
    assert(r@ =~= bits_of(value, len as nat));
    r
}

} // verus!
