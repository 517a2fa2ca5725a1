//! Wires: ordered sequences of label pairs and of selected labels.
//!
//! A `GarblingWire` is the garbling side of a value: one (zero, one) label
//! pair per bit position. It is never transmitted whole — doing so would let
//! the Evaluator decode anything. An `EvaluatingWire` is the materialized
//! form: exactly one label per bit position, selected by the actual value.
//! Only evaluating wires ever reach the channel.

use vstd::prelude::*;
use vstd::arithmetic::power2::*;
use crate::MpcError;
use crate::bits::{bits_of, value_of, lemma_value_of_bits_of_full, lemma_value_of_bound};
use crate::labels::{Label, GarblingMode, PlainBit, GarbledBit, plain_zero, plain_one};

verus! {

/// A value-type descriptor: the bit width a wire group is laid out with.
pub trait Wire {
    /// The wire width in bits.
    fn bits() -> u32;
}

/// The descriptor of an 8-bit unsigned integer wire.
#[derive(Clone, Copy, Debug, PartialEq, Eq, Structural)]
pub struct Wire8Bit {}

impl Wire for Wire8Bit {
    fn bits() -> (r: u32)
        ensures
            r == 8,
    {
        8
    }
}

/// The (zero, one) labels of one wire bit position.
#[derive(Clone, Copy, Debug, PartialEq, Eq, Structural)]
pub struct LabelPair {
    pub zero: Label,
    pub one: Label,
}

/// A pair can stand for a bit only if its two labels differ.
pub open spec fn pair_wf(p: LabelPair) -> bool {
    p.zero != p.one
}

/// Every position of the wire can stand for a bit.
pub open spec fn pairs_wf(ps: Seq<LabelPair>) -> bool {
    forall|i: int| 0 <= i < ps.len() ==> pair_wf(#[trigger] ps[i])
}

/// A position that carries the fixed Plain-strategy sentinels.
pub open spec fn pair_is_plain(p: LabelPair) -> bool {
    p.zero == plain_zero() && p.one == plain_one()
}

/// A wire generated under the Plain strategy.
pub open spec fn pairs_plain(ps: Seq<LabelPair>) -> bool {
    forall|i: int| 0 <= i < ps.len() ==> pair_is_plain(#[trigger] ps[i])
}

/// For each position, the one label picked out by the choice bit: the `one`
/// label where the choice is true, the `zero` label where it is false.
pub open spec fn select_labels(ps: Seq<LabelPair>, choices: Seq<bool>) -> Seq<Label>
    recommends
        ps.len() == choices.len(),
{
    Seq::new(ps.len(), |i: int| if choices[i] { ps[i].one } else { ps[i].zero })
}

/// The labels that encode `v` on a wire of pairs `ps`, in the canonical
/// most-significant-bit-first order.
pub open spec fn encoded_labels(ps: Seq<LabelPair>, v: u8) -> Seq<Label> {
    select_labels(ps, bits_of(v, ps.len()))
}

/// The bit a Plain-strategy label reveals: 0 only for the zero sentinel.
pub open spec fn label_bit(l: Label) -> bool {
    l != plain_zero()
}

/// The value a Plain-strategy evaluating wire decodes to.
pub open spec fn decoded_value(ls: Seq<Label>) -> nat {
    value_of(ls.map_values(|l: Label| label_bit(l)))
}

/// The pre-assignment form of a wire: one label pair per bit position.
#[derive(Clone, Debug)]
pub struct GarblingWire {
    pub bits: Vec<LabelPair>,
}

/// The materialized form of a value: one selected label per bit position.
#[derive(Clone, Debug)]
pub struct EvaluatingWire {
    pub bits: Vec<Label>,
}

impl GarblingWire {
    /// A fresh wire of `bits` label pairs under the given strategy.
    ///
    /// Every pair is well formed — its two labels differ — whatever the
    /// strategy; under the Plain strategy each pair is the fixed sentinel
    /// pair, which is what makes Plain wires decodable without a table.
    pub fn new(mode: GarblingMode, bits: u32, rng: &mut rand::rngs::StdRng) -> (r: GarblingWire)
        requires
            1 <= bits,
        ensures
            r.bits@.len() == bits,
            pairs_wf(r.bits@),
            mode == GarblingMode::Plain ==> pairs_plain(r.bits@),
    {
        let mut v: Vec<LabelPair> = Vec::new();
        let mut i: u32 = 0;
        while i < bits
            invariant
                i <= bits,
                v@.len() == i,
                pairs_wf(v@),
                mode == GarblingMode::Plain ==> pairs_plain(v@),
            decreases bits - i,
        {
            let p = match mode {
                GarblingMode::Plain => {
                    let (zero, one) = PlainBit::pair();
                    LabelPair { zero: zero.0, one: one.0 }
                },
                GarblingMode::Garbled => {
                    let (zero, one) = GarbledBit::pair(rng);
                    LabelPair { zero: zero.0, one: one.0 }
                },
            };
            v.push(p);
            i = i + 1;
        }
        GarblingWire { bits: v }
    }

    /// An identical copy of the wire, for the deliberate cases where one
    /// wire is reused — reuse must stay a conscious, auditable step.
    pub fn duplicate(&self) -> (r: GarblingWire)
        ensures
            r.bits@ == self.bits@,
    {
        let mut v: Vec<LabelPair> = Vec::new();
        let mut i: usize = 0;
        while i < self.bits.len()
            invariant
                i <= self.bits@.len(),
                v@ == self.bits@.take(i as int),
            decreases self.bits@.len() - i,
        {
            v.push(self.bits[i]);
            assert(v@ =~= self.bits@.take(i + 1));
            i = i + 1;
        }
        assert(v@ =~= self.bits@);
        GarblingWire { bits: v }
    }

    /// Encode a value on this wire: for each bit position, pick the `one`
    /// label where the value's bit (most-significant first) is set, the
    /// `zero` label where it is clear.
    ///
    /// A value that does not fit the wire's declared width is rejected with
    /// a range error before any label is picked; nothing is truncated.
    pub fn encode(self, value: u8) -> (r: Result<EvaluatingWire, MpcError>)
        requires
            1 <= self.bits@.len() <= 8,
        ensures
            (value as nat) < pow2(self.bits@.len()) ==> (r matches Ok(ev)
                && ev.bits@ == encoded_labels(self.bits@, value)),
            (value as nat) >= pow2(self.bits@.len()) ==> r == Err::<EvaluatingWire, MpcError>(
                MpcError::Range,
            ),
    {
        let len: u32 = self.bits.len() as u32;
        proof {
            lemma2_to64();
        }
        if len < 8 {
            let cap: u16 = 1u16 << (len as u16);
            proof {
                vstd::bits::lemma_u16_shl_is_mul(1u16, len as u16);
            }
            if value as u16 >= cap {
                return Err(MpcError::Range);
            }
        }
        let mut v: Vec<Label> = Vec::new();
        let mut i: u32 = 0;
        while i < len
            invariant
                i <= len,
                len == self.bits@.len(),
                1 <= len <= 8,
                v@.len() == i,
                forall|j: int| 0 <= j < i ==> v@[j] == encoded_labels(self.bits@, value)[j],
            decreases len - i,
        {
            let choice: bool = ((value >> ((len - 1 - i) as u8)) & 1) == 1;
            let p = self.bits[i as usize];
            v.push(if choice {
                p.one
            } else {
                p.zero
            });
            i = i + 1;
        }
        assert(v@ =~= encoded_labels(self.bits@, value));
        Ok(EvaluatingWire { bits: v })
    }

    /// The per-position label pairs, handed to the oblivious-transfer sender
    /// when the Evaluator owns this wire's value.
    pub fn to_blocks(self) -> (r: Vec<LabelPair>)
        ensures
            r@ == self.bits@,
    {
        self.bits
    }
}

impl EvaluatingWire {
    /// The wire's width in bits.
    pub fn width(&self) -> (r: usize)
        ensures
            r == self.bits@.len(),
    {
        self.bits.len()
    }

    /// An identical copy of the wire, for the deliberate cases where one
    /// wire feeds two gates.
    pub fn duplicate(&self) -> (r: EvaluatingWire)
        ensures
            r.bits@ == self.bits@,
    {
        let mut v: Vec<Label> = Vec::new();
        let mut i: usize = 0;
        while i < self.bits.len()
            invariant
                i <= self.bits@.len(),
                v@ == self.bits@.take(i as int),
            decreases self.bits@.len() - i,
        {
            v.push(self.bits[i]);
            assert(v@ =~= self.bits@.take(i + 1));
            i = i + 1;
        }
        assert(v@ =~= self.bits@);
        EvaluatingWire { bits: v }
    }
}

/// Decode a Plain-strategy evaluating wire back to its value, reading the
/// bit positions most-significant first — the exact inverse of `encode`.
///
/// Only the Plain strategy is decodable this way; under the Garbled
/// strategy a label reveals nothing, and decoding needs a table shipped by
/// the Garbler.
pub fn to_u8(garbled_value: &EvaluatingWire) -> (r: u8)
    requires
        garbled_value.bits@.len() <= 8,
    ensures
        r == decoded_value(garbled_value.bits@),
{
    let ghost gbits = garbled_value.bits@.map_values(|l: Label| label_bit(l));
    let mut acc: u8 = 0;
    let mut i: usize = 0;
    while i < garbled_value.bits.len()
        invariant
            i <= garbled_value.bits@.len() <= 8,
            gbits == garbled_value.bits@.map_values(|l: Label| label_bit(l)),
            acc == value_of(gbits.take(i as int)),
        decreases garbled_value.bits@.len() - i,
    {
        let bit: u8 = if garbled_value.bits[i].0 != 0 {
            1
        } else {
            0
        };
        proof {
            lemma_value_of_bound(gbits.take(i as int));
            lemma_pow2_adds(i as nat, (8 - i) as nat);
            lemma_pow2_pos((8 - i) as nat);
            lemma2_to64();
            assert(pow2(i as nat) <= pow2(8)) by {
                lemma_pow2_strictly_increases(i as nat, 8);
                if i == 8 {
                }
            }
            assert(gbits.take(i + 1).drop_last() =~= gbits.take(i as int));
        }
        acc = 2 * acc + bit;
        i = i + 1;
    }
    proof {
        assert(gbits.take(garbled_value.bits@.len() as int) =~= gbits);
    }
    acc
}

/// Encoding then decoding is the identity on every value a Plain wire can
/// carry: for a full-width Plain wire, the labels picked for `v` decode
/// back to `v` exactly.
pub proof fn lemma_plain_round_trip(ps: Seq<LabelPair>, v: u8)
    requires
        ps.len() == 8,
        pairs_plain(ps),
    ensures
        decoded_value(encoded_labels(ps, v)) == v,
{
    let enc = encoded_labels(ps, v);
    assert(enc.map_values(|l: Label| label_bit(l)) =~= bits_of(v, 8));
    lemma_value_of_bits_of_full(v);
}

} // verus!
