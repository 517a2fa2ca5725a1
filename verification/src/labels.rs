//! Wire labels and the two garbling strategies that generate them.
//!
//! A label is an opaque 128-bit token standing in for one bit of one wire.
//! On its own it means nothing; only relative to the (zero, one) pair of its
//! wire position does it denote a bit. The Plain strategy uses two fixed,
//! recognizable sentinel tokens and is meant for protocol debugging only: it
//! leaks the bit it stands for. The Garbled strategy draws both labels from
//! a cryptographically secure generator, so neither encodes its bit in any
//! inspectable way.

use vstd::prelude::*;

verus! {

/// A fixed-width opaque token carried by a wire bit.
#[derive(Clone, Copy, Debug, PartialEq, Eq, Structural)]
pub struct Label(pub u128);

/// The sentinel token the Plain strategy uses for bit 0.
pub open spec fn plain_zero() -> Label {
    Label(0)
}

/// The sentinel token the Plain strategy uses for bit 1.
pub open spec fn plain_one() -> Label {
    Label(1)
}

/// The pluggable label-generation strategy of a session.
#[derive(Clone, Copy, Debug, PartialEq, Eq, Structural)]
pub enum GarblingMode {
    /// Fixed, distinguishable sentinel labels; insecure, for debugging.
    Plain,
    /// Independently random labels, indistinguishable without the pair.
    Garbled,
}

#[verifier::external_type_specification]
#[verifier::external_body]
pub struct ExStdRng(rand::rngs::StdRng);

/// Relies on rand's `Rng::fill_bytes` for `StdRng`: fills a buffer with
/// fresh random bytes, advancing the generator's state. Nothing is promised
/// of the value, which is why the callers establish label distinctness
/// themselves.
#[verifier::external_body]
fn random_u128(rng: &mut rand::rngs::StdRng) -> u128 {
    let mut buf: [u8; 16] = [0; 16];
    rand::Rng::fill_bytes(rng, &mut buf);
    u128::from_le_bytes(buf)
}

/// One bit position of a wire under the Plain strategy.
#[derive(Clone, Copy, Debug, PartialEq, Eq, Structural)]
pub struct PlainBit(pub Label);

/// One bit position of a wire under the Garbled strategy.
#[derive(Clone, Copy, Debug, PartialEq, Eq, Structural)]
pub struct GarbledBit(pub Label);

impl PlainBit {
    /// The fixed (zero, one) sentinel pair of the Plain strategy.
    pub fn pair() -> (r: (PlainBit, PlainBit))
        ensures
            r.0.0 == plain_zero(),
            r.1.0 == plain_one(),
    {
        (PlainBit(Label(0)), PlainBit(Label(1)))
    }

    /// The token itself, detached from its pairing context.
    pub fn to_block(&self) -> (r: Label)
        ensures
            r == self.0,
    {
        self.0
    }
}

impl GarbledBit {
    /// A fresh (zero, one) pair of independently random labels.
    ///
    /// The two labels are never equal: a wire bit whose labels collide could
    /// not represent a bit at all. In the overwhelmingly unlikely event that
    /// the generator returns the zero label again, the lowest bit of the
    /// second draw is flipped.
    pub fn pair(rng: &mut rand::rngs::StdRng) -> (r: (GarbledBit, GarbledBit))
        ensures
            r.0.0 != r.1.0,
    {
        let zero: u128 = random_u128(rng);
        let mut one: u128 = random_u128(rng);
        if one == zero {
            one = one ^ 1;
            assert(one != zero) by {
                assert(forall|x: u128| (x ^ 1) != x) by (bit_vector);
            }
        }
        (GarbledBit(Label(zero)), GarbledBit(Label(one)))
    }

    /// The token itself, detached from its pairing context.
    pub fn to_block(&self) -> (r: Label)
        ensures
            r == self.0,
    {
        self.0
    }
}

} // verus!
