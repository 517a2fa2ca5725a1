//! A two-party secure computation engine built on garbled wires.
//!
//! A Garbler and an Evaluator jointly compute a function over private
//! inputs: the Garbler generates a pair of opaque labels for every bit of
//! every wire, the Evaluator only ever holds the one label per bit that
//! corresponds to the actual value, and gate descriptors let it turn input
//! labels into output labels without learning the underlying bits.

use vstd::prelude::*;

pub mod bits;
pub mod channel;
pub mod circuit;
pub mod codec;
pub mod gates;
pub mod labels;
pub mod semihonest_2pc;
pub mod session;
pub mod wires;

verus! {

/// The error taxonomy of the protocol.
///
/// Every failure is fatal to the session: there is no retry at this layer,
/// because retrying would re-run label generation and could expose a wire's
/// second label.
#[derive(Clone, Copy, Debug, PartialEq, Eq, Structural)]
pub enum MpcError {
    /// Channel failure: truncated or malformed frame, peer gone.
    Transport,
    /// Payload does not decode into the expected wire or gate shape, or its
    /// bit width disagrees with the protocol step: the peers are out of sync.
    Decoding,
    /// An input value does not fit the declared bit width of its wire.
    Range,
    /// The oblivious-transfer primitive reported a failure.
    Ot,
}

/// The two sample arithmetic evaluations of the command-line walkthrough:
/// `1 + 2` and `(1 + 2) * (3 / 4)`, over machine integers.
pub fn test_macro() -> (r: (usize, usize))
    ensures
        r.0 == 3,
        r.1 == 0,
{
    let a: usize = 1 + 2;
    let b: usize = (1 + 2) * (3 / 4);
    (a, b)
}

} // verus!
