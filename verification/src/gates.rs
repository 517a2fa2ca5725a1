//! Gates: per-operation garble and evaluate procedures.
//!
//! The Garbler turns two input garbling wires into an output wire plus a
//! transmissible gate descriptor; the Evaluator consumes the descriptor and
//! its two input evaluating wires and obtains the output evaluating wire.
//! Both operations work modulo the value type's range: addition and
//! multiplication wrap at 256 for 8-bit wires.
//!
//! This is the Plain-strategy realization: labels are the decodable
//! sentinels, so the Evaluator may decode its inputs, compute directly, and
//! re-encode on the descriptor's output wire. That satisfies a gate's
//! interface for protocol testing but is not secure — a cryptographic
//! strategy must ship an encrypted truth table instead.

use vstd::prelude::*;
use vstd::arithmetic::power2::lemma2_to64;
use crate::MpcError;
use crate::wires::{
    GarblingWire, EvaluatingWire, LabelPair, encoded_labels, decoded_value, pairs_plain, to_u8,
    lemma_plain_round_trip,
};

verus! {

/// The operations gates can compute.
#[derive(Clone, Copy, Debug, PartialEq, Eq, Structural)]
pub enum Operation {
    /// Addition modulo 256 on 8-bit wires.
    AddU8,
    /// Multiplication modulo 256 on 8-bit wires.
    MulU8,
}

/// What an operation computes, in the value domain: arithmetic modulo the
/// 8-bit range, wrapping with no carry-out.
pub open spec fn apply_op(op: Operation, a: u8, b: u8) -> u8 {
    match op {
        Operation::AddU8 => ((a + b) % 256) as u8,
        Operation::MulU8 => ((a * b) % 256) as u8,
    }
}

/// The descriptor the Garbler ships for one gate: the garbling wire that
/// describes the output wire's label pairs. Created once per gate, consumed
/// exactly once by the matching evaluate call.
#[derive(Clone, Debug)]
pub struct Gate {
    pub output: GarblingWire,
}

/// The shape an evaluate call expects of its descriptor list: one gate whose
/// output wire has the operation's bit width. Anything else signals that the
/// peers have fallen out of step, which is fatal.
pub open spec fn gates_shape_ok(gates: Seq<Gate>, width: nat) -> bool {
    gates.len() == 1 && gates[0].output.bits@.len() == width
}

/// Garble an addition gate. Under the Plain strategy the output pairs are
/// the fixed sentinels, so the descriptor reuses the first input's pairs.
pub fn garble_add_u8_plain_scheme(input_1: GarblingWire, _input_2: GarblingWire) -> (r: (
    GarblingWire,
    Vec<Gate>,
))
    ensures
        r.0.bits@ == input_1.bits@,
        r.1@.len() == 1,
        r.1@[0].output.bits@ == input_1.bits@,
{
    let out = input_1.duplicate();
    (out, vec![Gate { output: input_1 }])
}

/// Garble a multiplication gate, shaped exactly like the addition gate: the
/// descriptor carries the output wire's pairs.
pub fn garble_mul_u8_plain_scheme(input_1: GarblingWire, _input_2: GarblingWire) -> (r: (
    GarblingWire,
    Vec<Gate>,
))
    ensures
        r.0.bits@ == input_1.bits@,
        r.1@.len() == 1,
        r.1@[0].output.bits@ == input_1.bits@,
{
    let out = input_1.duplicate();
    (out, vec![Gate { output: input_1 }])
}

/// Garble one 8-bit gate, dispatching on the operation.
pub fn garble_u8_gate_plain(input_1: GarblingWire, input_2: GarblingWire, operation: Operation) -> (r: (
    GarblingWire,
    Vec<Gate>,
))
    ensures
        r.0.bits@ == input_1.bits@,
        r.1@.len() == 1,
        r.1@[0].output.bits@ == input_1.bits@,
{
    match operation {
        Operation::AddU8 => garble_add_u8_plain_scheme(input_1, input_2),
        Operation::MulU8 => garble_mul_u8_plain_scheme(input_1, input_2),
    }
}

/// What evaluating an operation promises: if and only if both inputs and
/// the descriptor have the 8-bit shape, the result is the operation's value
/// encoded on the descriptor's output wire; any shape mismatch is a fatal
/// decoding error, never a silently wrong wire.
pub open spec fn evaluate_post(
    op: Operation,
    input_1: EvaluatingWire,
    input_2: EvaluatingWire,
    gates: Seq<Gate>,
    r: Result<EvaluatingWire, MpcError>,
) -> bool {
    let shape_ok = gates_shape_ok(gates, 8) && input_1.bits@.len() == 8 && input_2.bits@.len()
        == 8;
    &&& shape_ok ==> (r matches Ok(ev) && ev.bits@ == encoded_labels(
        gates[0].output.bits@,
        apply_op(
            op,
            decoded_value(input_1.bits@) as u8,
            decoded_value(input_2.bits@) as u8,
        ),
    ))
    &&& !shape_ok ==> r == Err::<EvaluatingWire, MpcError>(MpcError::Decoding)
}

/// Evaluate an addition gate: decode both Plain inputs, add modulo 256,
/// re-encode on the descriptor's output wire.
pub fn evaluate_add_u8_plain_scheme(
    input_1: EvaluatingWire,
    input_2: EvaluatingWire,
    gates: Vec<Gate>,
) -> (r: Result<EvaluatingWire, MpcError>)
    ensures
        evaluate_post(Operation::AddU8, input_1, input_2, gates@, r),
{
    if gates.len() != 1 || input_1.width() != 8 || input_2.width() != 8 {
        return Err(MpcError::Decoding);
    }
    let out = gates[0].output.duplicate();
    if out.bits.len() != 8 {
        return Err(MpcError::Decoding);
    }
    let a = to_u8(&input_1);
    let b = to_u8(&input_2);
    let sum: u8 = ((a as u16 + b as u16) % 256) as u8;
    proof {
        lemma2_to64();
    }
    match out.encode(sum) {
        Ok(ev) => Ok(ev),
        Err(_) => Err(MpcError::Decoding),
    }
}

/// Evaluate a multiplication gate: decode both Plain inputs, multiply
/// modulo 256, re-encode on the descriptor's output wire.
pub fn evaluate_mul_u8_plain_scheme(
    input_1: EvaluatingWire,
    input_2: EvaluatingWire,
    gates: Vec<Gate>,
) -> (r: Result<EvaluatingWire, MpcError>)
    ensures
        evaluate_post(Operation::MulU8, input_1, input_2, gates@, r),
{
    if gates.len() != 1 || input_1.width() != 8 || input_2.width() != 8 {
        return Err(MpcError::Decoding);
    }
    let out = gates[0].output.duplicate();
    if out.bits.len() != 8 {
        return Err(MpcError::Decoding);
    }
    let a = to_u8(&input_1);
    let b = to_u8(&input_2);
    proof {
        assert((a as int) * (b as int) <= 255 * 255) by (nonlinear_arith)
            requires
                a <= 255,
                b <= 255,
        ;
    }
    let product: u8 = ((a as u16 * b as u16) % 256) as u8;
    proof {
        lemma2_to64();
    }
    match out.encode(product) {
        Ok(ev) => Ok(ev),
        Err(_) => Err(MpcError::Decoding),
    }
}

/// Evaluate one 8-bit gate, dispatching on the operation.
pub fn evaluate_plain(
    input_1: EvaluatingWire,
    input_2: EvaluatingWire,
    operation: Operation,
    gates: Vec<Gate>,
) -> (r: Result<EvaluatingWire, MpcError>)
    ensures
        evaluate_post(operation, input_1, input_2, gates@, r),
{
    match operation {
        Operation::AddU8 => evaluate_add_u8_plain_scheme(input_1, input_2, gates),
        Operation::MulU8 => evaluate_mul_u8_plain_scheme(input_1, input_2, gates),
    }
}

/// Law: for every `a` and `b`, garbling a gate over Plain wires and
/// evaluating it on the encodings of `a` and `b` yields a wire that decodes
/// to the operation applied to `a` and `b` modulo 256.
pub proof fn lemma_gate_correct(
    op: Operation,
    w1: Seq<LabelPair>,
    w2: Seq<LabelPair>,
    out: Seq<LabelPair>,
    a: u8,
    b: u8,
)
    requires
        w1.len() == 8,
        w2.len() == 8,
        out.len() == 8,
        pairs_plain(w1),
        pairs_plain(w2),
        pairs_plain(out),
    ensures
        decoded_value(
            encoded_labels(
                out,
                apply_op(
                    op,
                    decoded_value(encoded_labels(w1, a)) as u8,
                    decoded_value(encoded_labels(w2, b)) as u8,
                ),
            ),
        ) == apply_op(op, a, b),
{
    lemma_plain_round_trip(w1, a);
    lemma_plain_round_trip(w2, b);
    lemma_plain_round_trip(out, apply_op(op, a, b));
}

} // verus!
