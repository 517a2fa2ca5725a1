//! Per-party protocol state and the input-assignment protocol.
//!
//! Both parties run the same circuit script; only the role decides which
//! branch of each step a party executes. For every input wire there are
//! four branches. Garbler-owned value: the Garbler generates the wire,
//! encodes its private value and frames the evaluating wire onto the
//! channel; the Evaluator reads and deserializes it. Evaluator-owned value:
//! the Garbler generates the wire and offers its label pairs to the
//! oblivious-transfer sender; the Evaluator hands its choice bits to the
//! receiver and assembles the labels it obtains. Assignment happens
//! strictly before any gate that references the wire.

use vstd::prelude::*;
use crate::MpcError;
use crate::bits::{bits_of, to_bit_arr};
use crate::labels::{Label, GarblingMode};
use crate::wires::{
    GarblingWire, EvaluatingWire, LabelPair, pairs_wf, pairs_plain, select_labels, encoded_labels,
    decoded_value,
};
use crate::gates::{Operation, apply_op, garble_u8_gate_plain, evaluate_plain};
use crate::channel::{Channel, parse_frame, frame_bytes};
use crate::codec::{
    labels_bytes, labels_of_bytes, serialize_evaluating_wire, deserialize_evaluating_wire,
    serialize_gates, deserialize_gates, parse_gates, gates_pairs, lemma_gates_round_trip,
};

verus! {

/// A protocol participant, named by its stable identifier.
#[derive(Clone, Debug, PartialEq, Eq, Structural)]
pub struct Party {
    pub id: usize,
}

/// Which branch of every protocol step a party executes. Fixed per session.
#[derive(Clone, Copy, Debug, PartialEq, Eq, Structural)]
pub enum Role {
    Garbler,
    Evaluator,
}

/// One party's session state: the roster, who this party is, and its role.
#[derive(Clone, Debug)]
pub struct Protocol {
    pub parties: Vec<Party>,
    pub me: Party,
    pub role: Role,
}

/// The width of the one registered value domain: 8-bit unsigned integers.
pub const VALUE_BITS: u32 = 8;

/// The Garbler's branch for a wire it owns the value of: generate the
/// garbling wire, encode the private value, frame the evaluating wire onto
/// the channel. Returns the garbling wire for later gate work.
pub fn garbler_assign_own_value(
    mode: GarblingMode,
    value: u8,
    rng: &mut rand::rngs::StdRng,
    chan: &mut Channel,
) -> (r: GarblingWire)
    requires
        old(chan).wf(),
    ensures
        final(chan).wf(),
        r.bits@.len() == 8,
        pairs_wf(r.bits@),
        mode == GarblingMode::Plain ==> pairs_plain(r.bits@),
        final(chan).frames_written() == old(chan).frames_written().push(
            labels_bytes(encoded_labels(r.bits@, value)),
        ),
        final(chan).unflushed() == old(chan).unflushed() + frame_bytes(
            labels_bytes(encoded_labels(r.bits@, value)),
        ),
        labels_bytes(encoded_labels(r.bits@, value)).len() == 128,
        final(chan).unread() == old(chan).unread(),
        final(chan).read_count() == old(chan).read_count(),
{
    let wire = GarblingWire::new(mode, VALUE_BITS, rng);
    let encoded = match wire.duplicate().encode(value) {
        Ok(ev) => ev,
        Err(_) => {
            // an 8-bit value always fits an 8-bit wire
            proof {
                vstd::arithmetic::power2::lemma2_to64();
                assert(false);
            }
            EvaluatingWire { bits: Vec::new() }
        },
    };
    proof {
        vstd::arithmetic::power2::lemma2_to64();
        crate::codec::lemma_labels_bytes_len(encoded.bits@);
    }
    let payload = serialize_evaluating_wire(&encoded);
    chan.write_frame(&payload);
    wire
}

/// The Evaluator's branch for a Garbler-owned wire: read one frame and
/// deserialize the evaluating wire, insisting on the registered bit width.
pub fn evaluator_receive_value(chan: &mut Channel) -> (r: Result<EvaluatingWire, MpcError>)
    requires
        old(chan).wf(),
    ensures
        final(chan).wf(),
        final(chan).frames_written() == old(chan).frames_written(),
        final(chan).written_count() == old(chan).written_count(),
        final(chan).unflushed() == old(chan).unflushed(),
        match r {
            Ok(w) => {
                &&& parse_frame(old(chan).unread()) matches Some(p) && p.len() % 16 == 0
                    && w.bits@ == labels_of_bytes(p)
                &&& w.bits@.len() == 8
                &&& final(chan).unread() == old(chan).unread().skip(
                    8 + parse_frame(old(chan).unread()).unwrap().len() as int,
                )
                &&& final(chan).read_count() == old(chan).read_count() + 8 + parse_frame(
                    old(chan).unread(),
                ).unwrap().len()
            },
            Err(e) => {
                &&& parse_frame(old(chan).unread()) matches None ==> e == MpcError::Transport
                    && *final(chan) == *old(chan)
                &&& (parse_frame(old(chan).unread()) matches Some(p) && !(p.len() % 16 == 0
                    && labels_of_bytes(p).len() == 8)) ==> e == MpcError::Decoding
                &&& !(parse_frame(old(chan).unread()) matches Some(p) && p.len() % 16 == 0
                    && labels_of_bytes(p).len() == 8) // errors come only from those two causes
            },
        },
{
    let payload = match chan.read_frame() {
        Ok(p) => p,
        Err(e) => {
            return Err(e);
        },
    };
    let wire = match deserialize_evaluating_wire(&payload) {
        Ok(w) => w,
        Err(e) => {
            return Err(e);
        },
    };
    if wire.width() != 8 {
        return Err(MpcError::Decoding);
    }
    Ok(wire)
}

/// The Garbler's branch for an Evaluator-owned wire: generate the garbling
/// wire and hand its per-bit label pairs to the oblivious-transfer sender.
/// The wire itself never leaves the Garbler.
pub fn garbler_assign_evaluator_value(mode: GarblingMode, rng: &mut rand::rngs::StdRng) -> (r: (
    GarblingWire,
    Vec<LabelPair>,
))
    ensures
        r.0.bits@.len() == 8,
        pairs_wf(r.0.bits@),
        mode == GarblingMode::Plain ==> pairs_plain(r.0.bits@),
        r.1@ == r.0.bits@,
{
    let wire = GarblingWire::new(mode, VALUE_BITS, rng);
    let pairs = wire.duplicate().to_blocks();
    (wire, pairs)
}

/// The Evaluator's branch for a wire it owns the value of, first half: the
/// choice bits it hands to the oblivious-transfer receiver, one per wire
/// position, most-significant bit first.
pub fn evaluator_choice_bits(value: u8) -> (r: Vec<bool>)
    ensures
        r@ == bits_of(value, 8),
{
    to_bit_arr(value, VALUE_BITS)
}

/// The Evaluator's branch for a wire it owns, second half: assemble the
/// labels the oblivious transfer returned into an evaluating wire. A label
/// count other than the wire width means the primitive failed.
pub fn evaluator_assemble_labels(labels: Vec<Label>) -> (r: Result<EvaluatingWire, MpcError>)
    ensures
        labels@.len() == 8 ==> (r matches Ok(w) && w.bits@ == labels@),
        labels@.len() != 8 ==> r == Err::<EvaluatingWire, MpcError>(MpcError::Ot),
{
    if labels.len() != 8 {
        return Err(MpcError::Ot);
    }
    Ok(EvaluatingWire { bits: labels })
}

/// The oblivious-transfer primitive's contract, as executable reference:
/// for each position the receiver obtains the `one` label where its choice
/// bit is true and the `zero` label where it is false — and nothing else.
/// A deployment replaces this in-process selection with an OT sub-protocol
/// between the two parties; whatever runs it must return exactly this.
pub fn ot_select(pairs: &Vec<LabelPair>, choices: &Vec<bool>) -> (r: Vec<Label>)
    requires
        pairs@.len() == choices@.len(),
    ensures
        r@ == select_labels(pairs@, choices@),
{
    let mut r: Vec<Label> = Vec::new();
    let mut i: usize = 0;
    while i < pairs.len()
        invariant
            i <= pairs@.len(),
            pairs@.len() == choices@.len(),
            r@.len() == i,
            forall|j: int| 0 <= j < i ==> r@[j] == select_labels(pairs@, choices@)[j],
        decreases pairs@.len() - i,
    {
        r.push(
            if choices[i] {
                pairs[i].one
            } else {
                pairs[i].zero
            },
        );
        i = i + 1;
    }
    proof {
        assert(r@ =~= select_labels(pairs@, choices@));
    }
    r
}

/// Law of oblivious-transfer correctness at this interface: for every
/// choice sequence, the selected labels are exactly the sender-side labels
/// the choices pick out, and on a well-formed wire each selected label
/// differs from the label left unchosen.
pub proof fn lemma_ot_selection_correct(pairs: Seq<LabelPair>, choices: Seq<bool>)
    requires
        pairs.len() == choices.len(),
        pairs_wf(pairs),
    ensures
        forall|i: int|
            0 <= i < pairs.len() ==> select_labels(pairs, choices)[i] == (if choices[i] {
                pairs[i].one
            } else {
                pairs[i].zero
            }),
        forall|i: int|
            0 <= i < pairs.len() ==> select_labels(pairs, choices)[i] != (if choices[i] {
                pairs[i].zero
            } else {
                pairs[i].one
            }),
{
}

/// Law of OT-based input assignment: when the Evaluator's choice bits are
/// the bit layout of its private value, the labels it obtains are exactly
/// the encoding of that value on the Garbler's wire — the same wire an
/// encode-and-send assignment would have produced.
pub proof fn lemma_ot_assignment_is_encoding(pairs: Seq<LabelPair>, value: u8)
    requires
        pairs.len() == 8,
    ensures
        select_labels(pairs, bits_of(value, 8)) == encoded_labels(pairs, value),
{
}

/// The terminal reveal step, Evaluator side: decode the final Plain-mode
/// wire and frame the plaintext result back, so that both sides recover it.
pub fn evaluator_reveal(result: &EvaluatingWire, chan: &mut Channel) -> (r: u8)
    requires
        old(chan).wf(),
        result.bits@.len() <= 8,
    ensures
        final(chan).wf(),
        r == decoded_value(result.bits@),
        final(chan).frames_written() == old(chan).frames_written().push(seq![r]),
        final(chan).unflushed() == old(chan).unflushed() + frame_bytes(seq![r]),
        final(chan).unread() == old(chan).unread(),
        final(chan).read_count() == old(chan).read_count(),
{
    let value = crate::wires::to_u8(result);
    let payload = vec![value];
    proof {
        assert(payload@ =~= seq![value]);
    }
    chan.write_frame(&payload);
    value
}

/// The terminal reveal step, Garbler side: read the plaintext result the
/// Evaluator framed back.
pub fn garbler_receive_reveal(chan: &mut Channel) -> (r: Result<u8, MpcError>)
    requires
        old(chan).wf(),
    ensures
        final(chan).wf(),
        final(chan).frames_written() == old(chan).frames_written(),
        final(chan).written_count() == old(chan).written_count(),
        final(chan).unflushed() == old(chan).unflushed(),
        match r {
            Ok(v) => parse_frame(old(chan).unread()) == Some(seq![v]),
            Err(e) => {
                &&& parse_frame(old(chan).unread()) matches None ==> e == MpcError::Transport
                    && *final(chan) == *old(chan)
                &&& (parse_frame(old(chan).unread()) matches Some(p) && p.len() != 1) ==> e
                    == MpcError::Decoding
                &&& !(parse_frame(old(chan).unread()) matches Some(p) && p.len() == 1)
            },
        },
{
    let payload = match chan.read_frame() {
        Ok(p) => p,
        Err(e) => {
            return Err(e);
        },
    };
    if payload.len() != 1 {
        return Err(MpcError::Decoding);
    }
    let value = payload[0];
    proof {
        assert(payload@ =~= seq![value]);
    }
    Ok(value)
}

/// The Garbler's half of one gate step: garble it and frame its
/// descriptor onto the channel; the output garbling wire stays here.
pub fn garbler_gate(
    operation: Operation,
    input_1: GarblingWire,
    input_2: GarblingWire,
    chan: &mut Channel,
) -> (r: GarblingWire)
    requires
        old(chan).wf(),
    ensures
        final(chan).wf(),
        r.bits@ == input_1.bits@,
        final(chan).frames_written().len() == old(chan).frames_written().len() + 1,
        final(chan).unread() == old(chan).unread(),
        final(chan).read_count() == old(chan).read_count(),
        ({
            let sent = final(chan).frames_written().last();
            &&& parse_gates(sent) matches Some(pss) && pss.len() == 1 && pss[0] == r.bits@
            &&& final(chan).unflushed() == old(chan).unflushed() + frame_bytes(sent)
            &&& sent.len() <= u64::MAX
        }),
{
    let (out, gates) = garble_u8_gate_plain(input_1, input_2, operation);
    let wire_len = out.bits.len();
    let payload = serialize_gates(&gates);
    let payload_len = payload.len();
    proof {
        assert(payload_len <= usize::MAX);
    }
    chan.write_frame(&payload);
    proof {
        assert(wire_len <= usize::MAX);
        lemma_gates_round_trip(gates@);
        assert(gates_pairs(gates@)[0] == out.bits@);
    }
    out
}

/// The Evaluator's half of one gate step: read the descriptor the
/// Garbler shipped and evaluate it on the two input evaluating wires.
pub fn evaluator_gate(
    operation: Operation,
    input_1: EvaluatingWire,
    input_2: EvaluatingWire,
    chan: &mut Channel,
) -> (r: Result<EvaluatingWire, MpcError>)
    requires
        old(chan).wf(),
    ensures
        final(chan).wf(),
        final(chan).frames_written() == old(chan).frames_written(),
        final(chan).written_count() == old(chan).written_count(),
        final(chan).unflushed() == old(chan).unflushed(),
        match r {
            Ok(ev) => {
                &&& parse_frame(old(chan).unread()) matches Some(p)
                &&& parse_gates(parse_frame(old(chan).unread()).unwrap()) matches Some(pss)
                    && pss.len() == 1 && pss[0].len() == 8
                &&& input_1.bits@.len() == 8 && input_2.bits@.len() == 8
                &&& ev.bits@ == encoded_labels(
                    parse_gates(parse_frame(old(chan).unread()).unwrap()).unwrap()[0],
                    apply_op(
                        operation,
                        decoded_value(input_1.bits@) as u8,
                        decoded_value(input_2.bits@) as u8,
                    ),
                )
                &&& final(chan).unread() == old(chan).unread().skip(
                    8 + parse_frame(old(chan).unread()).unwrap().len() as int,
                )
            },
            Err(e) => {
                &&& e == MpcError::Transport || e == MpcError::Decoding
                &&& !{
                    &&& parse_frame(old(chan).unread()) matches Some(p)
                    &&& parse_gates(p) matches Some(pss) && pss.len() == 1 && pss[0].len() == 8
                    &&& input_1.bits@.len() == 8 && input_2.bits@.len() == 8
                }
            },
        },
{
    let payload = match chan.read_frame() {
        Ok(p) => p,
        Err(e) => {
            return Err(e);
        },
    };
    let gates = match deserialize_gates(&payload) {
        Ok(gs) => gs,
        Err(e) => {
            return Err(e);
        },
    };
    evaluate_plain(input_1, input_2, operation, gates)
}

} // verus!
