//! The semi-honest two-party execution of a circuit script.
//!
//! Both parties walk the same lowered script in step: for every input wire
//! the owning side contributes its value — by encode-and-send when the
//! Garbler owns it, by oblivious transfer when the Evaluator does — and for
//! every gate the Garbler ships a descriptor that the Evaluator consumes.
//! This module runs both session objects in one process, joined by the
//! channel pair and by the oblivious-transfer selection at its interface,
//! and proves that what the Evaluator decodes at the end is exactly the
//! value the script denotes.
//!
//! The run uses the Plain strategy, whose labels are decodable without a
//! decoding table; it exercises every protocol step a deployment performs,
//! with the transport and the OT sub-protocol as the interchangeable parts.

use vstd::prelude::*;
use vstd::arithmetic::power2::lemma2_to64;
use crate::labels::GarblingMode;
use crate::wires::{
    GarblingWire, EvaluatingWire, encoded_labels, pairs_plain, to_u8, lemma_plain_round_trip,
};
use crate::gates::apply_op;
use crate::channel::{Channel, transfer, frame_bytes, lemma_parse_of_frame};
use crate::codec::{labels_of_bytes, lemma_labels_round_trip};
use crate::circuit::{
    Expr, Step, expr_wf, eval_expr, input_count, gate_count, script_wf, step_ok, run_slots, lower,
    lemma_run_slots_len, lemma_run_slots_prefix, lemma_lower_correct,
};
use crate::session::{
    Role, garbler_assign_own_value, evaluator_receive_value, garbler_assign_evaluator_value,
    evaluator_choice_bits, evaluator_assemble_labels, ot_select, garbler_gate, evaluator_gate,
    evaluator_reveal, garbler_receive_reveal,
};

verus! {

/// Run one lowered script between a Garbler and an Evaluator session,
/// ending with the reveal exchange, so both parties hold the result. The
/// result equals the script's own slot value: nothing the channel or the
/// garbling adds or removes changes the computation.
pub fn run_two_party(
    steps: &Vec<Step>,
    garbler_inputs: &Vec<u8>,
    evaluator_inputs: &Vec<u8>,
    rng: &mut rand::rngs::StdRng,
) -> (r: u8)
    requires
        script_wf(steps@, garbler_inputs@.len(), evaluator_inputs@.len()),
        steps@.len() >= 1,
    ensures
        r == run_slots(steps@, garbler_inputs@, evaluator_inputs@).last(),
{
    let ghost vals = run_slots(steps@, garbler_inputs@, evaluator_inputs@);
    proof {
        lemma_run_slots_len(steps@, garbler_inputs@, evaluator_inputs@);
    }
    let mut garbler_chan = Channel::new();
    let mut evaluator_chan = Channel::new();
    let mut garbler_slots: Vec<GarblingWire> = Vec::new();
    let mut evaluator_slots: Vec<EvaluatingWire> = Vec::new();
    let mut i: usize = 0;
    while i < steps.len()
        invariant
            i <= steps@.len(),
            script_wf(steps@, garbler_inputs@.len(), evaluator_inputs@.len()),
            vals == run_slots(steps@, garbler_inputs@, evaluator_inputs@),
            vals.len() == steps@.len(),
            garbler_chan.wf(),
            evaluator_chan.wf(),
            garbler_chan.unflushed() == Seq::<u8>::empty(),
            garbler_chan.unread() == Seq::<u8>::empty(),
            evaluator_chan.unread() == Seq::<u8>::empty(),
            evaluator_chan.unflushed() == Seq::<u8>::empty(),
            garbler_slots@.len() == i,
            evaluator_slots@.len() == i,
            forall|j: int|
                0 <= j < i ==> (#[trigger] garbler_slots@[j]).bits@.len() == 8 && pairs_plain(
                    garbler_slots@[j].bits@,
                ),
            forall|j: int|
                0 <= j < i ==> (#[trigger] evaluator_slots@[j]).bits@ == encoded_labels(
                    garbler_slots@[j].bits@,
                    vals[j],
                ),
        decreases steps@.len() - i,
    {
        proof {
            assert(step_ok(steps@[i as int], i as int, garbler_inputs@.len(),
                evaluator_inputs@.len()));
            lemma_run_slots_prefix(steps@, i as int, garbler_inputs@, evaluator_inputs@);
            lemma_run_slots_prefix(steps@, i + 1, garbler_inputs@, evaluator_inputs@);
            assert(steps@.take(i + 1).drop_last() =~= steps@.take(i as int));
            assert(steps@.take(i + 1).last() == steps@[i as int]);
            lemma_run_slots_len(steps@.take(i as int), garbler_inputs@, evaluator_inputs@);
            lemma_run_slots_len(steps@.take(i + 1), garbler_inputs@, evaluator_inputs@);
            assert(run_slots(steps@.take(i + 1), garbler_inputs@, evaluator_inputs@) == vals.take(
                i + 1,
            ));
            assert(vals.take(i + 1).last() == vals[i as int]);
        }
        let (gw, ev) = match steps[i] {
            Step::Assign { owner, index } => {
                match owner {
                    Role::Garbler => {
                        let value = garbler_inputs[index];
                        let gw = garbler_assign_own_value(
                            GarblingMode::Plain,
                            value,
                            rng,
                            &mut garbler_chan,
                        );
                        transfer(&mut garbler_chan, &mut evaluator_chan);
                        let ghost payload = crate::codec::labels_bytes(
                            encoded_labels(gw.bits@, value),
                        );
                        proof {
                            assert(evaluator_chan.unread() =~= frame_bytes(payload));
                            lemma_parse_of_frame(payload);
                            lemma_labels_round_trip(encoded_labels(gw.bits@, value));
                        }
                        let ev = match evaluator_receive_value(&mut evaluator_chan) {
                            Ok(w) => w,
                            Err(_) => {
                                // the frame was produced by this very step
                                proof {
                                    assert(false);
                                }
                                EvaluatingWire { bits: Vec::new() }
                            },
                        };
                        proof {
                            assert(evaluator_chan.unread() =~= Seq::<u8>::empty());
                            assert(ev.bits@ == encoded_labels(gw.bits@, vals[i as int]));
                        }
                        (gw, ev)
                    },
                    Role::Evaluator => {
                        let value = evaluator_inputs[index];
                        let (gw, pairs) = garbler_assign_evaluator_value(GarblingMode::Plain, rng);
                        let choices = evaluator_choice_bits(value);
                        let labels = ot_select(&pairs, &choices);
                        let ev = match evaluator_assemble_labels(labels) {
                            Ok(w) => w,
                            Err(_) => {
                                // the selection yields one label per wire bit
                                proof {
                                    assert(false);
                                }
                                EvaluatingWire { bits: Vec::new() }
                            },
                        };
                        proof {
                            assert(ev.bits@ == encoded_labels(gw.bits@, vals[i as int]));
                        }
                        (gw, ev)
                    },
                }
            },
            Step::Apply { op, left, right } => {
                let gw = garbler_gate(
                    op,
                    garbler_slots[left].duplicate(),
                    garbler_slots[right].duplicate(),
                    &mut garbler_chan,
                );
                transfer(&mut garbler_chan, &mut evaluator_chan);
                let ghost payload = garbler_chan.frames_written().last();
                proof {
                    assert(evaluator_chan.unread() =~= frame_bytes(payload));
                    lemma_parse_of_frame(payload);
                    lemma_plain_round_trip(garbler_slots@[left as int].bits@, vals[left as int]);
                    lemma_plain_round_trip(garbler_slots@[right as int].bits@, vals[right as int]);
                    lemma2_to64();
                }
                let ev = match evaluator_gate(
                    op,
                    evaluator_slots[left].duplicate(),
                    evaluator_slots[right].duplicate(),
                    &mut evaluator_chan,
                ) {
                    Ok(w) => w,
                    Err(_) => {
                        // the descriptor frame was produced by this very step
                        proof {
                            assert(false);
                        }
                        EvaluatingWire { bits: Vec::new() }
                    },
                };
                proof {
                    assert(evaluator_chan.unread() =~= Seq::<u8>::empty());
                    assert(ev.bits@ == encoded_labels(gw.bits@, vals[i as int]));
                }
                (gw, ev)
            },
        };
        garbler_slots.push(gw);
        evaluator_slots.push(ev);
        i = i + 1;
    }
    // the terminal reveal: the Evaluator decodes and frames the plaintext
    // result back, and the Garbler recovers the same value
    let result = evaluator_reveal(
        &evaluator_slots[evaluator_slots.len() - 1],
        &mut evaluator_chan,
    );
    proof {
        lemma_plain_round_trip(
            garbler_slots@[steps@.len() - 1].bits@,
            vals[steps@.len() - 1],
        );
        assert(vals.last() == vals[steps@.len() - 1]);
    }
    transfer(&mut evaluator_chan, &mut garbler_chan);
    proof {
        assert(garbler_chan.unread() =~= frame_bytes(seq![result]));
        lemma_parse_of_frame(seq![result]);
    }
    let garbler_result = match garbler_receive_reveal(&mut garbler_chan) {
        Ok(v) => v,
        Err(_) => {
            // the reveal frame was produced by the line above
            proof {
                assert(false);
            }
            0
        },
    };
    proof {
        assert(seq![garbler_result][0] == seq![result][0]);
    }
    garbler_result
}

/// Build, lower and run a whole expression between the two parties.
///
/// This is the library's top-level correctness statement made executable:
/// for every well-formed role-tagged expression and every assignment of
/// private inputs, the two-party run returns exactly the expression's
/// value, all gates modulo 256.
pub fn run_circuit(
    e: &Expr,
    garbler_inputs: &Vec<u8>,
    evaluator_inputs: &Vec<u8>,
    rng: &mut rand::rngs::StdRng,
) -> (r: u8)
    requires
        expr_wf(*e, garbler_inputs@.len(), evaluator_inputs@.len()),
        input_count(*e) + gate_count(*e) <= usize::MAX,
    ensures
        r == eval_expr(*e, garbler_inputs@, evaluator_inputs@),
{
    proof {
        lemma_lower_correct(*e, garbler_inputs@, evaluator_inputs@);
    }
    let steps = lower(e);
    run_two_party(&steps, garbler_inputs, evaluator_inputs, rng)
}

} // verus!
