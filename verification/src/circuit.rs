//! The circuit builder: role-tagged expression trees and their lowering.
//!
//! A caller writes the joint computation as an expression tree whose leaves
//! say which party contributes each input. The builder lowers the tree into
//! the ordered script both parties execute: all input assignments first, in
//! left-to-right order, then the gates in topological order, each step
//! filling one wire slot. Lowering is decided by ordinary data, at build
//! time; nothing about it depends on the garbling strategy.

use vstd::prelude::*;
use crate::gates::{Operation, apply_op};
use crate::session::Role;

verus! {

/// A role-tagged expression: a private input of one party, or a gate over
/// two subexpressions.
#[derive(Debug)]
pub enum Expr {
    /// A private input: its owner and its index among that owner's inputs.
    Input(Role, usize),
    /// A binary gate.
    Op(Operation, Box<Expr>, Box<Expr>),
}

/// One step of the lowered script. Each step fills the next wire slot, so a
/// step's position is also the slot it defines.
#[derive(Clone, Copy, Debug, PartialEq, Eq, Structural)]
pub enum Step {
    /// Assign the next slot from an owner's input.
    Assign { owner: Role, index: usize },
    /// Apply a gate to two earlier slots.
    Apply { op: Operation, left: usize, right: usize },
}

/// How many input occurrences the tree has, counted left to right.
pub open spec fn input_count(e: Expr) -> nat
    decreases e,
{
    match e {
        Expr::Input(_, _) => 1,
        Expr::Op(_, l, r) => input_count(*l) + input_count(*r),
    }
}

/// How many gates the tree has.
pub open spec fn gate_count(e: Expr) -> nat
    decreases e,
{
    match e {
        Expr::Input(_, _) => 0,
        Expr::Op(_, l, r) => gate_count(*l) + gate_count(*r) + 1,
    }
}

/// The input occurrences of the tree, in left-to-right order.
pub open spec fn input_list(e: Expr) -> Seq<(Role, usize)>
    decreases e,
{
    match e {
        Expr::Input(o, i) => seq![(o, i)],
        Expr::Op(_, l, r) => input_list(*l) + input_list(*r),
    }
}

/// Every input leaf refers to an actual input of its owner.
pub open spec fn expr_wf(e: Expr, n_garbler: nat, n_evaluator: nat) -> bool
    decreases e,
{
    match e {
        Expr::Input(o, i) => if o == Role::Garbler {
            i < n_garbler
        } else {
            i < n_evaluator
        },
        Expr::Op(_, l, r) => expr_wf(*l, n_garbler, n_evaluator) && expr_wf(
            *r,
            n_garbler,
            n_evaluator,
        ),
    }
}

/// The value an input occurrence contributes.
pub open spec fn input_value(inp: (Role, usize), g: Seq<u8>, v: Seq<u8>) -> u8 {
    if inp.0 == Role::Garbler {
        if inp.1 < g.len() {
            g[inp.1 as int]
        } else {
            0
        }
    } else {
        if inp.1 < v.len() {
            v[inp.1 as int]
        } else {
            0
        }
    }
}

/// The value the tree denotes, with every gate modulo 256.
pub open spec fn eval_expr(e: Expr, g: Seq<u8>, v: Seq<u8>) -> u8
    decreases e,
{
    match e {
        Expr::Input(o, i) => input_value((o, i), g, v),
        Expr::Op(op, l, r) => apply_op(op, eval_expr(*l, g, v), eval_expr(*r, g, v)),
    }
}

/// Whether one step is well formed at position `pos` of a script: an assign
/// reads a real input, a gate reads slots already filled.
pub open spec fn step_ok(s: Step, pos: int, n_garbler: nat, n_evaluator: nat) -> bool {
    match s {
        Step::Assign { owner, index } => if owner == Role::Garbler {
            index < n_garbler
        } else {
            index < n_evaluator
        },
        Step::Apply { op, left, right } => left < pos && right < pos,
    }
}

/// A script both parties can execute without ever reading ahead.
pub open spec fn script_wf(steps: Seq<Step>, n_garbler: nat, n_evaluator: nat) -> bool {
    forall|j: int| 0 <= j < steps.len() ==> step_ok(#[trigger] steps[j], j, n_garbler, n_evaluator)
}

/// The wire-slot values a script fills, one per step, in order. A reference
/// out of range reads 0; well-formed scripts never make one.
pub open spec fn run_slots(steps: Seq<Step>, g: Seq<u8>, v: Seq<u8>) -> Seq<u8>
    decreases steps.len(),
{
    if steps.len() == 0 {
        Seq::empty()
    } else {
        let pre = run_slots(steps.drop_last(), g, v);
        let val = match steps.last() {
            Step::Assign { owner, index } => input_value((owner, index), g, v),
            Step::Apply { op, left, right } => apply_op(
                op,
                if left < pre.len() {
                    pre[left as int]
                } else {
                    0
                },
                if right < pre.len() {
                    pre[right as int]
                } else {
                    0
                },
            ),
        };
        pre.push(val)
    }
}

pub proof fn lemma_run_slots_len(steps: Seq<Step>, g: Seq<u8>, v: Seq<u8>)
    ensures
        run_slots(steps, g, v).len() == steps.len(),
    decreases steps.len(),
{
    if steps.len() > 0 {
        lemma_run_slots_len(steps.drop_last(), g, v);
    }
}

/// The slots a script prefix fills are a prefix of the slots the whole
/// script fills.
pub proof fn lemma_run_slots_prefix(steps: Seq<Step>, i: int, g: Seq<u8>, v: Seq<u8>)
    requires
        0 <= i <= steps.len(),
    ensures
        run_slots(steps.take(i), g, v) == run_slots(steps, g, v).take(i),
    decreases steps.len(),
{
    lemma_run_slots_len(steps, g, v);
    if i == steps.len() {
        assert(steps.take(i) =~= steps);
        assert(run_slots(steps, g, v).take(i) =~= run_slots(steps, g, v));
    } else {
        lemma_run_slots_len(steps.drop_last(), g, v);
        lemma_run_slots_prefix(steps.drop_last(), i, g, v);
        assert(steps.take(i) =~= steps.drop_last().take(i));
        assert(run_slots(steps, g, v).take(i) =~= run_slots(steps.drop_last(), g, v).take(i));
    }
}

proof fn lemma_input_list_len(e: Expr)
    ensures
        input_list(e).len() == input_count(e),
    decreases e,
{
    match e {
        Expr::Input(_, _) => {},
        Expr::Op(_, l, r) => {
            lemma_input_list_len(*l);
            lemma_input_list_len(*r);
        },
    }
}

/// The assign steps of an input-occurrence list.
pub open spec fn assign_steps_of(inps: Seq<(Role, usize)>) -> Seq<Step> {
    inps.map_values(|p: (Role, usize)| Step::Assign { owner: p.0, index: p.1 })
}

/// The slot the subtree's value ends up in, given the slot of its first
/// input occurrence and the slot of its first gate output.
pub open spec fn slot_of(e: Expr, input_base: nat, gate_base: nat) -> nat {
    match e {
        Expr::Input(_, _) => input_base,
        Expr::Op(_, _, _) => (gate_base + gate_count(e) - 1) as nat,
    }
}

/// Gate steps a subtree lowers to, in post-order, with absolute slot
/// references.
pub open spec fn gate_steps(e: Expr, input_base: nat, gate_base: nat) -> Seq<Step>
    decreases e,
{
    match e {
        Expr::Input(_, _) => Seq::empty(),
        Expr::Op(op, l, r) => {
            let ls = gate_steps(*l, input_base, gate_base);
            let rs = gate_steps(*r, input_base + input_count(*l), gate_base + gate_count(*l));
            ls + rs + seq![
                Step::Apply {
                    op,
                    left: slot_of(*l, input_base, gate_base) as usize,
                    right: slot_of(
                        *r,
                        input_base + input_count(*l),
                        gate_base + gate_count(*l),
                    ) as usize,
                },
            ]
        },
    }
}

proof fn lemma_gate_steps_len(e: Expr, input_base: nat, gate_base: nat)
    ensures
        gate_steps(e, input_base, gate_base).len() == gate_count(e),
    decreases e,
{
    match e {
        Expr::Input(_, _) => {},
        Expr::Op(_, l, r) => {
            lemma_gate_steps_len(*l, input_base, gate_base);
            lemma_gate_steps_len(*r, input_base + input_count(*l), gate_base + gate_count(*l));
        },
    }
}

/// The whole lowered script: every input assigned first, left to right,
/// then the gates in topological order.
pub open spec fn spec_lower(e: Expr) -> Seq<Step> {
    assign_steps_of(input_list(e)) + gate_steps(e, 0, input_count(e))
}

fn push_assign_steps(e: &Expr, steps: &mut Vec<Step>)
    ensures
        final(steps)@ == old(steps)@ + assign_steps_of(input_list(*e)),
    decreases *e,
{
    match e {
        Expr::Input(o, i) => {
            steps.push(Step::Assign { owner: *o, index: *i });
            proof {
                assert(steps@ =~= old(steps)@ + assign_steps_of(input_list(*e)));
            }
        },
        Expr::Op(_, l, r) => {
            push_assign_steps(l, steps);
            push_assign_steps(r, steps);
            proof {
                assert(assign_steps_of(input_list(*e)) =~= assign_steps_of(input_list(**l))
                    + assign_steps_of(input_list(**r)));
                assert(steps@ =~= old(steps)@ + assign_steps_of(input_list(*e)));
            }
        },
    }
}

fn push_gate_steps(e: &Expr, next_input: &mut usize, steps: &mut Vec<Step>) -> (slot: usize)
    requires
        *old(next_input) + input_count(*e) <= usize::MAX,
        old(steps)@.len() + gate_count(*e) <= usize::MAX,
    ensures
        final(steps)@ == old(steps)@ + gate_steps(
            *e,
            *old(next_input) as nat,
            old(steps)@.len() as nat,
        ),
        *final(next_input) == *old(next_input) + input_count(*e),
        slot == slot_of(*e, *old(next_input) as nat, old(steps)@.len() as nat),
    decreases *e,
{
    match e {
        Expr::Input(_, _) => {
            let s = *next_input;
            *next_input = *next_input + 1;
            proof {
                assert(steps@ =~= old(steps)@ + gate_steps(
                    *e,
                    *old(next_input) as nat,
                    old(steps)@.len() as nat,
                ));
            }
            s
        },
        Expr::Op(op, l, r) => {
            proof {
                lemma_gate_steps_len(**l, *old(next_input) as nat, old(steps)@.len() as nat);
                lemma_gate_steps_len(
                    **r,
                    *old(next_input) as nat + input_count(**l),
                    old(steps)@.len() as nat + gate_count(**l),
                );
            }
            let left_slot = push_gate_steps(l, next_input, steps);
            let right_slot = push_gate_steps(r, next_input, steps);
            let here = steps.len();
            steps.push(Step::Apply { op: *op, left: left_slot, right: right_slot });
            proof {
                assert(steps@ =~= old(steps)@ + gate_steps(
                    *e,
                    *old(next_input) as nat,
                    old(steps)@.len() as nat,
                ));
            }
            here
        },
    }
}

/// Lower a role-tagged expression tree into the ordered script both
/// parties execute: the inputs first, left to right, then the gates in
/// topological order.
pub fn lower(e: &Expr) -> (steps: Vec<Step>)
    requires
        input_count(*e) + gate_count(*e) <= usize::MAX,
    ensures
        steps@ == spec_lower(*e),
        steps@.len() == input_count(*e) + gate_count(*e),
{
    proof {
        lemma_input_list_len(*e);
        lemma_gate_steps_len(*e, 0, input_count(*e));
    }
    let mut steps: Vec<Step> = Vec::new();
    push_assign_steps(e, &mut steps);
    proof {
        assert(steps@ =~= assign_steps_of(input_list(*e)));
    }
    let mut next_input: usize = 0;
    let result_slot = push_gate_steps(e, &mut next_input, &mut steps);
    proof {
        assert(result_slot == slot_of(*e, 0, input_count(*e)));
    }
    steps
}

/// Execute a lowered script directly on plain values: the local reference
/// the two-party run is measured against. The last slot is the result.
pub fn run_script(steps: &Vec<Step>, garbler_inputs: &Vec<u8>, evaluator_inputs: &Vec<u8>) -> (r:
    u8)
    requires
        script_wf(steps@, garbler_inputs@.len(), evaluator_inputs@.len()),
        steps@.len() >= 1,
    ensures
        r == run_slots(steps@, garbler_inputs@, evaluator_inputs@).last(),
{
    proof {
        lemma_run_slots_len(steps@, garbler_inputs@, evaluator_inputs@);
    }
    let ghost all = run_slots(steps@, garbler_inputs@, evaluator_inputs@);
    let mut slots: Vec<u8> = Vec::new();
    let mut i: usize = 0;
    while i < steps.len()
        invariant
            i <= steps@.len(),
            script_wf(steps@, garbler_inputs@.len(), evaluator_inputs@.len()),
            slots@ == run_slots(steps@.take(i as int), garbler_inputs@, evaluator_inputs@),
            slots@.len() == i,
        decreases steps@.len() - i,
    {
        proof {
            lemma_run_slots_len(steps@.take(i as int), garbler_inputs@, evaluator_inputs@);
            assert(step_ok(steps@[i as int], i as int, garbler_inputs@.len(),
                evaluator_inputs@.len()));
        }
        let val: u8 = match steps[i] {
            Step::Assign { owner, index } => {
                match owner {
                    Role::Garbler => garbler_inputs[index],
                    Role::Evaluator => evaluator_inputs[index],
                }
            },
            Step::Apply { op, left, right } => {
                let a = slots[left];
                let b = slots[right];
                match op {
                    Operation::AddU8 => ((a as u16 + b as u16) % 256) as u8,
                    Operation::MulU8 => {
                        proof {
                            assert((a as int) * (b as int) <= 255 * 255) by (nonlinear_arith)
                                requires
                                    a <= 255,
                                    b <= 255,
                            ;
                        }
                        ((a as u16 * b as u16) % 256) as u8
                    },
                }
            },
        };
        slots.push(val);
        proof {
            assert(steps@.take(i + 1).drop_last() =~= steps@.take(i as int));
            assert(steps@.take(i + 1).last() == steps@[i as int]);
            assert(slots@ =~= run_slots(steps@.take(i + 1), garbler_inputs@, evaluator_inputs@));
        }
        i = i + 1;
    }
    proof {
        assert(steps@.take(steps@.len() as int) =~= steps@);
    }
    slots[slots.len() - 1]
}

/// A gate of a general circuit graph, described by the wire indices that
/// feed it.
pub trait Gate {
    /// The wire indices feeding this gate.
    fn inputs(&self) -> Vec<usize>;
}

/// A two-input AND gate over wire indices.
#[derive(Clone, Copy, Debug, PartialEq, Eq, Structural)]
pub struct AndGate {
    pub left: usize,
    pub right: usize,
}

impl Gate for AndGate {
    fn inputs(&self) -> (r: Vec<usize>)
        ensures
            r@ == seq![self.left, self.right],
    {
        let r = vec![self.left, self.right];
        proof {
            assert(r@ =~= seq![self.left, self.right]);
        }
        r
    }
}

/// The values the subtree's gates fill in, in emission order; for a subtree
/// with gates, the last one is the subtree's own value.
pub open spec fn gate_values(e: Expr, g: Seq<u8>, v: Seq<u8>) -> Seq<u8>
    decreases e,
{
    match e {
        Expr::Input(_, _) => Seq::empty(),
        Expr::Op(op, l, r) => gate_values(*l, g, v) + gate_values(*r, g, v) + seq![
            eval_expr(e, g, v),
        ],
    }
}

proof fn lemma_gate_values_len(e: Expr, g: Seq<u8>, v: Seq<u8>)
    ensures
        gate_values(e, g, v).len() == gate_count(e),
    decreases e,
{
    match e {
        Expr::Input(_, _) => {},
        Expr::Op(_, l, r) => {
            lemma_gate_values_len(*l, g, v);
            lemma_gate_values_len(*r, g, v);
        },
    }
}

proof fn lemma_input_count_pos(e: Expr)
    ensures
        input_count(e) >= 1,
    decreases e,
{
    match e {
        Expr::Input(_, _) => {},
        Expr::Op(_, l, r) => {
            lemma_input_count_pos(*l);
            lemma_input_count_pos(*r);
        },
    }
}

proof fn lemma_run_slots_assigns(inps: Seq<(Role, usize)>, g: Seq<u8>, v: Seq<u8>)
    ensures
        run_slots(assign_steps_of(inps), g, v) == inps.map_values(
            |p: (Role, usize)| input_value(p, g, v),
        ),
    decreases inps.len(),
{
    if inps.len() == 0 {
        assert(assign_steps_of(inps) =~= Seq::<Step>::empty());
        assert(run_slots(assign_steps_of(inps), g, v) =~= inps.map_values(
            |p: (Role, usize)| input_value(p, g, v),
        ));
    } else {
        lemma_run_slots_assigns(inps.drop_last(), g, v);
        assert(assign_steps_of(inps).drop_last() =~= assign_steps_of(inps.drop_last()));
        assert(assign_steps_of(inps).last() == (Step::Assign {
            owner: inps.last().0,
            index: inps.last().1,
        }));
        assert(run_slots(assign_steps_of(inps), g, v) =~= inps.map_values(
            |p: (Role, usize)| input_value(p, g, v),
        ));
    }
}

proof fn lemma_input_list_wf(e: Expr, n_garbler: nat, n_evaluator: nat)
    requires
        expr_wf(e, n_garbler, n_evaluator),
    ensures
        forall|k: int|
            0 <= k < input_list(e).len() ==> {
                let p = #[trigger] input_list(e)[k];
                if p.0 == Role::Garbler {
                    p.1 < n_garbler
                } else {
                    p.1 < n_evaluator
                }
            },
    decreases e,
{
    match e {
        Expr::Input(_, _) => {},
        Expr::Op(_, l, r) => {
            lemma_input_list_wf(*l, n_garbler, n_evaluator);
            lemma_input_list_wf(*r, n_garbler, n_evaluator);
            lemma_input_list_len(*l);
        },
    }
}

proof fn lemma_gate_steps_wf(
    e: Expr,
    input_base: nat,
    gate_base: nat,
    n_garbler: nat,
    n_evaluator: nat,
)
    requires
        input_base + input_count(e) <= gate_base,
        gate_base + gate_count(e) <= usize::MAX,
    ensures
        forall|j: int|
            0 <= j < gate_count(e) ==> step_ok(
                #[trigger] gate_steps(e, input_base, gate_base)[j],
                gate_base + j,
                n_garbler,
                n_evaluator,
            ),
    decreases e,
{
    lemma_gate_steps_len(e, input_base, gate_base);
    match e {
        Expr::Input(_, _) => {},
        Expr::Op(op, l, r) => {
            let gs = gate_steps(e, input_base, gate_base);
            let ls = gate_steps(*l, input_base, gate_base);
            let rs = gate_steps(*r, input_base + input_count(*l), gate_base + gate_count(*l));
            lemma_gate_steps_len(*l, input_base, gate_base);
            lemma_gate_steps_len(*r, input_base + input_count(*l), gate_base + gate_count(*l));
            lemma_input_count_pos(*l);
            lemma_input_count_pos(*r);
            lemma_gate_steps_wf(*l, input_base, gate_base, n_garbler, n_evaluator);
            lemma_gate_steps_wf(
                *r,
                input_base + input_count(*l),
                gate_base + gate_count(*l),
                n_garbler,
                n_evaluator,
            );
            assert forall|j: int| 0 <= j < gate_count(e) implies step_ok(
                #[trigger] gs[j],
                gate_base + j,
                n_garbler,
                n_evaluator,
            ) by {
                if j < ls.len() {
                    assert(gs[j] == ls[j]);
                } else if j < ls.len() + rs.len() {
                    assert(gs[j] == rs[j - ls.len()]);
                } else {
                    assert(gs[j] == (Step::Apply {
                        op,
                        left: slot_of(*l, input_base, gate_base) as usize,
                        right: slot_of(
                            *r,
                            input_base + input_count(*l),
                            gate_base + gate_count(*l),
                        ) as usize,
                    }));
                }
            }
        },
    }
}

proof fn lemma_gate_steps_correct(e: Expr, pre: Seq<Step>, input_base: nat, g: Seq<u8>, v: Seq<u8>)
    requires
        input_base + input_count(e) <= pre.len(),
        pre.len() + gate_count(e) <= usize::MAX,
        forall|k: int|
            0 <= k < input_count(e) ==> run_slots(pre, g, v)[input_base + k] == input_value(
                #[trigger] input_list(e)[k],
                g,
                v,
            ),
    ensures
        run_slots(pre + gate_steps(e, input_base, pre.len() as nat), g, v) == run_slots(pre, g, v)
            + gate_values(e, g, v),
        run_slots(pre + gate_steps(e, input_base, pre.len() as nat), g, v)[slot_of(
            e,
            input_base,
            pre.len() as nat,
        ) as int] == eval_expr(e, g, v),
    decreases e,
{
    let gb = pre.len() as nat;
    lemma_run_slots_len(pre, g, v);
    lemma_input_list_len(e);
    match e {
        Expr::Input(o, i) => {
            assert(pre + gate_steps(e, input_base, gb) =~= pre);
            assert(run_slots(pre, g, v) + gate_values(e, g, v) =~= run_slots(pre, g, v));
            assert(input_list(e)[0] == (o, i));
            assert(run_slots(pre, g, v)[input_base as int] == input_value((o, i), g, v));
        },
        Expr::Op(op, l, r) => {
            let run0 = run_slots(pre, g, v);
            let ls = gate_steps(*l, input_base, gb);
            let rs = gate_steps(*r, input_base + input_count(*l), gb + gate_count(*l));
            lemma_input_list_len(*l);
            lemma_input_list_len(*r);
            lemma_gate_steps_len(*l, input_base, gb);
            lemma_gate_steps_len(*r, input_base + input_count(*l), gb + gate_count(*l));
            lemma_gate_values_len(*l, g, v);
            lemma_gate_values_len(*r, g, v);
            lemma_input_count_pos(*l);
            lemma_input_count_pos(*r);

            // left subtree
            assert forall|k: int| 0 <= k < input_count(*l) implies run0[input_base + k]
                == input_value(#[trigger] input_list(*l)[k], g, v) by {
                assert(input_list(*l)[k] == input_list(e)[k]);
            }
            lemma_gate_steps_correct(*l, pre, input_base, g, v);
            let pre1 = pre + ls;
            let run1 = run_slots(pre1, g, v);
            lemma_run_slots_len(pre1, g, v);
            assert(run1 == run0 + gate_values(*l, g, v));

            // right subtree
            assert(pre1.len() == gb + gate_count(*l));
            assert forall|k: int| 0 <= k < input_count(*r) implies run1[input_base + input_count(
                *l,
            ) + k] == input_value(#[trigger] input_list(*r)[k], g, v) by {
                assert(input_list(*r)[k] == input_list(e)[input_count(*l) + k]);
                assert(run1[input_base + input_count(*l) + k] == run0[input_base + input_count(*l)
                    + k]);
            }
            lemma_gate_steps_correct(*r, pre1, input_base + input_count(*l), g, v);
            let pre2 = pre1 + rs;
            let run2 = run_slots(pre2, g, v);
            lemma_run_slots_len(pre2, g, v);
            assert(run2 == run1 + gate_values(*r, g, v));

            // the left and right results survive into the combined slots
            let left_slot = slot_of(*l, input_base, gb);
            let right_slot = slot_of(*r, input_base + input_count(*l), gb + gate_count(*l));
            assert(left_slot < pre1.len());
            assert(run2[left_slot as int] == run1[left_slot as int]);
            assert(run1[left_slot as int] == eval_expr(*l, g, v));
            assert(run2[right_slot as int] == eval_expr(*r, g, v));

            // the apply step computes the node value
            let apply = Step::Apply { op, left: left_slot as usize, right: right_slot as usize };
            let pre3 = pre2 + seq![apply];
            assert(pre + gate_steps(e, input_base, gb) =~= pre3);
            assert(pre3.drop_last() =~= pre2);
            assert(pre3.last() == apply);
            let run3 = run_slots(pre3, g, v);
            assert(run3 == run2.push(apply_op(op, eval_expr(*l, g, v), eval_expr(*r, g, v))));
            assert(run3 == run2.push(eval_expr(e, g, v)));
            assert(run0 + gate_values(e, g, v) =~= run2.push(eval_expr(e, g, v)));
            assert(run3.len() == pre3.len()) by {
                lemma_run_slots_len(pre3, g, v);
            }
            assert(slot_of(e, input_base, gb) == pre3.len() - 1);
            assert(run3[slot_of(e, input_base, gb) as int] == eval_expr(e, g, v));
        },
    }
}

/// Law of lowering: for a well-formed expression, the lowered script is
/// well formed — inputs first, every gate referencing earlier slots — and
/// running it fills the final slot with exactly the expression's value.
pub proof fn lemma_lower_correct(e: Expr, g: Seq<u8>, v: Seq<u8>)
    requires
        expr_wf(e, g.len(), v.len()),
        input_count(e) + gate_count(e) <= usize::MAX,
    ensures
        spec_lower(e).len() == input_count(e) + gate_count(e),
        spec_lower(e).len() >= 1,
        script_wf(spec_lower(e), g.len(), v.len()),
        run_slots(spec_lower(e), g, v).last() == eval_expr(e, g, v),
{
    let assigns = assign_steps_of(input_list(e));
    let gates = gate_steps(e, 0, input_count(e));
    lemma_input_list_len(e);
    lemma_gate_steps_len(e, 0, input_count(e));
    lemma_input_count_pos(e);
    lemma_gate_values_len(e, g, v);
    lemma_run_slots_assigns(input_list(e), g, v);
    lemma_run_slots_len(assigns, g, v);

    // the script is well formed
    lemma_input_list_wf(e, g.len(), v.len());
    lemma_gate_steps_wf(e, 0, input_count(e), g.len(), v.len());
    assert forall|j: int| 0 <= j < spec_lower(e).len() implies step_ok(
        #[trigger] spec_lower(e)[j],
        j,
        g.len(),
        v.len(),
    ) by {
        if j < assigns.len() {
            assert(spec_lower(e)[j] == assigns[j]);
            assert(assigns[j] == (Step::Assign {
                owner: input_list(e)[j].0,
                index: input_list(e)[j].1,
            }));
        } else {
            assert(spec_lower(e)[j] == gates[j - assigns.len()]);
        }
    }

    // running it computes the expression
    assert forall|k: int| 0 <= k < input_count(e) implies run_slots(assigns, g, v)[0 + k]
        == input_value(#[trigger] input_list(e)[k], g, v) by {
        assert(run_slots(assigns, g, v)[k] == input_list(e).map_values(
            |p: (Role, usize)| input_value(p, g, v),
        )[k]);
    }
    lemma_gate_steps_correct(e, assigns, 0, g, v);
    assert(spec_lower(e) == assigns + gates);
    let full = run_slots(spec_lower(e), g, v);
    lemma_run_slots_len(spec_lower(e), g, v);
    assert(full == run_slots(assigns, g, v) + gate_values(e, g, v));
    if gate_count(e) == 0 {
        match e {
            Expr::Input(o, i) => {
                assert(full.last() == run_slots(assigns, g, v)[0]);
                assert(full.last() == input_value(input_list(e)[0], g, v));
            },
            Expr::Op(_, _, _) => {
                assert(false);
            },
        }
    } else {
        assert(full.last() == gate_values(e, g, v).last());
        match e {
            Expr::Input(_, _) => {
                assert(false);
            },
            Expr::Op(op, l, r) => {
                assert(gate_values(e, g, v).last() == eval_expr(e, g, v));
            },
        }
    }
}

} // verus!
