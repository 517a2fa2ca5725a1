//! The byte format of wires and gate descriptors.
//!
//! Both ends must agree on one fixed layout, so it is part of the protocol:
//! a label is its 16 token bytes, little-endian; an evaluating wire is its
//! labels in wire order; a garbling wire is its pairs in wire order, zero
//! label before one label; a gate list is a count followed by each gate's
//! pair count and pairs. A payload that does not parse exactly is a fatal
//! decoding error — it means the peers are out of step.

use vstd::prelude::*;
use vstd::bytes::{
    spec_u128_to_le_bytes, spec_u128_from_le_bytes, u128_to_le_bytes, u128_from_le_bytes,
    lemma_auto_spec_u128_to_from_le_bytes, spec_u64_to_le_bytes, spec_u64_from_le_bytes,
    u64_to_le_bytes, u64_from_le_bytes, lemma_auto_spec_u64_to_from_le_bytes,
};
use vstd::slice::{slice_subrange, slice_to_vec};
use crate::MpcError;
use crate::labels::Label;
use crate::wires::{LabelPair, GarblingWire, EvaluatingWire};
use crate::gates::Gate;

verus! {

/// The 16 bytes of one label.
pub open spec fn label_bytes(l: Label) -> Seq<u8> {
    spec_u128_to_le_bytes(l.0)
}

/// The bytes of a label sequence, in order.
pub open spec fn labels_bytes(ls: Seq<Label>) -> Seq<u8>
    decreases ls.len(),
{
    if ls.len() == 0 {
        Seq::empty()
    } else {
        labels_bytes(ls.drop_last()) + label_bytes(ls.last())
    }
}

/// The labels a byte sequence of whole 16-byte chunks holds.
pub open spec fn labels_of_bytes(b: Seq<u8>) -> Seq<Label>
    recommends
        b.len() % 16 == 0,
{
    Seq::new(b.len() / 16, |i: int| Label(spec_u128_from_le_bytes(b.subrange(16 * i, 16 * i + 16))))
}

pub proof fn lemma_labels_bytes_len(ls: Seq<Label>)
    ensures
        labels_bytes(ls).len() == 16 * ls.len(),
    decreases ls.len(),
{
    lemma_auto_spec_u128_to_from_le_bytes();
    if ls.len() > 0 {
        lemma_labels_bytes_len(ls.drop_last());
    }
}

proof fn lemma_labels_bytes_index(ls: Seq<Label>, i: int)
    requires
        0 <= i < ls.len(),
    ensures
        labels_bytes(ls).subrange(16 * i, 16 * i + 16) == label_bytes(ls[i]),
    decreases ls.len(),
{
    lemma_auto_spec_u128_to_from_le_bytes();
    lemma_labels_bytes_len(ls);
    lemma_labels_bytes_len(ls.drop_last());
    if i == ls.len() - 1 {
        assert(labels_bytes(ls).subrange(16 * i, 16 * i + 16) =~= label_bytes(ls.last()));
    } else {
        lemma_labels_bytes_index(ls.drop_last(), i);
        assert(labels_bytes(ls).subrange(16 * i, 16 * i + 16) =~= labels_bytes(
            ls.drop_last(),
        ).subrange(16 * i, 16 * i + 16));
    }
}

/// Law: parsing the serialization of any label sequence gives the sequence
/// back, label for label.
pub proof fn lemma_labels_round_trip(ls: Seq<Label>)
    ensures
        labels_of_bytes(labels_bytes(ls)) == ls,
{
    lemma_auto_spec_u128_to_from_le_bytes();
    lemma_labels_bytes_len(ls);
    vstd::arithmetic::div_mod::lemma_div_by_multiple(ls.len() as int, 16);
    assert(labels_bytes(ls).len() == ls.len() * 16);
    assert forall|i: int| 0 <= i < ls.len() implies labels_of_bytes(labels_bytes(ls))[i] == ls[i] by {
        lemma_labels_bytes_index(ls, i);
        assert(labels_of_bytes(labels_bytes(ls))[i] == Label(
            spec_u128_from_le_bytes(label_bytes(ls[i])),
        ));
        assert(spec_u128_to_le_bytes(ls[i].0).len() == 16);
        assert(spec_u128_from_le_bytes(spec_u128_to_le_bytes(ls[i].0)) == ls[i].0);
    }
    assert(labels_of_bytes(labels_bytes(ls)) =~= ls);
}

fn serialize_labels(ls: &Vec<Label>) -> (r: Vec<u8>)
    ensures
        r@ == labels_bytes(ls@),
{
    let mut r: Vec<u8> = Vec::new();
    let mut i: usize = 0;
    while i < ls.len()
        invariant
            i <= ls@.len(),
            r@ == labels_bytes(ls@.take(i as int)),
        decreases ls@.len() - i,
    {
        let mut chunk = u128_to_le_bytes(ls[i].0);
        r.append(&mut chunk);
        proof {
            assert(ls@.take(i + 1).drop_last() =~= ls@.take(i as int));
        }
        i = i + 1;
    }
    proof {
        assert(ls@.take(ls@.len() as int) =~= ls@);
    }
    r
}

fn deserialize_labels(b: &Vec<u8>) -> (r: Result<Vec<Label>, MpcError>)
    ensures
        b@.len() % 16 == 0 ==> (r matches Ok(ls) && ls@ == labels_of_bytes(b@)),
        b@.len() % 16 != 0 ==> r == Err::<Vec<Label>, MpcError>(MpcError::Decoding),
{
    if b.len() % 16 != 0 {
        return Err(MpcError::Decoding);
    }
    let n = b.len() / 16;
    proof {
        vstd::arithmetic::div_mod::lemma_fundamental_div_mod(b@.len() as int, 16);
    }
    let mut ls: Vec<Label> = Vec::new();
    let mut i: usize = 0;
    while i < n
        invariant
            i <= n,
            n == b@.len() / 16,
            b@.len() == 16 * n,
            16 * n <= usize::MAX,
            ls@.len() == i,
            forall|j: int| 0 <= j < i ==> ls@[j] == labels_of_bytes(b@)[j],
        decreases n - i,
    {
        let chunk = slice_subrange(b.as_slice(), 16 * i, 16 * i + 16);
        proof {
            assert(chunk@ =~= b@.subrange(16 * (i as int), 16 * (i as int) + 16));
        }
        let x = u128_from_le_bytes(chunk);
        ls.push(Label(x));
        i = i + 1;
    }
    proof {
        assert(ls@ =~= labels_of_bytes(b@));
    }
    Ok(ls)
}

/// An evaluating wire's payload: its labels, in wire order.
pub open spec fn evaluating_wire_bytes(w: EvaluatingWire) -> Seq<u8> {
    labels_bytes(w.bits@)
}

/// Serialize an evaluating wire for the channel.
pub fn serialize_evaluating_wire(w: &EvaluatingWire) -> (r: Vec<u8>)
    ensures
        r@ == evaluating_wire_bytes(*w),
{
    serialize_labels(&w.bits)
}

/// Deserialize an evaluating wire; a payload that is not a whole number of
/// labels is a fatal decoding error.
pub fn deserialize_evaluating_wire(b: &Vec<u8>) -> (r: Result<EvaluatingWire, MpcError>)
    ensures
        b@.len() % 16 == 0 ==> (r matches Ok(w) && w.bits@ == labels_of_bytes(b@)),
        b@.len() % 16 != 0 ==> r == Err::<EvaluatingWire, MpcError>(MpcError::Decoding),
{
    match deserialize_labels(b) {
        Ok(ls) => Ok(EvaluatingWire { bits: ls }),
        Err(e) => Err(e),
    }
}

/// Law: deserializing a re-serialized evaluating wire yields a wire whose
/// labels equal the original's, position by position.
pub proof fn lemma_evaluating_wire_round_trip(w: EvaluatingWire)
    ensures
        labels_of_bytes(evaluating_wire_bytes(w)) == w.bits@,
{
    lemma_labels_round_trip(w.bits@);
}

/// A garbling wire's pairs flattened to labels: zero label, then one label,
/// position by position.
pub open spec fn pair_labels(ps: Seq<LabelPair>) -> Seq<Label> {
    Seq::new(
        2 * ps.len(),
        |i: int|
            if i % 2 == 0 {
                ps[i / 2].zero
            } else {
                ps[i / 2].one
            },
    )
}

/// The pairs a label sequence of even length holds.
pub open spec fn pairs_of_labels(ls: Seq<Label>) -> Seq<LabelPair>
    recommends
        ls.len() % 2 == 0,
{
    Seq::new(ls.len() / 2, |i: int| LabelPair { zero: ls[2 * i], one: ls[2 * i + 1] })
}

/// Law: flattening a pair sequence to labels and regrouping is the identity.
pub proof fn lemma_pairs_round_trip(ps: Seq<LabelPair>)
    ensures
        pairs_of_labels(pair_labels(ps)) == ps,
{
    assert(pairs_of_labels(pair_labels(ps)) =~= ps);
}

fn flatten_pairs(ps: &Vec<LabelPair>) -> (r: Vec<Label>)
    ensures
        r@ == pair_labels(ps@),
{
    let mut r: Vec<Label> = Vec::new();
    let mut i: usize = 0;
    while i < ps.len()
        invariant
            i <= ps@.len(),
            r@.len() == 2 * i,
            forall|j: int| 0 <= j < 2 * i ==> r@[j] == pair_labels(ps@)[j],
        decreases ps@.len() - i,
    {
        r.push(ps[i].zero);
        r.push(ps[i].one);
        i = i + 1;
    }
    proof {
        assert(r@ =~= pair_labels(ps@));
    }
    r
}

fn group_pairs(ls: &Vec<Label>) -> (r: Result<Vec<LabelPair>, MpcError>)
    ensures
        ls@.len() % 2 == 0 ==> (r matches Ok(ps) && ps@ == pairs_of_labels(ls@)),
        ls@.len() % 2 != 0 ==> r == Err::<Vec<LabelPair>, MpcError>(MpcError::Decoding),
{
    if ls.len() % 2 != 0 {
        return Err(MpcError::Decoding);
    }
    let n = ls.len() / 2;
    proof {
        vstd::arithmetic::div_mod::lemma_fundamental_div_mod(ls@.len() as int, 2);
    }
    let mut ps: Vec<LabelPair> = Vec::new();
    let mut i: usize = 0;
    while i < n
        invariant
            i <= n,
            n == ls@.len() / 2,
            ls@.len() == 2 * n,
            2 * n <= usize::MAX,
            ps@.len() == i,
            forall|j: int| 0 <= j < i ==> ps@[j] == pairs_of_labels(ls@)[j],
        decreases n - i,
    {
        ps.push(LabelPair { zero: ls[2 * i], one: ls[2 * i + 1] });
        i = i + 1;
    }
    proof {
        assert(ps@ =~= pairs_of_labels(ls@));
    }
    Ok(ps)
}

/// A garbling wire's payload: its flattened pair labels.
pub open spec fn garbling_wire_bytes(w: GarblingWire) -> Seq<u8> {
    labels_bytes(pair_labels(w.bits@))
}

/// Serialize a garbling wire. Only the holder of the pairs may do this:
/// shipping a garbling wire to the Evaluator would let it decode freely, so
/// the session layer only ever frames evaluating wires and gate descriptors.
pub fn serialize_garbling_wire(w: &GarblingWire) -> (r: Vec<u8>)
    ensures
        r@ == garbling_wire_bytes(*w),
{
    let ls = flatten_pairs(&w.bits);
    serialize_labels(&ls)
}

/// A payload that holds a whole number of label pairs: whole 16-byte labels,
/// evenly many of them.
pub open spec fn is_pairs_payload(b: Seq<u8>) -> bool {
    b.len() % 16 == 0 && (b.len() / 16) % 2 == 0
}

/// Deserialize a garbling wire; a payload that is not a whole number of
/// label pairs is a fatal decoding error.
pub fn deserialize_garbling_wire(b: &Vec<u8>) -> (r: Result<GarblingWire, MpcError>)
    ensures
        is_pairs_payload(b@) ==> (r matches Ok(w) && w.bits@ == pairs_of_labels(
            labels_of_bytes(b@),
        )),
        !is_pairs_payload(b@) ==> r == Err::<GarblingWire, MpcError>(MpcError::Decoding),
{
    match deserialize_labels(b) {
        Ok(ls) => {
            match group_pairs(&ls) {
                Ok(ps) => Ok(GarblingWire { bits: ps }),
                Err(e) => Err(e),
            }
        },
        Err(e) => Err(e),
    }
}

/// Law: deserializing a re-serialized garbling wire yields a wire whose
/// label pairs equal the original's, position by position.
pub proof fn lemma_garbling_wire_round_trip(w: GarblingWire)
    ensures
        is_pairs_payload(garbling_wire_bytes(w)),
        pairs_of_labels(labels_of_bytes(garbling_wire_bytes(w))) == w.bits@,
{
    lemma_labels_round_trip(pair_labels(w.bits@));
    lemma_pairs_round_trip(w.bits@);
    lemma_labels_bytes_len(pair_labels(w.bits@));
    let n = w.bits@.len() as int;
    vstd::arithmetic::div_mod::lemma_mod_multiples_basic(2 * n, 16);
    vstd::arithmetic::div_mod::lemma_div_by_multiple(2 * n, 16);
    vstd::arithmetic::div_mod::lemma_mod_multiples_basic(n, 2);
}

/// One gate descriptor's bytes: its output wire's pair count as an 8-byte
/// little-endian prefix, then the wire's pairs.
pub open spec fn gate_bytes(g: Gate) -> Seq<u8> {
    spec_u64_to_le_bytes(g.output.bits@.len() as u64) + garbling_wire_bytes(g.output)
}

/// The gates of a list, one after the other.
pub open spec fn gates_tail_bytes(gs: Seq<Gate>) -> Seq<u8>
    decreases gs.len(),
{
    if gs.len() == 0 {
        Seq::empty()
    } else {
        gate_bytes(gs.first()) + gates_tail_bytes(gs.drop_first())
    }
}

/// A gate list's payload: how many gates there are, as an 8-byte
/// little-endian prefix, then each gate in order.
pub open spec fn gates_bytes(gs: Seq<Gate>) -> Seq<u8> {
    spec_u64_to_le_bytes(gs.len() as u64) + gates_tail_bytes(gs)
}

/// What a gate parse finds at the head of a byte sequence: the pairs of one
/// gate's output wire and the bytes it occupied, if the sequence starts
/// with a complete count prefix and that many complete pairs.
pub open spec fn parse_gate(b: Seq<u8>) -> Option<(Seq<LabelPair>, int)> {
    if b.len() < 8 {
        None
    } else {
        let n = spec_u64_from_le_bytes(b.take(8)) as int;
        if b.len() - 8 < 32 * n {
            None
        } else {
            Some((pairs_of_labels(labels_of_bytes(b.subrange(8, 8 + 32 * n))), 8 + 32 * n))
        }
    }
}

/// The pair lists of exactly `count` gates filling `b` completely, if they do.
pub open spec fn parse_gates_tail(b: Seq<u8>, count: int) -> Option<Seq<Seq<LabelPair>>>
    decreases count,
{
    if count <= 0 {
        if b.len() == 0 {
            Some(Seq::empty())
        } else {
            None
        }
    } else {
        match parse_gate(b) {
            None => None,
            Some((ps, used)) => match parse_gates_tail(b.skip(used), count - 1) {
                None => None,
                Some(rest) => Some(Seq::empty().push(ps) + rest),
            },
        }
    }
}

/// The pair lists a whole gate-list payload holds, if it parses exactly.
pub open spec fn parse_gates(b: Seq<u8>) -> Option<Seq<Seq<LabelPair>>> {
    if b.len() < 8 {
        None
    } else {
        parse_gates_tail(b.skip(8), spec_u64_from_le_bytes(b.take(8)) as int)
    }
}

proof fn lemma_gates_tail_bytes_push(gs: Seq<Gate>, g: Gate)
    ensures
        gates_tail_bytes(gs.push(g)) == gates_tail_bytes(gs) + gate_bytes(g),
    decreases gs.len(),
{
    if gs.len() == 0 {
        assert(gs.push(g).drop_first() =~= Seq::<Gate>::empty());
        assert(gs.push(g).first() == g);
        assert(gates_tail_bytes(gs.push(g).drop_first()) == Seq::<u8>::empty());
        assert(gates_tail_bytes(gs.push(g)) =~= gate_bytes(g));
        assert(gates_tail_bytes(gs) + gate_bytes(g) =~= gate_bytes(g));
    } else {
        assert(gs.push(g).drop_first() =~= gs.drop_first().push(g));
        lemma_gates_tail_bytes_push(gs.drop_first(), g);
        assert(gates_tail_bytes(gs.push(g)) =~= gates_tail_bytes(gs) + gate_bytes(g));
    }
}

/// Serialize a gate list for the channel.
pub fn serialize_gates(gs: &Vec<Gate>) -> (r: Vec<u8>)
    ensures
        r@ == gates_bytes(gs@),
{
    let mut r: Vec<u8> = u64_to_le_bytes(gs.len() as u64);
    let mut i: usize = 0;
    while i < gs.len()
        invariant
            i <= gs@.len(),
            r@ == spec_u64_to_le_bytes(gs@.len() as u64) + gates_tail_bytes(gs@.take(i as int)),
        decreases gs@.len() - i,
    {
        let mut header = u64_to_le_bytes(gs[i].output.bits.len() as u64);
        r.append(&mut header);
        let mut body = serialize_garbling_wire(&gs[i].output);
        r.append(&mut body);
        proof {
            lemma_gates_tail_bytes_push(gs@.take(i as int), gs@[i as int]);
            assert(gs@.take(i + 1) =~= gs@.take(i as int).push(gs@[i as int]));
            assert(r@ =~= spec_u64_to_le_bytes(gs@.len() as u64) + gates_tail_bytes(
                gs@.take(i + 1),
            ));
        }
        i = i + 1;
    }
    proof {
        assert(gs@.take(gs@.len() as int) =~= gs@);
    }
    r
}

/// The shape a parsed gate list takes as concrete gates: each parsed pair
/// list is the output wire of one gate, position by position.
pub open spec fn gates_match_pairs(gs: Seq<Gate>, pss: Seq<Seq<LabelPair>>) -> bool {
    gs.len() == pss.len() && forall|i: int|
        0 <= i < gs.len() ==> (#[trigger] gs[i]).output.bits@ == pss[i]
}

/// Deserialize a gate list; a payload that does not hold exactly the
/// announced gates is a fatal decoding error.
pub fn deserialize_gates(b: &Vec<u8>) -> (r: Result<Vec<Gate>, MpcError>)
    ensures
        match parse_gates(b@) {
            Some(pss) => r matches Ok(gs) && gates_match_pairs(gs@, pss),
            None => r == Err::<Vec<Gate>, MpcError>(MpcError::Decoding),
        },
{
    proof {
        lemma_auto_spec_u64_to_from_le_bytes();
    }
    if b.len() < 8 {
        return Err(MpcError::Decoding);
    }
    let header = slice_subrange(b.as_slice(), 0, 8);
    proof {
        assert(header@ =~= b@.take(8));
    }
    let count = u64_from_le_bytes(header);
    let ghost tail = b@.skip(8);
    let mut gs: Vec<Gate> = Vec::new();
    let mut pos: usize = 8;
    let mut k: u64 = 0;
    let ghost full = parse_gates_tail(tail, count as int);
    while k < count
        invariant
            0 <= k <= count,
            8 <= pos <= b@.len(),
            gs@.len() == k,
            tail == b@.skip(8),
            full == parse_gates_tail(tail, count as int),
            parse_gates(b@) == full,
            ({
                let rem = parse_gates_tail(b@.skip(pos as int), count - k);
                match rem {
                    None => full is None,
                    Some(rest) => full matches Some(pss) && pss.len() == k + rest.len()
                        && gates_match_pairs(gs@, pss.take(k as int)) && rest == pss.skip(k as int),
                }
            }),
        decreases count - k,
    {
        let ghost pre_suffix = b@.skip(pos as int);
        let ghost rem_pre = parse_gates_tail(pre_suffix, count - k);
        let avail = b.len() - pos;
        if avail < 8 {
            proof {
                assert(rem_pre is None);
            }
            return Err(MpcError::Decoding);
        }
        let gate_header = slice_subrange(b.as_slice(), pos, pos + 8);
        proof {
            assert(gate_header@ =~= pre_suffix.take(8));
        }
        let n64 = u64_from_le_bytes(gate_header);
        let rem_bytes = avail - 8;
        // `rem_bytes < 32 * n` exactly when `n` exceeds `rem_bytes / 32`.
        proof {
            vstd::arithmetic::div_mod::lemma_fundamental_div_mod(rem_bytes as int, 32);
        }
        if n64 > (rem_bytes / 32) as u64 {
            proof {
                assert(rem_bytes < 32 * (n64 as int)) by (nonlinear_arith)
                    requires
                        rem_bytes == 32 * (rem_bytes as int / 32) + (rem_bytes as int) % 32,
                        0 <= (rem_bytes as int) % 32 < 32,
                        n64 > rem_bytes as int / 32,
                ;
                assert(rem_pre is None);
            }
            return Err(MpcError::Decoding);
        }
        let n = n64 as usize;
        proof {
            assert(32 * (n as int) <= rem_bytes) by (nonlinear_arith)
                requires
                    rem_bytes == 32 * (rem_bytes as int / 32) + (rem_bytes as int) % 32,
                    0 <= (rem_bytes as int) % 32,
                    n <= rem_bytes as int / 32,
            ;
        }
        let body = slice_to_vec(slice_subrange(b.as_slice(), pos + 8, pos + 8 + 32 * n));
        proof {
            assert(body@ =~= pre_suffix.subrange(8, 8 + 32 * (n as int)));
            let m = n as int;
            vstd::arithmetic::div_mod::lemma_mod_multiples_basic(2 * m, 16);
            vstd::arithmetic::div_mod::lemma_div_by_multiple(2 * m, 16);
            vstd::arithmetic::div_mod::lemma_mod_multiples_basic(m, 2);
            assert(32 * m == 16 * (2 * m)) by (nonlinear_arith);
            assert(is_pairs_payload(body@));
        }
        let wire = match deserialize_garbling_wire(&body) {
            Ok(w) => w,
            Err(_) => {
                proof {
                    assert(false);
                }
                return Err(MpcError::Decoding);
            },
        };
        gs.push(Gate { output: wire });
        pos = pos + 8 + 32 * n;
        k = k + 1;
        proof {
            let used = 8 + 32 * (n as int);
            assert(parse_gate(pre_suffix) == Some(
                (pairs_of_labels(labels_of_bytes(body@)), used),
            ));
            assert(b@.skip(pos as int) =~= pre_suffix.skip(used));
            let rem_post = parse_gates_tail(b@.skip(pos as int), count - k);
            match rem_post {
                None => {
                    assert(rem_pre is None);
                },
                Some(rest_post) => {
                    assert(rem_pre == Some(Seq::empty().push(body_pairs_of(body@)) + rest_post));
                    let pss = full.unwrap();
                    assert(gates_match_pairs(gs@, pss.take(k as int)) && rest_post == pss.skip(
                        k as int,
                    )) by {
                        let rest_pre = rem_pre.unwrap();
                        assert(rest_pre[0] == body_pairs_of(body@));
                        assert(rest_pre.skip(1) =~= rest_post);
                        assert(pss.take(k as int) =~= pss.take(k - 1).push(pss[k - 1]));
                        assert(pss[k - 1] == rest_pre[0]);
                        assert(pss.skip(k - 1).skip(1) =~= pss.skip(k as int));
                        assert(rest_pre =~= pss.skip(k - 1));
                    }
                },
            }
        }
    }
    if pos != b.len() {
        proof {
            assert(b@.skip(pos as int).len() > 0);
            assert(parse_gates_tail(b@.skip(pos as int), 0) is None);
        }
        return Err(MpcError::Decoding);
    }
    proof {
        assert(b@.skip(pos as int).len() == 0);
        assert(parse_gates_tail(b@.skip(pos as int), 0) == Some(Seq::<Seq<LabelPair>>::empty()));
        let pss = full.unwrap();
        assert(pss.take(k as int) =~= pss);
        assert(gates_match_pairs(gs@, pss));
    }
    Ok(gs)
}

/// The pairs held by one gate body of whole label pairs.
pub open spec fn body_pairs_of(b: Seq<u8>) -> Seq<LabelPair> {
    pairs_of_labels(labels_of_bytes(b))
}

/// The output-wire pair lists of a gate sequence, in order.
pub open spec fn gates_pairs(gs: Seq<Gate>) -> Seq<Seq<LabelPair>> {
    Seq::new(gs.len(), |i: int| gs[i].output.bits@)
}

proof fn lemma_gate_bytes_parse(g: Gate, rest: Seq<u8>)
    requires
        g.output.bits@.len() <= u64::MAX,
    ensures
        parse_gate(gate_bytes(g) + rest) == Some(
            (g.output.bits@, 8 + 32 * g.output.bits@.len() as int),
        ),
        (gate_bytes(g) + rest).skip(8 + 32 * g.output.bits@.len() as int) == rest,
{
    lemma_auto_spec_u64_to_from_le_bytes();
    lemma_labels_bytes_len(pair_labels(g.output.bits@));
    let n = g.output.bits@.len() as int;
    assert(16 * (2 * n) == 32 * n) by (nonlinear_arith);
    let full = gate_bytes(g) + rest;
    assert(full.take(8) =~= spec_u64_to_le_bytes(g.output.bits@.len() as u64));
    assert(full.subrange(8, 8 + 32 * n) =~= garbling_wire_bytes(g.output));
    lemma_garbling_wire_round_trip(g.output);
    assert(full.skip(8 + 32 * n) =~= rest);
}

proof fn lemma_gates_tail_round_trip(gs: Seq<Gate>)
    requires
        forall|i: int| 0 <= i < gs.len() ==> (#[trigger] gs[i]).output.bits@.len() <= u64::MAX,
    ensures
        parse_gates_tail(gates_tail_bytes(gs), gs.len() as int) == Some(gates_pairs(gs)),
    decreases gs.len(),
{
    if gs.len() == 0 {
        assert(gates_pairs(gs) =~= Seq::<Seq<LabelPair>>::empty());
    } else {
        let g = gs.first();
        let rest = gates_tail_bytes(gs.drop_first());
        lemma_gate_bytes_parse(g, rest);
        lemma_gates_tail_round_trip(gs.drop_first());
        assert(Seq::empty().push(g.output.bits@) + gates_pairs(gs.drop_first()) =~= gates_pairs(
            gs,
        ));
    }
}

/// Law: a serialized gate list parses back to the same gates, output wire
/// for output wire.
pub proof fn lemma_gates_round_trip(gs: Seq<Gate>)
    requires
        gs.len() <= u64::MAX,
        forall|i: int| 0 <= i < gs.len() ==> (#[trigger] gs[i]).output.bits@.len() <= u64::MAX,
    ensures
        parse_gates(gates_bytes(gs)) == Some(gates_pairs(gs)),
{
    lemma_auto_spec_u64_to_from_le_bytes();
    let full = gates_bytes(gs);
    assert(full.take(8) =~= spec_u64_to_le_bytes(gs.len() as u64));
    assert(full.skip(8) =~= gates_tail_bytes(gs));
    lemma_gates_tail_round_trip(gs);
}

} // verus!
