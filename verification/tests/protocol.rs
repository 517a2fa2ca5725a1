use obliv_rust::labels::GarblingMode;
use obliv_rust::wires::to_u8;
use obliv_rust::gates::Operation;
use obliv_rust::channel::{Channel, transfer};
use obliv_rust::session::{
    Party, Role, Protocol, garbler_assign_own_value, evaluator_receive_value,
    garbler_assign_evaluator_value, evaluator_choice_bits, evaluator_assemble_labels, ot_select,
    garbler_gate, evaluator_gate,
};
use obliv_rust::MpcError;
use obliv_rust::session::{evaluator_reveal, garbler_receive_reveal};
use obliv_rust::circuit::{lower, Expr};
use obliv_rust::semihonest_2pc::{run_circuit, run_two_party};
use rand::SeedableRng;
use rand::rngs::StdRng;

const SEED: [u8; 32] = [42u8; 32];

#[test]
fn mpc_core_plain_circuit_without_ot() {
    let mut rng = StdRng::from_seed(SEED);
    let mut garbler_chan = Channel::new();
    let mut evaluator_chan = Channel::new();

    // ------------------ Garbler
    let alice = Party { id: 1 };
    let bob = Party { id: 2 };
    let _protocol = Protocol {
        parties: vec![alice.clone(), bob],
        me: alice,
        role: Role::Garbler,
    };

    let a1 = garbler_assign_own_value(GarblingMode::Plain, 100, &mut rng, &mut garbler_chan);
    let a2 = garbler_assign_own_value(GarblingMode::Plain, 50, &mut rng, &mut garbler_chan);
    let _g = garbler_gate(Operation::AddU8, a1, a2, &mut garbler_chan);

    transfer(&mut garbler_chan, &mut evaluator_chan);

    // ------------------ Evaluator
    let alice = Party { id: 1 };
    let bob = Party { id: 2 };
    let _protocol = Protocol {
        parties: vec![alice, bob.clone()],
        me: bob,
        role: Role::Evaluator,
    };

    let a1 = evaluator_receive_value(&mut evaluator_chan).unwrap();
    let a2 = evaluator_receive_value(&mut evaluator_chan).unwrap();
    let g = evaluator_gate(Operation::AddU8, a1, a2, &mut evaluator_chan).unwrap();

    let plain_g = to_u8(&g);
    assert_eq!(plain_g, 150);

    // two 128-byte value frames and one 272-byte descriptor frame,
    // each with an 8-byte length prefix
    assert_eq!(garbler_chan.bytes_written(), 128 + 128 + 272 + 3 * 8);
    assert_eq!(evaluator_chan.bytes_read(), garbler_chan.bytes_written());

    println!(
        "Receiver communication (read): {} bytes",
        evaluator_chan.bytes_read()
    );
    println!(
        "Receiver communication (write): {} bytes",
        evaluator_chan.bytes_written()
    );
}

#[test]
fn plain_garbling_plain_circuit_without_ot() {
    let mut rng = StdRng::from_seed(SEED);
    let mut garbler_chan = Channel::new();
    let mut evaluator_chan = Channel::new();

    let a1 = garbler_assign_own_value(GarblingMode::Plain, 10, &mut rng, &mut garbler_chan);
    let a2 = garbler_assign_own_value(GarblingMode::Plain, 20, &mut rng, &mut garbler_chan);
    let _g = garbler_gate(Operation::AddU8, a1, a2, &mut garbler_chan);

    transfer(&mut garbler_chan, &mut evaluator_chan);

    let a1 = evaluator_receive_value(&mut evaluator_chan).unwrap();
    let a2 = evaluator_receive_value(&mut evaluator_chan).unwrap();
    let g = evaluator_gate(Operation::AddU8, a1, a2, &mut evaluator_chan).unwrap();

    let plain_g = to_u8(&g);
    assert_eq!(plain_g, 30);
}

#[test]
fn mpc_core_test_plain_circuit_with_ot() {
    let mut rng = StdRng::from_seed(SEED);
    let mut garbler_chan = Channel::new();
    let mut evaluator_chan = Channel::new();

    // Garbler: two own values, one Evaluator-owned wire offered over OT
    let _a1 = garbler_assign_own_value(GarblingMode::Plain, 100, &mut rng, &mut garbler_chan);
    let _a2 = garbler_assign_own_value(GarblingMode::Plain, 50, &mut rng, &mut garbler_chan);
    let (_b1_wire, b1_pairs) = garbler_assign_evaluator_value(GarblingMode::Plain, &mut rng);

    transfer(&mut garbler_chan, &mut evaluator_chan);

    // Evaluator
    let a1 = evaluator_receive_value(&mut evaluator_chan).unwrap();
    assert_eq!(to_u8(&a1), 100);
    let a2 = evaluator_receive_value(&mut evaluator_chan).unwrap();
    assert_eq!(to_u8(&a2), 50);

    let bs = evaluator_choice_bits(255);
    let results = ot_select(&b1_pairs, &bs);
    let b1 = evaluator_assemble_labels(results).unwrap();
    assert_eq!(to_u8(&b1), 255);
}

#[test]
fn plain_garbling_test_plain_circuit_with_ot() {
    let mut rng = StdRng::from_seed(SEED);
    let mut garbler_chan = Channel::new();
    let mut evaluator_chan = Channel::new();

    // ------------------ Garbler
    let a1 = garbler_assign_own_value(GarblingMode::Plain, 10, &mut rng, &mut garbler_chan);
    let a2 = garbler_assign_own_value(GarblingMode::Plain, 20, &mut rng, &mut garbler_chan);
    let (b1_wire, b1_pairs) = garbler_assign_evaluator_value(GarblingMode::Plain, &mut rng);
    let (b2_wire, b2_pairs) = garbler_assign_evaluator_value(GarblingMode::Plain, &mut rng);

    let c = garbler_gate(Operation::AddU8, a1, b1_wire, &mut garbler_chan);
    let d = garbler_gate(Operation::AddU8, a2, b2_wire, &mut garbler_chan);
    let _e = garbler_gate(Operation::AddU8, c, d, &mut garbler_chan);

    transfer(&mut garbler_chan, &mut evaluator_chan);

    // ------------------ Evaluator
    let a1 = evaluator_receive_value(&mut evaluator_chan).unwrap();
    assert_eq!(to_u8(&a1), 10, "a1");
    let a2 = evaluator_receive_value(&mut evaluator_chan).unwrap();
    assert_eq!(to_u8(&a2), 20, "a2");

    let bs = evaluator_choice_bits(25);
    let results = ot_select(&b1_pairs, &bs);
    let b1 = evaluator_assemble_labels(results).unwrap();
    println!("{:?}", bs);
    assert_eq!(to_u8(&b1), 25, "b1");

    let bs = evaluator_choice_bits(30);
    let results = ot_select(&b2_pairs, &bs);
    let b2 = evaluator_assemble_labels(results).unwrap();
    assert_eq!(to_u8(&b2), 30, "b2");

    let c = evaluator_gate(Operation::AddU8, a1, b1, &mut evaluator_chan).unwrap();
    assert_eq!(to_u8(&c), 35, "c");
    let d = evaluator_gate(Operation::AddU8, a2, b2, &mut evaluator_chan).unwrap();
    assert_eq!(to_u8(&d), 50, "d");
    let e = evaluator_gate(Operation::AddU8, c, d, &mut evaluator_chan).unwrap();
    assert_eq!(to_u8(&e), 85, "e");
}

#[test]
fn scenario_garbler_encodes_six() {
    let mut rng = StdRng::from_seed(SEED);
    let mut garbler_chan = Channel::new();
    let mut evaluator_chan = Channel::new();

    let _wire = garbler_assign_own_value(GarblingMode::Plain, 6, &mut rng, &mut garbler_chan);
    transfer(&mut garbler_chan, &mut evaluator_chan);
    let received = evaluator_receive_value(&mut evaluator_chan).unwrap();
    assert_eq!(to_u8(&received), 6);
}

#[test]
fn ot_returns_exactly_the_chosen_labels() {
    let mut rng = StdRng::from_seed(SEED);
    let (wire, pairs) = garbler_assign_evaluator_value(GarblingMode::Garbled, &mut rng);
    let choices = evaluator_choice_bits(0b1010_0110);
    let got = ot_select(&pairs, &choices);
    for i in 0..8 {
        let expect = if choices[i] {
            wire.bits[i].one
        } else {
            wire.bits[i].zero
        };
        let other = if choices[i] {
            wire.bits[i].zero
        } else {
            wire.bits[i].one
        };
        assert_eq!(got[i], expect);
        assert_ne!(got[i], other);
    }
}

#[test]
fn ot_label_count_mismatch_is_an_ot_error() {
    let mut rng = StdRng::from_seed(SEED);
    let (_, pairs) = garbler_assign_evaluator_value(GarblingMode::Plain, &mut rng);
    let mut labels = ot_select(&pairs, &evaluator_choice_bits(3));
    labels.pop();
    assert_eq!(evaluator_assemble_labels(labels).unwrap_err(), MpcError::Ot);
}

#[test]
fn desynchronized_gate_frame_is_fatal() {
    let mut rng = StdRng::from_seed(SEED);
    let mut garbler_chan = Channel::new();
    let mut evaluator_chan = Channel::new();

    // the Garbler sends a value frame where the Evaluator expects a gate
    let w = garbler_assign_own_value(GarblingMode::Plain, 1, &mut rng, &mut garbler_chan);
    transfer(&mut garbler_chan, &mut evaluator_chan);

    let i1 = w.duplicate().encode(1).unwrap();
    let i2 = w.encode(2).unwrap();
    let r = evaluator_gate(Operation::AddU8, i1, i2, &mut evaluator_chan);
    assert_eq!(r.unwrap_err(), MpcError::Decoding);
}

#[test]
fn two_party_run_of_chained_circuit() {
    // c = a1 + b1; d = a2 + b2; e = c + d
    let expr = Expr::Op(
        Operation::AddU8,
        Box::new(Expr::Op(
            Operation::AddU8,
            Box::new(Expr::Input(Role::Garbler, 0)),
            Box::new(Expr::Input(Role::Evaluator, 0)),
        )),
        Box::new(Expr::Op(
            Operation::AddU8,
            Box::new(Expr::Input(Role::Garbler, 1)),
            Box::new(Expr::Input(Role::Evaluator, 1)),
        )),
    );
    let mut rng = StdRng::from_seed(SEED);
    let steps = lower(&expr);
    let r = run_two_party(&steps, &vec![10, 20], &vec![25, 30], &mut rng);
    assert_eq!(r, 85);
    let r = run_circuit(&expr, &vec![10, 20], &vec![25, 30], &mut rng);
    assert_eq!(r, 85);
}

#[test]
fn two_party_run_mixes_addition_and_multiplication() {
    // (a + b) * a, one input per party
    let expr = Expr::Op(
        Operation::MulU8,
        Box::new(Expr::Op(
            Operation::AddU8,
            Box::new(Expr::Input(Role::Garbler, 0)),
            Box::new(Expr::Input(Role::Evaluator, 0)),
        )),
        Box::new(Expr::Input(Role::Garbler, 0)),
    );
    let mut rng = StdRng::from_seed(SEED);
    let r = run_circuit(&expr, &vec![7], &vec![9], &mut rng);
    assert_eq!(r, ((7u16 + 9) * 7 % 256) as u8);
}

#[test]
fn reveal_returns_the_result_to_the_garbler() {
    let mut rng = StdRng::from_seed(SEED);
    let mut garbler_chan = Channel::new();
    let mut evaluator_chan = Channel::new();

    let wire = garbler_assign_own_value(GarblingMode::Plain, 85, &mut rng, &mut garbler_chan);
    let _ = wire;
    transfer(&mut garbler_chan, &mut evaluator_chan);
    let received = evaluator_receive_value(&mut evaluator_chan).unwrap();

    let evaluator_result = evaluator_reveal(&received, &mut evaluator_chan);
    assert_eq!(evaluator_result, 85);
    transfer(&mut evaluator_chan, &mut garbler_chan);
    let garbler_result = garbler_receive_reveal(&mut garbler_chan).unwrap();
    assert_eq!(garbler_result, 85);
}

#[test]
fn reveal_rejects_a_malformed_frame() {
    let mut sender = Channel::new();
    let mut receiver = Channel::new();
    sender.write_frame(&vec![1u8, 2]);
    transfer(&mut sender, &mut receiver);
    assert_eq!(
        garbler_receive_reveal(&mut receiver).unwrap_err(),
        MpcError::Decoding
    );
}
