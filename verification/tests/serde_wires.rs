use obliv_rust::labels::GarblingMode;
use obliv_rust::wires::GarblingWire;
use obliv_rust::gates::Gate;
use obliv_rust::codec::{
    serialize_evaluating_wire, deserialize_evaluating_wire, serialize_garbling_wire,
    deserialize_garbling_wire, serialize_gates, deserialize_gates,
};
use obliv_rust::MpcError;
use rand::SeedableRng;
use rand::rngs::StdRng;

const SEED: [u8; 32] = [42u8; 32];

#[test]
fn mpc_core_test_serde_garbled_wires() {
    let mut rng = StdRng::from_seed(SEED);

    let garbled_wires = GarblingWire::new(GarblingMode::Garbled, 8, &mut rng);
    let serialized_garbled_wires = serialize_garbling_wire(&garbled_wires);
    let deserialized_garbled_wires = deserialize_garbling_wire(&serialized_garbled_wires).unwrap();

    assert!(garbled_wires
        .duplicate()
        .bits
        .into_iter()
        .zip(deserialized_garbled_wires.bits)
        .fold(true, |acc, (want, got)| acc || (want.zero == got.zero)));
}

#[test]
fn simple_garbling_test_serde_garbled_wires() {
    let mut rng = StdRng::from_seed(SEED);

    let garbled_wires = GarblingWire::new(GarblingMode::Garbled, 8, &mut rng);
    let serialized_garbled_wires = serialize_garbling_wire(&garbled_wires);
    let deserialized_garbled_wires = deserialize_garbling_wire(&serialized_garbled_wires).unwrap();

    assert!(garbled_wires
        .duplicate()
        .bits
        .into_iter()
        .zip(deserialized_garbled_wires.bits)
        .fold(true, |acc, (want, got)| acc || (want.zero == got.zero)));
}

#[test]
fn mpc_core_test_serde_eval_wires() {
    let mut rng = StdRng::from_seed(SEED);

    let garbled_wires = GarblingWire::new(GarblingMode::Garbled, 8, &mut rng);
    let garbled_value = garbled_wires.encode(6).unwrap();
    let serialized_garbled_value = serialize_evaluating_wire(&garbled_value);
    let deserialized_garbled_value =
        deserialize_evaluating_wire(&serialized_garbled_value).unwrap();
    assert!(garbled_value
        .clone()
        .bits
        .into_iter()
        .zip(deserialized_garbled_value.bits)
        .fold(true, |acc, (want, got)| acc || (want == got)));
}

#[test]
fn simple_garbling_test_serde_eval_wires() {
    let mut rng = StdRng::from_seed(SEED);

    let garbled_wires = GarblingWire::new(GarblingMode::Garbled, 8, &mut rng);
    let garbled_value = garbled_wires.encode(6).unwrap();
    let serialized_garbled_value = serialize_evaluating_wire(&garbled_value);
    let deserialized_garbled_value =
        deserialize_evaluating_wire(&serialized_garbled_value).unwrap();
    assert!(garbled_value
        .clone()
        .bits
        .into_iter()
        .zip(deserialized_garbled_value.bits)
        .fold(true, |acc, (want, got)| acc || (want == got)));
}

#[test]
fn mpc_core_test_serde_garbled_gate() {
    let mut rng = StdRng::from_seed(SEED);

    let garbled_wires = GarblingWire::new(GarblingMode::Garbled, 8, &mut rng);
    let gate = Gate {
        output: garbled_wires,
    };

    let serialized_gate = serialize_gates(&vec![gate.clone()]);
    let deserialized_gates = deserialize_gates(&serialized_gate).unwrap();
    assert!(gate
        .clone()
        .output
        .bits
        .into_iter()
        .zip(deserialized_gates[0].output.bits.clone())
        .fold(true, |acc, (want, got)| acc || (want.zero == got.zero)));
}

#[test]
fn simple_garbling_test_serde_garbled_gate() {
    let mut rng = StdRng::from_seed(SEED);

    let garbled_wires = GarblingWire::new(GarblingMode::Garbled, 8, &mut rng);
    let gate = Gate {
        output: garbled_wires,
    };

    let serialized_gate = serialize_gates(&vec![gate.clone()]);
    let deserialized_gates = deserialize_gates(&serialized_gate).unwrap();
    assert!(gate
        .clone()
        .output
        .bits
        .into_iter()
        .zip(deserialized_gates[0].output.bits.clone())
        .fold(true, |acc, (want, got)| acc || (want.zero == got.zero)));
}

#[test]
fn mpc_core_test_serde_plain_gate() {
    let mut rng = StdRng::from_seed(SEED);

    let garbled_wires = GarblingWire::new(GarblingMode::Plain, 8, &mut rng);
    let gate = Gate {
        output: garbled_wires,
    };

    let serialized_gate = serialize_gates(&vec![gate.clone()]);
    let deserialized_gates = deserialize_gates(&serialized_gate).unwrap();
    assert!(gate
        .clone()
        .output
        .bits
        .into_iter()
        .zip(deserialized_gates[0].output.bits.clone())
        .fold(true, |acc, (want, got)| acc || (want.zero == got.zero)));
}

#[test]
fn plain_garbling_test_serde_plain_gate() {
    let mut rng = StdRng::from_seed(SEED);

    let garbled_wires = GarblingWire::new(GarblingMode::Plain, 8, &mut rng);
    let gate = Gate {
        output: garbled_wires,
    };

    let serialized_gate = serialize_gates(&vec![gate.clone()]);
    let deserialized_gates = deserialize_gates(&serialized_gate).unwrap();
    assert!(gate
        .clone()
        .output
        .bits
        .into_iter()
        .zip(deserialized_gates[0].output.bits.clone())
        .fold(true, |acc, (want, got)| acc || (want.zero == got.zero)));
}

#[test]
fn eval_wire_round_trip_is_exact() {
    let mut rng = StdRng::from_seed(SEED);
    let wire = GarblingWire::new(GarblingMode::Garbled, 8, &mut rng);
    let value = wire.encode(173).unwrap();
    let bytes = serialize_evaluating_wire(&value);
    let back = deserialize_evaluating_wire(&bytes).unwrap();
    assert_eq!(value.bits, back.bits);
}

#[test]
fn garbling_wire_round_trip_is_exact() {
    let mut rng = StdRng::from_seed(SEED);
    let wire = GarblingWire::new(GarblingMode::Garbled, 8, &mut rng);
    let bytes = serialize_garbling_wire(&wire);
    let back = deserialize_garbling_wire(&bytes).unwrap();
    assert_eq!(wire.bits, back.bits);
}

#[test]
fn gates_round_trip_is_exact() {
    let mut rng = StdRng::from_seed(SEED);
    let g1 = Gate {
        output: GarblingWire::new(GarblingMode::Garbled, 8, &mut rng),
    };
    let g2 = Gate {
        output: GarblingWire::new(GarblingMode::Garbled, 4, &mut rng),
    };
    let bytes = serialize_gates(&vec![g1.clone(), g2.clone()]);
    let back = deserialize_gates(&bytes).unwrap();
    assert_eq!(back.len(), 2);
    assert_eq!(back[0].output.bits, g1.output.bits);
    assert_eq!(back[1].output.bits, g2.output.bits);
}

#[test]
fn deserialize_rejects_ragged_payloads() {
    let bytes = vec![1u8, 2, 3, 4, 5];
    assert_eq!(
        deserialize_evaluating_wire(&bytes).unwrap_err(),
        MpcError::Decoding
    );
    assert_eq!(
        deserialize_garbling_wire(&bytes).unwrap_err(),
        MpcError::Decoding
    );
    assert_eq!(deserialize_gates(&bytes).unwrap_err(), MpcError::Decoding);
}

#[test]
fn deserialize_gates_rejects_wrong_count() {
    let mut rng = StdRng::from_seed(SEED);
    let g = Gate {
        output: GarblingWire::new(GarblingMode::Plain, 8, &mut rng),
    };
    let mut bytes = serialize_gates(&vec![g]);
    // announce two gates while carrying one
    bytes[0] = 2;
    assert_eq!(deserialize_gates(&bytes).unwrap_err(), MpcError::Decoding);
}
