use obliv_rust::labels::GarblingMode;
use obliv_rust::wires::{GarblingWire, Wire, Wire8Bit, to_u8};
use obliv_rust::gates::{
    Operation, garble_add_u8_plain_scheme, garble_mul_u8_plain_scheme, garble_u8_gate_plain,
    evaluate_add_u8_plain_scheme, evaluate_mul_u8_plain_scheme, evaluate_plain,
};
use obliv_rust::MpcError;
use rand::SeedableRng;
use rand::rngs::StdRng;

const SEED: [u8; 32] = [42u8; 32];

#[test]
fn mpc_core_test_plain_garbling() {
    let mut rng = StdRng::from_seed(SEED);

    let garbled_wires = GarblingWire::new(GarblingMode::Plain, Wire8Bit::bits(), &mut rng);
    let garbled_value = garbled_wires.encode(6).unwrap();
    let expect = vec![0, 0, 0, 0, 0, 1, 1, 0];
    let got = garbled_value
        .bits
        .into_iter()
        .map(|g_bit| if g_bit.0 == 0 { 0 } else { 1 })
        .collect::<Vec<u8>>();
    assert_eq!(expect, got);
}

#[test]
fn plain_garbling_test_plain_garbling() {
    let mut rng = StdRng::from_seed(SEED);

    let garbled_wires = GarblingWire::new(GarblingMode::Plain, 8, &mut rng);
    let garbled_value = garbled_wires.encode(6).unwrap();
    let expect = vec![0, 0, 0, 0, 0, 1, 1, 0];
    let got = garbled_value
        .bits
        .into_iter()
        .map(|g_bit| if g_bit.0 == 0 { 0 } else { 1 })
        .collect::<Vec<u8>>();
    assert_eq!(expect, got);
}

#[test]
fn mpc_core_test_plain_decode_to_u8() {
    let mut rng = StdRng::from_seed(SEED);

    let garbled_wires = GarblingWire::new(GarblingMode::Plain, 8, &mut rng);
    let garbled_value = garbled_wires.encode(6).unwrap();
    let got = to_u8(&garbled_value);
    assert_eq!(6, got);
}

#[test]
fn plain_garbling_test_plain_decode_to_u8() {
    let mut rng = StdRng::from_seed(SEED);

    let garbled_wires = GarblingWire::new(GarblingMode::Plain, 8, &mut rng);
    let garbled_value = garbled_wires.encode(6).unwrap();
    let got = to_u8(&garbled_value);
    assert_eq!(6, got);
}

#[test]
fn mpc_core_test_plain_add_u8() {
    let mut rng = StdRng::from_seed(SEED);

    let garbled_wires_1 = GarblingWire::new(GarblingMode::Plain, 8, &mut rng);
    let garbled_value_1 = garbled_wires_1.duplicate().encode(6).unwrap();
    let garbled_wires_2 = GarblingWire::new(GarblingMode::Plain, 8, &mut rng);
    let garbled_value_2 = garbled_wires_2.duplicate().encode(6).unwrap();
    let (_, gates) = garble_add_u8_plain_scheme(garbled_wires_1, garbled_wires_2);
    let result = evaluate_add_u8_plain_scheme(garbled_value_1, garbled_value_2, gates).unwrap();

    let got = to_u8(&result);

    assert_eq!(12, got);
}

#[test]
fn plain_garbling_test_plain_add_u8() {
    let mut rng = StdRng::from_seed(SEED);

    let garbled_wires_1 = GarblingWire::new(GarblingMode::Plain, 8, &mut rng);
    let garbled_value_1 = garbled_wires_1.duplicate().encode(6).unwrap();
    let garbled_wires_2 = GarblingWire::new(GarblingMode::Plain, 8, &mut rng);
    let garbled_value_2 = garbled_wires_2.duplicate().encode(6).unwrap();
    let (_, gates) = garble_add_u8_plain_scheme(garbled_wires_1, garbled_wires_2);
    let result = evaluate_add_u8_plain_scheme(garbled_value_1, garbled_value_2, gates).unwrap();

    let got = to_u8(&result);

    assert_eq!(12, got);
}

#[test]
fn mpc_core_test_non_plain_garbling() {
    let mut rng = StdRng::from_seed(SEED);

    let garbled_wires = GarblingWire::new(GarblingMode::Garbled, Wire8Bit::bits(), &mut rng);
    let garbled_value = garbled_wires.duplicate().encode(6).unwrap();
    let expect = vec![
        garbled_wires.bits[0].zero.0,
        garbled_wires.bits[1].zero.0,
        garbled_wires.bits[2].zero.0,
        garbled_wires.bits[3].zero.0,
        garbled_wires.bits[4].zero.0,
        garbled_wires.bits[5].one.0,
        garbled_wires.bits[6].one.0,
        garbled_wires.bits[7].zero.0,
    ];
    let got = garbled_value
        .bits
        .into_iter()
        .map(|g_bit| g_bit.0)
        .collect::<Vec<u128>>();
    assert_eq!(expect, got);
}

#[test]
fn simple_garbling_test_non_plain_garbling() {
    let mut rng = StdRng::from_seed(SEED);

    let garbled_wires = GarblingWire::new(GarblingMode::Garbled, 8, &mut rng);
    let garbled_value = garbled_wires.duplicate().encode(6).unwrap();
    let expect = vec![
        garbled_wires.bits[0].zero.0,
        garbled_wires.bits[1].zero.0,
        garbled_wires.bits[2].zero.0,
        garbled_wires.bits[3].zero.0,
        garbled_wires.bits[4].zero.0,
        garbled_wires.bits[5].one.0,
        garbled_wires.bits[6].one.0,
        garbled_wires.bits[7].zero.0,
    ];
    let got = garbled_value
        .bits
        .into_iter()
        .map(|g_bit| g_bit.0)
        .collect::<Vec<u128>>();
    assert_eq!(expect, got);
}

#[test]
fn plain_round_trip_every_value() {
    let mut rng = StdRng::from_seed(SEED);
    for v in 0..=255u8 {
        let wire = GarblingWire::new(GarblingMode::Plain, 8, &mut rng);
        let encoded = wire.encode(v).unwrap();
        assert_eq!(v, to_u8(&encoded));
    }
}

#[test]
fn garbled_labels_are_distinguishable() {
    let mut rng = StdRng::from_seed(SEED);
    for _ in 0..200 {
        let wire = GarblingWire::new(GarblingMode::Garbled, 8, &mut rng);
        for pair in &wire.bits {
            assert_ne!(pair.zero, pair.one);
        }
    }
}

#[test]
fn encode_rejects_out_of_range_value() {
    let mut rng = StdRng::from_seed(SEED);
    let wire = GarblingWire::new(GarblingMode::Plain, 4, &mut rng);
    assert_eq!(wire.duplicate().encode(16).unwrap_err(), MpcError::Range);
    assert!(wire.encode(15).is_ok());
}

#[test]
fn mul_gate_wraps_modulo_256() {
    let mut rng = StdRng::from_seed(SEED);
    let w1 = GarblingWire::new(GarblingMode::Plain, 8, &mut rng);
    let w2 = GarblingWire::new(GarblingMode::Plain, 8, &mut rng);
    let e1 = w1.duplicate().encode(20).unwrap();
    let e2 = w2.duplicate().encode(13).unwrap();
    let (_, gates) = garble_mul_u8_plain_scheme(w1, w2);
    let result = evaluate_mul_u8_plain_scheme(e1, e2, gates).unwrap();
    assert_eq!(to_u8(&result), ((20u16 * 13) % 256) as u8);
}

#[test]
fn add_gate_wraps_modulo_256() {
    let mut rng = StdRng::from_seed(SEED);
    let w1 = GarblingWire::new(GarblingMode::Plain, 8, &mut rng);
    let w2 = GarblingWire::new(GarblingMode::Plain, 8, &mut rng);
    let e1 = w1.duplicate().encode(200).unwrap();
    let e2 = w2.duplicate().encode(100).unwrap();
    let (_, gates) = garble_u8_gate_plain(w1, w2, Operation::AddU8);
    let result = evaluate_plain(e1, e2, Operation::AddU8, gates).unwrap();
    assert_eq!(to_u8(&result), 44);
}

#[test]
fn evaluate_rejects_missing_gate_rows() {
    let mut rng = StdRng::from_seed(SEED);
    let w1 = GarblingWire::new(GarblingMode::Plain, 8, &mut rng);
    let w2 = GarblingWire::new(GarblingMode::Plain, 8, &mut rng);
    let e1 = w1.encode(1).unwrap();
    let e2 = w2.encode(2).unwrap();
    let result = evaluate_plain(e1, e2, Operation::AddU8, Vec::new());
    assert_eq!(result.unwrap_err(), MpcError::Decoding);
}

#[test]
fn evaluate_rejects_width_mismatch() {
    let mut rng = StdRng::from_seed(SEED);
    let w1 = GarblingWire::new(GarblingMode::Plain, 8, &mut rng);
    let w2 = GarblingWire::new(GarblingMode::Plain, 8, &mut rng);
    let narrow = GarblingWire::new(GarblingMode::Plain, 4, &mut rng);
    let e1 = narrow.encode(1).unwrap();
    let e2 = w2.duplicate().encode(2).unwrap();
    let (_, gates) = garble_add_u8_plain_scheme(w1, w2);
    let result = evaluate_add_u8_plain_scheme(e1, e2, gates);
    assert_eq!(result.unwrap_err(), MpcError::Decoding);
}
