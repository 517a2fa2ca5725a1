use obliv_rust::channel::{Channel, transfer};
use obliv_rust::MpcError;

#[test]
fn mpc_core_test_pipe_send_vec_u8() {
    let message: Vec<u8> = vec![0x01, 0x02, 0x03, 0x04, 0x05];
    let message_clone = message.clone();
    let mut sender = Channel::new();
    let mut receiver = Channel::new();

    sender.write_frame(&message);
    transfer(&mut sender, &mut receiver);

    let res = receiver.read_frame().unwrap();
    assert_eq!(message_clone, res);
}

#[test]
fn plain_garbling_test_pipe_send_vec_u8() {
    let message: Vec<u8> = vec![0x01, 0x02, 0x03, 0x04, 0x05];
    let message_clone = message.clone();
    let mut sender = Channel::new();
    let mut receiver = Channel::new();

    sender.write_frame(&message);
    transfer(&mut sender, &mut receiver);

    let res = receiver.read_frame().unwrap();
    assert_eq!(message_clone, res);
}

#[test]
fn simple_garbling_test_pipe_send_vec_u8() {
    let message: Vec<u8> = vec![0x01, 0x02, 0x03, 0x04, 0x05];
    let message_clone = message.clone();
    let mut sender = Channel::new();
    let mut receiver = Channel::new();

    sender.write_frame(&message);
    transfer(&mut sender, &mut receiver);

    let res = receiver.read_frame().unwrap();
    assert_eq!(message_clone, res);
}

#[test]
fn bandwidth_counters_account_for_prefixes() {
    let mut sender = Channel::new();
    let mut receiver = Channel::new();
    assert_eq!(sender.bytes_written(), 0);

    sender.write_frame(&vec![7u8; 5]);
    sender.write_frame(&vec![9u8; 11]);
    // two frames: 5 + 11 payload bytes plus 8 prefix bytes each
    assert_eq!(sender.bytes_written(), 5 + 11 + 2 * 8);

    transfer(&mut sender, &mut receiver);
    assert_eq!(receiver.bytes_read(), 0);
    let first = receiver.read_frame().unwrap();
    assert_eq!(first, vec![7u8; 5]);
    assert_eq!(receiver.bytes_read(), 13);
    let second = receiver.read_frame().unwrap();
    assert_eq!(second, vec![9u8; 11]);
    assert_eq!(receiver.bytes_read(), 32);
}

#[test]
fn read_frame_on_empty_channel_is_transport_error() {
    let mut receiver = Channel::new();
    assert_eq!(receiver.read_frame().unwrap_err(), MpcError::Transport);
}

#[test]
fn truncated_frame_is_transport_error() {
    let mut sender = Channel::new();
    let mut receiver = Channel::new();
    sender.write_frame(&vec![1u8, 2, 3]);
    let bytes = sender.flush();

    // deliver the prefix and only part of the payload
    receiver.receive(&bytes[..10].to_vec());
    assert_eq!(receiver.read_frame().unwrap_err(), MpcError::Transport);

    // the rest arrives: now the frame parses
    receiver.receive(&bytes[10..].to_vec());
    assert_eq!(receiver.read_frame().unwrap(), vec![1u8, 2, 3]);
}
