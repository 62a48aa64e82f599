//! Frames between the host of a session and what is attached to it.

use claustre::pty::protocol::{
    encode_frame, write_host_message, ClientMessage, HostMessage, HEADER_LEN, TYPE_EXITED, TYPE_INPUT,
    TYPE_RESIZE, TYPE_SHUTDOWN, TYPE_SNAPSHOT,
};

#[test]
fn host_message_encode_snapshot() {
    let msg = HostMessage::Snapshot(b"hello".to_vec());
    let encoded = msg.encode();
    assert_eq!(encoded[0], TYPE_SNAPSHOT);
    let payload_len = u32::from_le_bytes(encoded[1..5].try_into().unwrap()) as usize;
    assert_eq!(payload_len, 5);
    assert_eq!(&encoded[HEADER_LEN..], b"hello");
}

#[test]
fn host_message_encode_exited() {
    let msg = HostMessage::Exited(42);
    let encoded = msg.encode();
    assert_eq!(encoded[0], TYPE_EXITED);
    let code = i32::from_le_bytes(encoded[HEADER_LEN..HEADER_LEN + 4].try_into().unwrap());
    assert_eq!(code, 42);
}

#[test]
fn client_message_decode_input() {
    let payload = b"ls -la\n";
    let frame = encode_frame(TYPE_INPUT, payload);
    let decoded = ClientMessage::decode(&frame).unwrap();
    assert_eq!(decoded, ClientMessage::Input(payload.to_vec()));
}

#[test]
fn client_message_decode_resize() {
    let mut payload = Vec::new();
    payload.extend_from_slice(&120u16.to_le_bytes());
    payload.extend_from_slice(&40u16.to_le_bytes());
    let frame = encode_frame(TYPE_RESIZE, &payload);
    let decoded = ClientMessage::decode(&frame).unwrap();
    assert_eq!(
        decoded,
        ClientMessage::Resize {
            cols: 120,
            rows: 40
        }
    );
}

#[test]
fn client_message_decode_shutdown() {
    let frame = encode_frame(TYPE_SHUTDOWN, &[]);
    let decoded = ClientMessage::decode(&frame).unwrap();
    assert_eq!(decoded, ClientMessage::Shutdown);
}

#[test]
fn decode_invalid_client_type() {
    let frame = encode_frame(0xFF, &[]);
    let result = ClientMessage::decode(&frame);
    assert!(result.is_err());
    assert!(
        result
            .unwrap_err()
            .message()
            .contains("unknown client message type")
    );
}

#[test]
fn decode_truncated_header_client() {
    let result = ClientMessage::decode(&[0x10]);
    assert!(result.is_err());
    assert!(result.unwrap_err().message().contains("truncated header"));
}

#[test]
fn write_host_message_roundtrip() {
    let msg = HostMessage::Exited(127);
    let mut buf = Vec::new();
    write_host_message(&mut buf, &msg);
    // Verify the written bytes have correct header
    assert_eq!(buf[0], TYPE_EXITED);
    let code = i32::from_le_bytes(buf[HEADER_LEN..HEADER_LEN + 4].try_into().unwrap());
    assert_eq!(code, 127);
}

#[test]
fn client_message_decode_from_encoded_frame() {
    let payload = b"hello";
    let frame = encode_frame(TYPE_INPUT, payload);
    let decoded = ClientMessage::decode(&frame).unwrap();
    assert_eq!(decoded, ClientMessage::Input(payload.to_vec()));
}
