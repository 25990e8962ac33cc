use waterleakage::wire::{
    ack_frame, decode_claim, decode_register_message, encode_response, HANDSHAKE_BUDGET,
};
use waterleakage::{ClientRegisterMessage, ProtocolError, RegisterResponse};

#[test]
fn handshake_budget_is_512_bytes() {
    assert_eq!(HANDSHAKE_BUDGET, 512);
}

#[test]
fn success_response_bytes() {
    let response = RegisterResponse::Success { uuid: "ab".to_string() };
    assert_eq!(encode_response(&response), vec![0, 0, 0, 0, 2, 0, 0, 0, 0, 0, 0, 0, b'a', b'b']);
}

#[test]
fn failed_response_bytes() {
    let response = RegisterResponse::Failed { reason: "no".to_string() };
    assert_eq!(encode_response(&response), vec![1, 0, 0, 0, 2, 0, 0, 0, 0, 0, 0, 0, b'n', b'o']);
}

#[test]
fn response_with_empty_and_non_ascii_text() {
    let empty = RegisterResponse::Failed { reason: String::new() };
    assert_eq!(encode_response(&empty), vec![1, 0, 0, 0, 0, 0, 0, 0, 0, 0, 0, 0]);
    let accented = RegisterResponse::Success { uuid: "é".to_string() };
    assert_eq!(encode_response(&accented), vec![0, 0, 0, 0, 2, 0, 0, 0, 0, 0, 0, 0, 0xc3, 0xa9]);
}

#[test]
fn ack_is_the_encoded_string_ok() {
    assert_eq!(ack_frame(), vec![2, 0, 0, 0, 0, 0, 0, 0, b'O', b'K']);
    assert_eq!(ack_frame(), bincode::serialize("OK").unwrap());
}

#[test]
fn register_message_decodes_field_by_field() {
    let mut bytes = Vec::new();
    for field in ["alice", "s3cret", "tcp"] {
        bytes.extend_from_slice(&(field.len() as u64).to_le_bytes());
        bytes.extend_from_slice(field.as_bytes());
    }
    let message = decode_register_message(&bytes).unwrap();
    assert_eq!(
        message,
        ClientRegisterMessage {
            name: "alice".to_string(),
            secret: "s3cret".to_string(),
            protocol: "tcp".to_string(),
        }
    );
}

#[test]
fn register_message_ignores_trailing_bytes() {
    let mut bytes = bincode::serialize(&("a", "b", "c")).unwrap();
    bytes.extend_from_slice(&[0xff, 0xfe, 0xfd]);
    let message = decode_register_message(&bytes).unwrap();
    assert_eq!(message.name, "a");
    assert_eq!(message.secret, "b");
    assert_eq!(message.protocol, "c");
}

#[test]
fn register_message_at_and_over_the_budget() {
    let filler = "x".repeat(512 - 24 - 2);
    let exact = bincode::serialize(&("a", "b", filler.as_str())).unwrap();
    assert_eq!(exact.len(), 512);
    assert_eq!(decode_register_message(&exact).unwrap().protocol, filler);

    let mut over = exact.clone();
    over.push(0);
    assert_eq!(decode_register_message(&over), Err(ProtocolError::Oversized));
}

#[test]
fn register_message_malformed() {
    assert_eq!(decode_register_message(&[]), Err(ProtocolError::Malformed));
    assert_eq!(decode_register_message(&[5, 0, 0, 0, 0, 0, 0, 0, b'a']), Err(ProtocolError::Malformed));
    let two = bincode::serialize(&("alice", "s3cret")).unwrap();
    assert_eq!(decode_register_message(&two), Err(ProtocolError::Malformed));
    let mut bad_utf8 = bincode::serialize(&("a", "b", "c")).unwrap();
    bad_utf8[8] = 0xff;
    assert_eq!(decode_register_message(&bad_utf8), Err(ProtocolError::Malformed));
    let huge = [0xffu8; 8];
    assert_eq!(decode_register_message(&huge), Err(ProtocolError::Malformed));
}

#[test]
fn claim_decodes_one_string() {
    let bytes = bincode::serialize("550e8400-e29b-41d4-a716-446655440000").unwrap();
    assert_eq!(decode_claim(&bytes).unwrap(), "550e8400-e29b-41d4-a716-446655440000");
    assert_eq!(decode_claim(&[0, 0, 0, 0, 0, 0, 0, 0]).unwrap(), "");
    assert_eq!(decode_claim(&[1, 0, 0, 0, 0, 0, 0, 0, b'z', 9, 9]).unwrap(), "z");
}

#[test]
fn claim_malformed_or_oversized() {
    assert_eq!(decode_claim(&[]), Err(ProtocolError::Malformed));
    assert_eq!(decode_claim(&[1, 0, 0, 0, 0, 0, 0]), Err(ProtocolError::Malformed));
    assert_eq!(decode_claim(&[2, 0, 0, 0, 0, 0, 0, 0, b'a']), Err(ProtocolError::Malformed));
    assert_eq!(decode_claim(&[1, 0, 0, 0, 0, 0, 0, 0, 0x80]), Err(ProtocolError::Malformed));
    let long = bincode::serialize(&"y".repeat(505)).unwrap();
    assert_eq!(long.len(), 513);
    assert_eq!(decode_claim(&long), Err(ProtocolError::Oversized));
    let fits = bincode::serialize(&"y".repeat(504)).unwrap();
    assert_eq!(decode_claim(&fits).unwrap().len(), 504);
}
