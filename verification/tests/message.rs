use monmon::message::{DecodeFailure, Message, MonMessage, MESSAGE_SIZE};
use monmon::wire::CodecErrorKind;

#[test]
fn simple_encode_decode_test() {
    let msg = Message::new(1, MonMessage::MonEnter);
    let encode = Message::encode(msg);
    let decoded = Message::decode(&encode).expect("Failed to decode message");

    assert_eq!(decoded.msg, MonMessage::MonEnter);
}

#[test]
fn message_size_test() {
    let msg = Message::new(1, MonMessage::MonEnter);
    let ser = Message::encode(msg);
    assert!(ser.len() <= MESSAGE_SIZE);

    let msg = Message::new(1, MonMessage::MonEnter);
    let ser = Message::encode(msg);
    assert!(ser.len() <= MESSAGE_SIZE);

    let msg = Message::new(1, MonMessage::MonWait(u32::MAX as usize));
    let ser = Message::encode(msg);
    assert!(ser.len() == MESSAGE_SIZE);
}

#[test]
fn encode_writes_varint_fields_and_pads() {
    let ser = Message::encode(Message::new(7, MonMessage::MonSignal(300)));
    let mut expected = vec![7u8, 4, 251, 0x2c, 0x01];
    expected.resize(MESSAGE_SIZE, 0);
    assert_eq!(ser, expected);

    let ser = Message::encode(Message::new(70_000, MonMessage::MonLeave));
    let mut expected = vec![252u8, 0x70, 0x11, 0x01, 0x00, 2];
    expected.resize(MESSAGE_SIZE, 0);
    assert_eq!(ser, expected);
}

#[test]
fn every_request_roundtrips() {
    let requests = [
        MonMessage::MonRegister,
        MonMessage::MonEnter,
        MonMessage::MonLeave,
        MonMessage::MonWait(0),
        MonMessage::MonSignal(251),
        MonMessage::MonBroadcast(65_536),
    ];
    for (i, r) in requests.iter().enumerate() {
        let m = Message::new(1 + 1000 * i as u64, *r);
        let decoded = Message::decode(&Message::encode(m)).unwrap();
        assert_eq!(decoded, m);
    }
    let big = Message::new(u32::MAX as u64 + 5, MonMessage::MonWait(17));
    assert_eq!(big.encoded_len(), 11);
    assert_eq!(Message::decode(&Message::encode(big)).unwrap(), big);
}

#[test]
fn encoded_len_counts_unpadded_bytes() {
    assert_eq!(Message::new(1, MonMessage::MonEnter).encoded_len(), 2);
    assert_eq!(Message::new(1, MonMessage::MonWait(u32::MAX as usize)).encoded_len(), 7);
    assert_eq!(Message::new(u64::MAX, MonMessage::MonWait(u64::MAX as usize)).encoded_len(), 19);
}

#[test]
fn set_sender_replaces_sender_only() {
    let mut m = Message::new(3, MonMessage::MonBroadcast(2));
    m.set_sender(9);
    assert_eq!(m, Message::new(9, MonMessage::MonBroadcast(2)));
}

#[test]
fn decode_rejects_zero_sender() {
    let r = Message::decode(&[0u8, 1, 0, 0]);
    assert!(matches!(r, Err(DecodeFailure::ZeroSender)));
}

#[test]
fn decode_rejects_unknown_variant() {
    let r = Message::decode(&[5u8, 6, 0]);
    assert!(matches!(r, Err(DecodeFailure::UnknownVariant(6))));
}

#[test]
fn decode_rejects_wide_variant_index() {
    let r = Message::decode(&[5u8, 253, 1, 0, 0, 0, 0, 0, 0, 0]);
    assert!(matches!(r, Err(DecodeFailure::TagTooWide)));
}

#[test]
fn decode_rejects_truncated_input() {
    fn kind(bytes: &[u8]) -> Option<CodecErrorKind> {
        match Message::decode(bytes) {
            Err(DecodeFailure::Codec { kind, .. }) => Some(kind),
            _ => None,
        }
    }
    assert_eq!(kind(&[]), Some(CodecErrorKind::UnexpectedEnd(1)));
    assert_eq!(kind(&[5u8, 3]), Some(CodecErrorKind::UnexpectedEnd(1)));
    assert_eq!(kind(&[251u8, 1]), Some(CodecErrorKind::UnexpectedEnd(1)));
    assert_eq!(kind(&[252u8, 1]), Some(CodecErrorKind::UnexpectedEnd(3)));
    assert_eq!(kind(&[5u8, 4, 253, 1]), Some(CodecErrorKind::UnexpectedEnd(7)));
    assert_eq!(kind(&[255u8, 1, 1]), Some(CodecErrorKind::InvalidIntegerType));
    assert_eq!(kind(&[254u8, 1, 1, 1, 1, 1, 1, 1, 1, 1]), Some(CodecErrorKind::InvalidIntegerType));
}

#[test]
fn decode_rejects_wide_variant_marker_even_when_short() {
    assert!(matches!(Message::decode(&[5u8, 253]), Err(DecodeFailure::TagTooWide)));
}

#[test]
fn decode_ignores_trailing_bytes() {
    let m = Message::decode(&[9u8, 3, 4, 99, 98, 97]).unwrap();
    assert_eq!(m, Message::new(9, MonMessage::MonWait(4)));
}
