use fdrop::codec::{decode_frame, encode_frame, parse_header, MessageType, TransferType};
use fdrop::errors::CommunicationError;

#[test]
fn tag_values_are_fixed() {
    assert_eq!(TransferType::Link.tag(), 0x80);
    assert_eq!(TransferType::TextMessage.tag(), 0x01);
    assert_eq!(TransferType::PrepareFileTransfer.tag(), 0x02);
    assert_eq!(MessageType::Link.tag(), 0x80);
    assert_eq!(MessageType::TextMessage.tag(), 0x01);
}

#[test]
fn from_tag_accepts_the_closed_enumeration_only() {
    assert_eq!(TransferType::from_tag(0x80), Ok(TransferType::Link));
    assert_eq!(TransferType::from_tag(0x01), Ok(TransferType::TextMessage));
    assert_eq!(TransferType::from_tag(0x02), Ok(TransferType::PrepareFileTransfer));
    assert_eq!(
        TransferType::from_tag(0x03),
        Err(CommunicationError::InvalidMessageType)
    );
    assert_eq!(
        TransferType::from_tag(0xff),
        Err(CommunicationError::InvalidMessageType)
    );
    assert_eq!(MessageType::from_tag(0x80), Ok(MessageType::Link));
    assert_eq!(MessageType::from_tag(0x01), Ok(MessageType::TextMessage));
    assert_eq!(
        MessageType::from_tag(0x02),
        Err(CommunicationError::InvalidMessageType)
    );
}

#[test]
fn encode_frame_exact_bytes() {
    let payload = vec![b'h', b'i'];
    let frame = encode_frame(TransferType::TextMessage, &payload);
    assert_eq!(frame, vec![0x01, 0x00, 0x02, b'h', b'i']);
}

#[test]
fn encode_frame_big_endian_length() {
    let payload = vec![0u8; 300];
    let frame = encode_frame(TransferType::Link, &payload);
    assert_eq!(frame[0], 0x80);
    assert_eq!(frame[1], 0x01);
    assert_eq!(frame[2], 0x2c);
    assert_eq!(frame.len(), 303);
}

#[test]
fn frame_round_trip() {
    let payload = vec![1u8, 2, 3, 4, 5];
    let frame = encode_frame(TransferType::PrepareFileTransfer, &payload);
    let (ttype, decoded) = decode_frame(&frame).unwrap();
    assert_eq!(ttype, TransferType::PrepareFileTransfer);
    assert_eq!(decoded, payload);
}

#[test]
fn frame_round_trip_empty_payload() {
    let payload: Vec<u8> = Vec::new();
    let frame = encode_frame(TransferType::Link, &payload);
    assert_eq!(frame, vec![0x80, 0x00, 0x00]);
    let (ttype, decoded) = decode_frame(&frame).unwrap();
    assert_eq!(ttype, TransferType::Link);
    assert!(decoded.is_empty());
}

#[test]
fn frame_round_trip_largest_payload() {
    let payload = vec![7u8; 2048];
    let frame = encode_frame(TransferType::TextMessage, &payload);
    let (ttype, decoded) = decode_frame(&frame).unwrap();
    assert_eq!(ttype, TransferType::TextMessage);
    assert_eq!(decoded, payload);
}

#[test]
fn oversized_header_rejected_before_payload() {
    // Declared length 2049: the three header bytes alone decide the outcome.
    assert_eq!(
        parse_header(0x01, 0x08, 0x01),
        Err(CommunicationError::OversizedPayload)
    );
    // Declared length 2048 is the largest accepted.
    assert_eq!(parse_header(0x01, 0x08, 0x00), Ok((TransferType::TextMessage, 2048)));
}

#[test]
fn header_with_unknown_tag_rejected() {
    assert_eq!(
        parse_header(0x7f, 0x00, 0x00),
        Err(CommunicationError::InvalidMessageType)
    );
}

#[test]
fn decode_frame_oversized_declared_length() {
    let bytes = vec![0x01, 0x08, 0x01];
    assert_eq!(decode_frame(&bytes), Err(CommunicationError::OversizedPayload));
}

#[test]
fn decode_frame_unknown_tag() {
    let bytes = vec![0x42, 0x00, 0x00];
    assert_eq!(decode_frame(&bytes), Err(CommunicationError::InvalidMessageType));
}

#[test]
fn decode_frame_truncated() {
    assert_eq!(decode_frame(&vec![0x01]), Err(CommunicationError::UnexpectedEof));
    assert_eq!(
        decode_frame(&vec![0x01, 0x00, 0x05, b'h', b'i']),
        Err(CommunicationError::UnexpectedEof)
    );
}

#[test]
fn decode_frame_trailing_bytes() {
    let bytes = vec![0x01, 0x00, 0x01, b'h', b'i'];
    assert_eq!(decode_frame(&bytes), Err(CommunicationError::DecodeError));
}
