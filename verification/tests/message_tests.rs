use fdrop::codec::{decode_frame, encode_frame, TransferType};
use fdrop::errors::CommunicationError;
use fdrop::messages::{
    decode_link, decode_text, encode_link, encode_text, Link, LinkResponse, TextMessage,
};

#[test]
fn response_codes_cross_the_wire_unchanged() {
    assert_eq!(LinkResponse::Accepted.code(), 0);
    assert_eq!(LinkResponse::Rejected.code(), 1);
    assert_eq!(LinkResponse::Other.code(), 2);
    assert_eq!(LinkResponse::from_code(0), Some(LinkResponse::Accepted));
    assert_eq!(LinkResponse::from_code(1), Some(LinkResponse::Rejected));
    assert_eq!(LinkResponse::from_code(2), Some(LinkResponse::Other));
    assert_eq!(LinkResponse::from_code(3), None);
}

#[test]
fn link_request_exact_bytes() {
    let m = Link { request: Some(true), name: "Alice".to_owned(), response: None };
    let payload = encode_link(&m);
    assert_eq!(payload, vec![8, 1, 18, 5, b'A', b'l', b'i', b'c', b'e']);
}

#[test]
fn link_response_exact_bytes() {
    let m = Link { request: None, name: "Bob".to_owned(), response: Some(LinkResponse::Accepted) };
    assert_eq!(encode_link(&m), vec![18, 3, b'B', b'o', b'b', 24, 0]);
    let m = Link { request: None, name: "Bob".to_owned(), response: Some(LinkResponse::Rejected) };
    assert_eq!(encode_link(&m), vec![18, 3, b'B', b'o', b'b', 24, 1]);
    let m = Link { request: None, name: "Bob".to_owned(), response: Some(LinkResponse::Other) };
    assert_eq!(encode_link(&m), vec![18, 3, b'B', b'o', b'b', 24, 2]);
}

#[test]
fn link_request_false_is_still_encoded() {
    let m = Link { request: Some(false), name: String::new(), response: None };
    assert_eq!(encode_link(&m), vec![8, 0]);
}

fn assert_link_round_trip(m: Link) {
    let payload = encode_link(&m);
    let back = decode_link(&payload).unwrap();
    assert_eq!(back.request, m.request);
    assert_eq!(back.name, m.name);
    assert_eq!(back.response, m.response);
}

#[test]
fn link_round_trips() {
    assert_link_round_trip(Link {
        request: Some(true),
        name: "Alice".to_owned(),
        response: None,
    });
    assert_link_round_trip(Link {
        request: None,
        name: "Bob._fdrop._tcp.local.".to_owned(),
        response: Some(LinkResponse::Rejected),
    });
    assert_link_round_trip(Link { request: None, name: String::new(), response: None });
    assert_link_round_trip(Link {
        request: Some(false),
        name: "h\u{00e9}llo".to_owned(),
        response: Some(LinkResponse::Other),
    });
}

#[test]
fn link_long_name_uses_two_byte_length() {
    let name: String = std::iter::repeat('x').take(200).collect();
    let m = Link { request: None, name: name.clone(), response: None };
    let payload = encode_link(&m);
    // 200 = 0b1_1001000: low seven bits with the high bit set, then the rest.
    assert_eq!(payload[0], 18);
    assert_eq!(payload[1], 200);
    assert_eq!(payload[2], 1);
    assert_eq!(payload.len(), 203);
    assert_eq!(decode_link(&payload).unwrap().name, name);
}

#[test]
fn link_decode_rejects_malformed_payloads() {
    // Unknown field tag.
    assert!(matches!(decode_link(&vec![9, 1]), Err(CommunicationError::DecodeError)));
    // A bool value other than 0 or 1.
    assert!(matches!(decode_link(&vec![8, 2]), Err(CommunicationError::DecodeError)));
    // A response code outside the enumeration.
    assert!(matches!(decode_link(&vec![24, 3]), Err(CommunicationError::DecodeError)));
    // A name field cut short.
    assert!(matches!(decode_link(&vec![18, 5, b'A']), Err(CommunicationError::DecodeError)));
    // A non-canonical length.
    assert!(matches!(decode_link(&vec![18, 128, 0]), Err(CommunicationError::DecodeError)));
    // Bytes that are not UTF-8.
    assert!(matches!(
        decode_link(&vec![18, 2, 0xff, 0xfe]),
        Err(CommunicationError::DecodeError)
    ));
    // Trailing bytes after the last field.
    assert!(matches!(decode_link(&vec![8, 1, 7]), Err(CommunicationError::DecodeError)));
}

#[test]
fn text_round_trips() {
    let m = TextMessage { contents: "hi".to_owned() };
    let payload = encode_text(&m);
    assert_eq!(payload, vec![10, 2, b'h', b'i']);
    assert_eq!(decode_text(&payload).unwrap().contents, "hi");

    let empty = TextMessage { contents: String::new() };
    let payload = encode_text(&empty);
    assert!(payload.is_empty());
    assert_eq!(decode_text(&payload).unwrap().contents, "");
}

#[test]
fn text_decode_rejects_malformed_payloads() {
    assert!(matches!(decode_text(&vec![11, 1, b'x']), Err(CommunicationError::DecodeError)));
    assert!(matches!(decode_text(&vec![10, 2, b'x']), Err(CommunicationError::DecodeError)));
    assert!(matches!(
        decode_text(&vec![10, 1, b'x', b'y']),
        Err(CommunicationError::DecodeError)
    ));
}

#[test]
fn whole_message_round_trip_through_frame() {
    let m = Link {
        request: Some(true),
        name: "Alice".to_owned(),
        response: Some(LinkResponse::Accepted),
    };
    let payload = encode_link(&m);
    let frame = encode_frame(TransferType::Link, &payload);
    let (ttype, decoded_payload) = decode_frame(&frame).unwrap();
    assert_eq!(ttype, TransferType::Link);
    let back = decode_link(&decoded_payload).unwrap();
    assert_eq!(back.request, m.request);
    assert_eq!(back.name, m.name);
    assert_eq!(back.response, m.response);
}
