use fdrop::codec::{decode_frame, TransferType};
use fdrop::errors::CommunicationError;
use fdrop::handshake::{
    complete_link, initiate_link, make_link_request, process_link_reply, receive_link_request,
    InitiateAction,
};
use fdrop::messages::{decode_link, encode_link, Link, LinkResponse};
use fdrop::registry::ConnectionManager;

const BOB: &str = "Bob._fdrop._tcp.local.";
const ALICE_FULL: &str = "Alice._fdrop._tcp.local.";

#[test]
fn initiate_on_unknown_peer() {
    let reg = ConnectionManager::new();
    assert!(matches!(
        initiate_link(&reg, &BOB.to_owned()),
        InitiateAction::UnknownPeer
    ));
}

#[test]
fn initiate_connects_in_discovery_order() {
    let mut reg = ConnectionManager::new();
    reg.upsert(BOB.to_owned(), vec!["10.0.0.2".to_owned(), "10.0.0.3".to_owned()]);
    match initiate_link(&reg, &BOB.to_owned()) {
        InitiateAction::Connect(addresses) => {
            assert_eq!(addresses, vec!["10.0.0.2".to_owned(), "10.0.0.3".to_owned()]);
        },
        _ => panic!("expected a connection attempt"),
    }
}

#[test]
fn linking_is_idempotent() {
    let mut reg = ConnectionManager::new();
    reg.upsert(BOB.to_owned(), vec!["10.0.0.2".to_owned()]);
    let (tx, _rx) = flume::bounded::<Vec<u8>>(4);
    reg.set_linked(&BOB.to_owned(), tx).unwrap();
    // Twice in a row: accepted immediately, no new socket, nothing changed.
    assert!(matches!(initiate_link(&reg, &BOB.to_owned()), InitiateAction::AlreadyLinked));
    assert!(matches!(initiate_link(&reg, &BOB.to_owned()), InitiateAction::AlreadyLinked));
    assert!(reg.linked(&BOB.to_owned()));
}

#[test]
fn link_request_frame_bytes() {
    let frame = make_link_request(&"Alice".to_owned());
    assert_eq!(
        frame,
        vec![0x80, 0x00, 0x09, 8, 1, 18, 5, b'A', b'l', b'i', b'c', b'e']
    );
}

fn alice_request_payload() -> Vec<u8> {
    encode_link(&Link { request: Some(true), name: "Alice".to_owned(), response: None })
}

#[test]
fn first_frame_must_be_a_link() {
    let mut reg = ConnectionManager::new();
    let r = receive_link_request(&mut reg, TransferType::TextMessage, &alice_request_payload());
    assert!(matches!(r, Err(CommunicationError::Unauthenticated)));
}

#[test]
fn garbage_link_payload_is_a_decode_error() {
    let mut reg = ConnectionManager::new();
    let r = receive_link_request(&mut reg, TransferType::Link, &vec![9, 9, 9]);
    assert!(matches!(r, Err(CommunicationError::DecodeError)));
}

#[test]
fn undiscovered_peer_is_rejected() {
    // The TCP connection succeeded and the frame is well formed, but the name
    // never appeared via discovery: rejected all the same.
    let mut reg = ConnectionManager::new();
    let r = receive_link_request(&mut reg, TransferType::Link, &alice_request_payload());
    assert!(matches!(r, Err(CommunicationError::PeerNotFound)));
}

#[test]
fn rejection_still_consumes_a_request_id() {
    let mut reg = ConnectionManager::new();
    let r = receive_link_request(&mut reg, TransferType::Link, &alice_request_payload());
    assert!(matches!(r, Err(CommunicationError::PeerNotFound)));
    reg.upsert(ALICE_FULL.to_owned(), Vec::new());
    let pending = receive_link_request(&mut reg, TransferType::Link, &alice_request_payload())
        .unwrap();
    assert_eq!(pending.request_id, 1);
}

#[test]
fn discovered_peer_yields_a_pending_link() {
    let mut reg = ConnectionManager::new();
    reg.upsert(ALICE_FULL.to_owned(), Vec::new());
    let pending = receive_link_request(&mut reg, TransferType::Link, &alice_request_payload())
        .unwrap();
    assert_eq!(pending.peer_name, "Alice");
    assert_eq!(pending.full_name, ALICE_FULL);
    assert_eq!(pending.request_id, 0);
}

#[test]
fn accepted_decision_links_and_answers() {
    let mut reg = ConnectionManager::new();
    reg.set_instance_name(BOB.to_owned());
    reg.upsert(ALICE_FULL.to_owned(), Vec::new());
    let pending = receive_link_request(&mut reg, TransferType::Link, &alice_request_payload())
        .unwrap();
    let (frame, rx) = complete_link(&mut reg, &pending, LinkResponse::Accepted).unwrap();
    assert!(rx.is_some());
    assert!(reg.linked(&ALICE_FULL.to_owned()));
    let (ttype, payload) = decode_frame(&frame).unwrap();
    assert_eq!(ttype, TransferType::Link);
    let m = decode_link(&payload).unwrap();
    assert_eq!(m.request, None);
    assert_eq!(m.name, BOB);
    assert_eq!(m.response, Some(LinkResponse::Accepted));
}

#[test]
fn rejected_decision_leaves_the_peer_unlinked() {
    let mut reg = ConnectionManager::new();
    reg.set_instance_name(BOB.to_owned());
    reg.upsert(ALICE_FULL.to_owned(), Vec::new());
    let pending = receive_link_request(&mut reg, TransferType::Link, &alice_request_payload())
        .unwrap();
    let (frame, rx) = complete_link(&mut reg, &pending, LinkResponse::Rejected).unwrap();
    assert!(rx.is_none());
    assert!(!reg.linked(&ALICE_FULL.to_owned()));
    let (_, payload) = decode_frame(&frame).unwrap();
    assert_eq!(decode_link(&payload).unwrap().response, Some(LinkResponse::Rejected));
}

#[test]
fn peer_removed_while_awaiting_approval() {
    let mut reg = ConnectionManager::new();
    reg.set_instance_name(BOB.to_owned());
    reg.upsert(ALICE_FULL.to_owned(), Vec::new());
    let pending = receive_link_request(&mut reg, TransferType::Link, &alice_request_payload())
        .unwrap();
    reg.remove(&ALICE_FULL.to_owned());
    let r = complete_link(&mut reg, &pending, LinkResponse::Accepted);
    assert!(matches!(r, Err(CommunicationError::PeerNotFound)));
}

fn bob_reply(response: LinkResponse) -> Vec<u8> {
    encode_link(&Link { request: None, name: "Bob".to_owned(), response: Some(response) })
}

#[test]
fn accepted_reply_links_the_initiator() {
    let mut reg = ConnectionManager::new();
    reg.upsert(BOB.to_owned(), vec!["10.0.0.2".to_owned()]);
    let r = process_link_reply(
        &mut reg,
        &BOB.to_owned(),
        TransferType::Link,
        &bob_reply(LinkResponse::Accepted),
    );
    let (response, rx) = r.unwrap();
    assert_eq!(response, LinkResponse::Accepted);
    assert!(rx.is_some());
    assert!(reg.linked(&BOB.to_owned()));
}

#[test]
fn rejected_and_other_replies_both_reject() {
    let mut reg = ConnectionManager::new();
    reg.upsert(BOB.to_owned(), Vec::new());
    for response in [LinkResponse::Rejected, LinkResponse::Other] {
        let r = process_link_reply(
            &mut reg,
            &BOB.to_owned(),
            TransferType::Link,
            &bob_reply(response),
        );
        let (outcome, rx) = r.unwrap();
        assert_eq!(outcome, LinkResponse::Rejected);
        assert!(rx.is_none());
        assert!(!reg.linked(&BOB.to_owned()));
    }
}

#[test]
fn reply_without_a_response_is_a_decode_error() {
    let mut reg = ConnectionManager::new();
    reg.upsert(BOB.to_owned(), Vec::new());
    let payload = encode_link(&Link { request: None, name: "Bob".to_owned(), response: None });
    let r = process_link_reply(&mut reg, &BOB.to_owned(), TransferType::Link, &payload);
    assert!(matches!(r, Err(CommunicationError::DecodeError)));
    assert!(!reg.linked(&BOB.to_owned()));
}
