use fdrop::errors::{CommunicationError, DiscoveryError, NetworkError};
use fdrop::registry::{ConnectionManager, LinkState};

use fdrop::relay::send_text_message;

fn channel() -> (flume::Sender<Vec<u8>>, flume::Receiver<Vec<u8>>) {
    flume::bounded(4)
}

#[test]
fn new_registry_is_empty() {
    let reg = ConnectionManager::new();
    assert!(reg.get_connectionss().is_empty());
    assert!(!reg.connection_exists(&"Bob._fdrop._tcp.local.".to_owned()));
    assert!(reg.instance_name().is_none());
}

#[test]
fn upsert_creates_unlinked_record() {
    let mut reg = ConnectionManager::new();
    let name = "Bob._fdrop._tcp.local.".to_owned();
    reg.upsert(name.clone(), vec!["10.0.0.2".to_owned()]);
    assert!(reg.connection_exists(&name));
    assert!(!reg.linked(&name));
    let list = reg.get_connectionss();
    assert_eq!(list.len(), 1);
    assert_eq!(list[0].name, name);
    assert!(!list[0].linked);
    assert_eq!(reg.addresses_of(&name).unwrap(), vec!["10.0.0.2".to_owned()]);
}

#[test]
fn upsert_replaces_addresses() {
    let mut reg = ConnectionManager::new();
    let name = "Bob._fdrop._tcp.local.".to_owned();
    reg.upsert(name.clone(), vec!["10.0.0.2".to_owned(), "10.0.0.3".to_owned()]);
    reg.upsert(name.clone(), vec!["192.168.1.9".to_owned()]);
    assert_eq!(reg.addresses_of(&name).unwrap(), vec!["192.168.1.9".to_owned()]);
    assert_eq!(reg.get_connectionss().len(), 1);
}

#[test]
fn rediscovery_preserves_linked_state() {
    let mut reg = ConnectionManager::new();
    let name = "Bob._fdrop._tcp.local.".to_owned();
    reg.upsert(name.clone(), vec!["10.0.0.2".to_owned()]);
    let (tx, _rx) = channel();
    reg.set_linked(&name, tx).unwrap();
    assert!(reg.linked(&name));
    reg.upsert(name.clone(), vec!["192.168.1.9".to_owned()]);
    assert!(reg.linked(&name));
    assert_eq!(reg.addresses_of(&name).unwrap(), vec!["192.168.1.9".to_owned()]);
}

#[test]
fn set_linked_requires_presence() {
    let mut reg = ConnectionManager::new();
    let (tx, _rx) = channel();
    assert_eq!(
        reg.set_linked(&"nobody._fdrop._tcp.local.".to_owned(), tx),
        Err(CommunicationError::PeerNotFound)
    );
}

#[test]
fn remove_deletes_the_record() {
    let mut reg = ConnectionManager::new();
    let name = "Bob._fdrop._tcp.local.".to_owned();
    reg.upsert(name.clone(), Vec::new());
    let info = reg.remove(&name).unwrap();
    assert_eq!(info.name, name);
    assert!(!info.linked);
    assert!(!reg.connection_exists(&name));
    assert!(reg.remove(&name).is_none());
}

#[test]
fn unlink_releases_the_channel() {
    let mut reg = ConnectionManager::new();
    let name = "Bob._fdrop._tcp.local.".to_owned();
    reg.upsert(name.clone(), Vec::new());
    let (tx, _rx) = channel();
    reg.set_linked(&name, tx).unwrap();
    assert!(reg.linked(&name));
    assert!(reg.unlink(&name));
    assert!(!reg.linked(&name));
    assert!(reg.connection_exists(&name));
    // With the channel released, a send falls through to an error rather than
    // reusing a dead queue.
    assert_eq!(
        send_text_message(&reg, &name, &"hi".to_owned()),
        Err(CommunicationError::PeerNotFound)
    );
}

#[test]
fn get_connection_exposes_the_record() {
    let mut reg = ConnectionManager::new();
    let name = "Bob._fdrop._tcp.local.".to_owned();
    assert!(reg.get_connection(&name).is_none());
    reg.upsert(name.clone(), vec!["10.0.0.2".to_owned()]);
    let c = reg.get_connection(&name).unwrap();
    assert_eq!(c.info.name, name);
    assert!(!c.info.linked);
    assert_eq!(c.link_state(), LinkState::Unlinked);
    assert_eq!(c.addresses(), &vec!["10.0.0.2".to_owned()]);
    let (tx, _rx) = channel();
    reg.set_linked(&name, tx).unwrap();
    let c = reg.get_connection(&name).unwrap();
    assert_eq!(c.link_state(), LinkState::Linked);
    assert!(c.info.linked);
}

#[test]
fn link_state_values_are_distinct() {
    assert_ne!(LinkState::Unlinked, LinkState::Linked);
    assert_ne!(LinkState::Unlinked, LinkState::Linking);
    assert_ne!(LinkState::Linking, LinkState::Linked);
}

#[test]
fn request_ids_are_monotonic() {
    let mut reg = ConnectionManager::new();
    assert_eq!(reg.next_request_id(), 0);
    assert_eq!(reg.next_request_id(), 1);
    assert_eq!(reg.next_request_id(), 2);
}

#[test]
fn instance_name_is_recorded() {
    let mut reg = ConnectionManager::new();
    reg.set_instance_name("Alice._fdrop._tcp.local.".to_owned());
    assert_eq!(reg.instance_name().unwrap(), "Alice._fdrop._tcp.local.");
}

#[test]
fn send_text_message_rejects_oversized_contents() {
    let mut reg = ConnectionManager::new();
    let name = "Bob._fdrop._tcp.local.".to_owned();
    reg.upsert(name.clone(), Vec::new());
    let (tx, _rx) = channel();
    reg.set_linked(&name, tx).unwrap();
    let contents: String = std::iter::repeat('x').take(2046).collect();
    assert_eq!(
        send_text_message(&reg, &name, &contents),
        Err(CommunicationError::OversizedPayload)
    );
    let contents: String = std::iter::repeat('x').take(2045).collect();
    assert_eq!(send_text_message(&reg, &name, &contents), Ok(()));
}

#[test]
fn send_text_message_fails_when_the_relay_is_gone() {
    let mut reg = ConnectionManager::new();
    let name = "Bob._fdrop._tcp.local.".to_owned();
    reg.upsert(name.clone(), Vec::new());
    let (tx, rx) = channel();
    reg.set_linked(&name, tx).unwrap();
    drop(rx);
    assert_eq!(
        send_text_message(&reg, &name, &"hi".to_owned()),
        Err(CommunicationError::WriteError)
    );
}

#[test]
fn human_readable_error_reports_the_cause() {
    let err = NetworkError::CommunicationError(CommunicationError::PeerNotFound);
    assert_eq!(
        fdrop::errors::human_readable_error(&err),
        "failed to communicate on the network\n\nCaused by:\n1.\tpeer not found by discovery service"
    );
    let err = NetworkError::DiscoveryError(DiscoveryError::HostnameError);
    assert_eq!(
        fdrop::errors::human_readable_error(&err),
        "discovery error\n\nCaused by:\n1.\tcannot determine system hostname"
    );
}
