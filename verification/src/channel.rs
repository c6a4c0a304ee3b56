//! Outbound message queues of linked peers.
//!
//! Each linked peer owns one bounded channel: the registry holds the sending
//! half on the peer's record, the relay loop drains the receiving half into
//! the peer's socket. The channel itself comes from the `flume` crate and is
//! opaque here; nothing is assumed of its contents, only the shape of the
//! calls below.

use vstd::prelude::*;

verus! {

/// How many outbound messages a peer's queue holds before senders wait.
pub const OUTBOUND_QUEUE_CAPACITY: usize = 100;

#[verifier::external_type_specification]
#[verifier::external_body]
#[verifier::reject_recursive_types(T)]
pub struct ExSender<T>(flume::Sender<T>);

#[verifier::external_type_specification]
#[verifier::external_body]
#[verifier::reject_recursive_types(T)]
pub struct ExReceiver<T>(flume::Receiver<T>);

/// Relies on `flume::bounded`: a fresh connected channel pair with capacity
/// `OUTBOUND_QUEUE_CAPACITY`. The pair is new state shared with no one, so
/// nothing further is promised of it.
#[verifier::external_body]
pub(crate) fn new_outbound_channel() -> (flume::Sender<Vec<u8>>, flume::Receiver<Vec<u8>>) {
    flume::bounded(OUTBOUND_QUEUE_CAPACITY)
}

/// Relies on `flume::Sender::send`: it delivers the message, waiting while
/// the queue is full, and fails exactly when every receiving half is gone.
/// Whether that is so depends on state outside this crate, so only the shape
/// of the outcome is stated.
#[verifier::external_body]
pub(crate) fn channel_send(tx: &flume::Sender<Vec<u8>>, frame: Vec<u8>) -> (ok: bool) {
    tx.send(frame).is_ok()
}

} // verus!
