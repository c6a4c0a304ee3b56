//! The link handshake: the mutual-consent protocol that upgrades a discovered
//! peer to a linked one.
//!
//! The socket work — connecting, reading, writing, and awaiting the human
//! decision — lives outside this crate. These functions make every decision
//! of the protocol: what the initiator sends and how it takes the reply, and
//! how the responder validates an inbound request, numbers the approval
//! prompt, and completes or declines the link. Discovery membership is a hard
//! precondition on the responder's side: an inbound request from a name the
//! registry does not hold is rejected, however the connection itself fared.

use vstd::prelude::*;

use crate::channel::new_outbound_channel;
use crate::codec::{encode_frame, spec_frame, TransferType};
use crate::discovery::{full_service_name, spec_full_name};
use crate::errors::CommunicationError;
use crate::messages::{
    decode_link, encode_link, link_name_ok, spec_link_payload, spec_parse_link, Link, LinkResponse,
    LinkView,
};
use crate::registry::{admin_unchanged, others_unchanged, ConnectionManager};

verus! {

/// What the initiator must do for a peer it wants to link.
pub enum InitiateAction {
    /// The peer's channel already exists: report `Accepted` at once, with no
    /// new network round trip.
    AlreadyLinked,
    /// Try a stream connection to each candidate address, in this order,
    /// stopping at the first success.
    Connect(Vec<String>),
    /// The peer is not in the registry at all.
    UnknownPeer,
}

/// The `Link` request frame an initiator opens with.
pub open spec fn spec_request_frame(our_name: Seq<char>) -> Seq<u8> {
    spec_frame(
        TransferType::Link,
        spec_link_payload(LinkView { request: Some(true), name: our_name, response: None }),
    )
}

/// The `Link` response frame a responder answers with.
pub open spec fn spec_response_frame(our_name: Seq<char>, decision: LinkResponse) -> Seq<u8> {
    spec_frame(
        TransferType::Link,
        spec_link_payload(LinkView { request: None, name: our_name, response: Some(decision) }),
    )
}

/// Decides the first step of `request_link`. Linking is idempotent: a peer
/// whose record is already `Linked` is accepted again immediately, and the
/// registry — taken here by shared reference — cannot change.
pub fn initiate_link(reg: &ConnectionManager, name: &String) -> (r: InitiateAction)
    requires
        reg.wf(),
    ensures
        reg.is_linked(name@) <==> r is AlreadyLinked,
        !reg.contains_name(name@) <==> r is UnknownPeer,
        r is Connect ==> reg.contains_name(name@) && !reg.is_linked(name@)
            && r->Connect_0.deep_view() == reg.addrs_of(name@),
{
    if reg.linked(name) {
        InitiateAction::AlreadyLinked
    } else {
        match reg.addresses_of(name) {
            Some(addresses) => InitiateAction::Connect(addresses),
            None => InitiateAction::UnknownPeer,
        }
    }
}

/// The frame an initiator sends first: `request = true` and its own name.
pub fn make_link_request(our_name: &String) -> (r: Vec<u8>)
    requires
        link_name_ok(our_name@),
    ensures
        r@ == spec_request_frame(our_name@),
{
    let message = Link { request: Some(true), name: our_name.clone(), response: None };
    let payload = encode_link(&message);
    encode_frame(TransferType::Link, &payload)
}

/// The frame a responder answers with: its decision and its own name.
pub fn make_link_response(our_name: &String, decision: LinkResponse) -> (r: Vec<u8>)
    requires
        link_name_ok(our_name@),
    ensures
        r@ == spec_response_frame(our_name@, decision),
{
    let message = Link { request: None, name: our_name.clone(), response: Some(decision) };
    let payload = encode_link(&message);
    encode_frame(TransferType::Link, &payload)
}

/// Takes the one reply frame of the initiator's handshake. A reply of the
/// wrong type is tolerated — noted and decoded all the same, not an abort. A
/// payload that does not decode, or that carries no response, is a decode
/// error. `Rejected` and `Other` both come back as `Rejected`, with the
/// registry untouched and no relay to run. Only `Accepted` links the peer:
/// its record gains the sending half of a fresh queue and the caller gets the
/// receiving half for the relay.
pub fn process_link_reply(
    reg: &mut ConnectionManager,
    peer_name: &String,
    reply_type: TransferType,
    payload: &Vec<u8>,
) -> (r: Result<(LinkResponse, Option<flume::Receiver<Vec<u8>>>), CommunicationError>)
    requires
        old(reg).wf(),
    ensures
        final(reg).wf(),
        admin_unchanged(*old(reg), *final(reg)),
        others_unchanged(*old(reg), *final(reg), peer_name@),
        spec_parse_link(payload@) is None ==> r == Err::<
            (LinkResponse, Option<flume::Receiver<Vec<u8>>>),
            CommunicationError,
        >(CommunicationError::DecodeError) && *final(reg) == *old(reg),
        spec_parse_link(payload@) matches Some(m) ==> match m.response {
            None => r == Err::<(LinkResponse, Option<flume::Receiver<Vec<u8>>>), CommunicationError,
            >(CommunicationError::DecodeError) && *final(reg) == *old(reg),
            Some(LinkResponse::Accepted) => {
                if old(reg).contains_name(peer_name@) {
                    &&& r is Ok
                    &&& r->Ok_0.0 == LinkResponse::Accepted
                    &&& r->Ok_0.1 is Some
                    &&& final(reg).is_linked(peer_name@)
                } else {
                    r == Err::<(LinkResponse, Option<flume::Receiver<Vec<u8>>>), CommunicationError,
                    >(CommunicationError::PeerNotFound) && *final(reg) == *old(reg)
                }
            },
            Some(LinkResponse::Rejected) | Some(LinkResponse::Other) => r is Ok && r->Ok_0.0
                == LinkResponse::Rejected && r->Ok_0.1 is None && *final(reg) == *old(reg),
        },
{
    let _ = reply_type;
    let message = match decode_link(payload) {
        Ok(message) => message,
        Err(e) => {
            return Err(e);
        },
    };
    match message.response {
        None => Err(CommunicationError::DecodeError),
        Some(LinkResponse::Rejected) | Some(LinkResponse::Other) => Ok((
            LinkResponse::Rejected,
            None,
        )),
        Some(LinkResponse::Accepted) => {
            let (tx, rx) = new_outbound_channel();
            match reg.set_linked(peer_name, tx) {
                Ok(()) => Ok((LinkResponse::Accepted, Some(rx))),
                Err(e) => Err(e),
            }
        },
    }
}

/// A validated inbound link request, awaiting the human decision.
pub struct PendingLink {
    /// The name the peer declared for itself.
    pub peer_name: String,
    /// That name fully qualified under the service type: the registry key.
    pub full_name: String,
    /// The freshly allocated identifier of the approval prompt.
    pub request_id: u64,
}

/// Validates the first frame of an inbound connection. No message type but
/// `Link` may come first — anything else is `Unauthenticated` — and a payload
/// that does not decode is a decode error; both leave the registry untouched.
/// A well-formed request always allocates a prompt identifier, then requires
/// the declared name, fully qualified, to be present in the registry:
/// discovery must precede linking, however the connection itself fared.
pub fn receive_link_request(
    reg: &mut ConnectionManager,
    mtype: TransferType,
    payload: &Vec<u8>,
) -> (r: Result<PendingLink, CommunicationError>)
    requires
        old(reg).wf(),
        old(reg).spec_counter() < u64::MAX,
    ensures
        final(reg).wf(),
        !(mtype is Link) ==> r == Err::<PendingLink, CommunicationError>(
            CommunicationError::Unauthenticated,
        ) && *final(reg) == *old(reg),
        mtype is Link && spec_parse_link(payload@) is None ==> r == Err::<
            PendingLink,
            CommunicationError,
        >(CommunicationError::DecodeError) && *final(reg) == *old(reg),
        mtype is Link ==> (spec_parse_link(payload@) matches Some(m) ==> {
            &&& final(reg).spec_connections() == old(reg).spec_connections()
            &&& final(reg).spec_instance_name() == old(reg).spec_instance_name()
            &&& final(reg).spec_counter() == old(reg).spec_counter() + 1
            &&& (r is Ok <==> old(reg).contains_name(spec_full_name(m.name)))
            &&& (r is Err ==> r->Err_0 == CommunicationError::PeerNotFound)
            &&& (r is Ok ==> r->Ok_0.peer_name@ == m.name && r->Ok_0.full_name@ == spec_full_name(
                m.name,
            ) && r->Ok_0.request_id == old(reg).spec_counter())
        }),
{
    match mtype {
        TransferType::Link => {},
        _ => {
            return Err(CommunicationError::Unauthenticated);
        },
    }
    let message = match decode_link(payload) {
        Ok(message) => message,
        Err(e) => {
            return Err(e);
        },
    };
    let full_name = full_service_name(message.name.as_str());
    let request_id = reg.next_request_id();
    proof {
        crate::registry::lemma_same_table_lookups(*old(reg), *reg);
    }
    if !reg.connection_exists(&full_name) {
        return Err(CommunicationError::PeerNotFound);
    }
    Ok(PendingLink { peer_name: message.name, full_name, request_id })
}

/// Completes the responder's side once the human decision is in. Whatever the
/// decision, the returned frame carries it and must be sent to the peer. Only
/// an accepted decision links the peer — its record gains the sending half of
/// a fresh queue and the caller gets the receiving half for the relay — and
/// only if the peer is still in the registry; a peer removed while the
/// decision was pending is `PeerNotFound`, and nothing is sent. A declined
/// decision leaves the registry untouched.
pub fn complete_link(
    reg: &mut ConnectionManager,
    pending: &PendingLink,
    decision: LinkResponse,
) -> (r: Result<(Vec<u8>, Option<flume::Receiver<Vec<u8>>>), CommunicationError>)
    requires
        old(reg).wf(),
        old(reg).spec_instance_name() is Some,
    ensures
        final(reg).wf(),
        admin_unchanged(*old(reg), *final(reg)),
        others_unchanged(*old(reg), *final(reg), pending.full_name@),
        !(decision is Accepted) ==> *final(reg) == *old(reg) && r is Ok && r->Ok_0.1 is None
            && r->Ok_0.0@ == spec_response_frame(
            old(reg).spec_instance_name()->Some_0,
            decision,
        ),
        decision is Accepted && old(reg).contains_name(pending.full_name@) ==> r is Ok
            && r->Ok_0.1 is Some && final(reg).is_linked(pending.full_name@) && r->Ok_0.0@
            == spec_response_frame(old(reg).spec_instance_name()->Some_0, decision),
        decision is Accepted && !old(reg).contains_name(pending.full_name@) ==> r == Err::<
            (Vec<u8>, Option<flume::Receiver<Vec<u8>>>),
            CommunicationError,
        >(CommunicationError::PeerNotFound) && *final(reg) == *old(reg),
{
    let our_name = match reg.instance_name() {
        Some(n) => n.clone(),
        None => {
            return Err(CommunicationError::PeerNotFound);  // unreachable: the name is set
        },
    };
    let frame = make_link_response(&our_name, decision);
    match decision {
        LinkResponse::Accepted => {
            let (tx, rx) = new_outbound_channel();
            match reg.set_linked(&pending.full_name, tx) {
                Ok(()) => Ok((frame, Some(rx))),
                Err(e) => Err(e),
            }
        },
        _ => Ok((frame, None)),
    }
}

} // verus!
