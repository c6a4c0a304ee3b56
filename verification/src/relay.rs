//! The transfer relay's decisions: what to do with each frame that arrives on
//! a linked peer's socket, and how an outbound text message reaches the
//! peer's queue.
//!
//! The loop that owns the socket lives outside this crate; it hands every
//! decoded frame to `relay_inbound` and performs the returned action. A
//! malformed payload never terminates the relay — it is skipped — and a stray
//! `Link` frame after the handshake is answered with a fresh `Accepted`
//! response rather than treated as an error, which tolerates retransmitted
//! handshake frames.

use vstd::prelude::*;
use vstd::utf8::encode_utf8;

use vstd::string::StrSliceExecFns;

use crate::codec::{encode_frame, spec_frame, TransferType, MAX_PAYLOAD_SIZE};
use crate::errors::CommunicationError;
use crate::channel::channel_send;
use crate::messages::{
    encode_link, encode_text, link_name_ok, spec_link_payload, spec_parse_text, Link, LinkResponse,
    LinkView, TextMessage,
};
use crate::registry::ConnectionManager;

verus! {

/// A received application message, ready for display.
pub struct Transfer {
    pub ttype: TransferType,
    pub display_content: String,
}

/// What the relay loop must do with one inbound frame.
pub enum RelayAction {
    /// Surface a display-ready transfer to the event sink.
    Surface(Transfer),
    /// Write these bytes back to the socket.
    Reply(Vec<u8>),
    /// Log and continue; the frame changes nothing.
    Ignore,
}

/// The `Link` response frame re-confirming an established link.
pub open spec fn spec_reconfirm_frame(our_name: Seq<char>) -> Seq<u8> {
    spec_frame(
        TransferType::Link,
        spec_link_payload(
            LinkView { request: None, name: our_name, response: Some(LinkResponse::Accepted) },
        ),
    )
}

/// Decides what one inbound frame means for an established relay.
pub fn relay_inbound(ttype: TransferType, payload: &Vec<u8>, our_name: &String) -> (r: RelayAction)
    requires
        link_name_ok(our_name@),
    ensures
        ttype is TextMessage && spec_parse_text(payload@) is Some ==> r is Surface
            && r->Surface_0.ttype is TextMessage && r->Surface_0.display_content@
            == spec_parse_text(payload@)->Some_0,
        ttype is TextMessage && spec_parse_text(payload@) is None ==> r is Ignore,
        ttype is Link ==> r is Reply && r->Reply_0@ == spec_reconfirm_frame(our_name@),
        ttype is PrepareFileTransfer ==> r is Ignore,
{
    match ttype {
        TransferType::TextMessage => {
            match crate::messages::decode_text(payload) {
                Ok(message) => RelayAction::Surface(
                    Transfer {
                        ttype: TransferType::TextMessage,
                        display_content: message.contents,
                    },
                ),
                Err(_) => RelayAction::Ignore,
            }
        },
        TransferType::Link => {
            let resp = Link {
                request: None,
                name: our_name.clone(),
                response: Some(LinkResponse::Accepted),
            };
            let payload_bytes = encode_link(&resp);
            let frame = encode_frame(TransferType::Link, &payload_bytes);
            RelayAction::Reply(frame)
        },
        TransferType::PrepareFileTransfer => RelayAction::Ignore,
    }
}

/// Enqueues a text message for a linked peer. Fails with `PeerNotFound` when
/// the name is absent or not linked — after a relay terminates and releases
/// the channel, sends fall through here until a new link is made — and with
/// `OversizedPayload` when the contents cannot fit one frame. A send on a
/// live queue fails only if the relay's receiving half is already gone.
pub fn send_text_message(reg: &ConnectionManager, name: &String, contents: &String) -> (r: Result<
    (),
    CommunicationError,
>)
    requires
        reg.wf(),
    ensures
        !reg.is_linked(name@) ==> r == Err::<(), CommunicationError>(
            CommunicationError::PeerNotFound,
        ),
        reg.is_linked(name@) && encode_utf8(contents@).len() + 3 > MAX_PAYLOAD_SIZE ==> r == Err::<
            (),
            CommunicationError,
        >(CommunicationError::OversizedPayload),
        reg.is_linked(name@) && encode_utf8(contents@).len() + 3 <= MAX_PAYLOAD_SIZE ==> r is Ok
            || r == Err::<(), CommunicationError>(CommunicationError::WriteError),
{
    match reg.outbound(name) {
        None => Err(CommunicationError::PeerNotFound),
        Some(tx) => {
            let contents_bytes = contents.as_str().as_bytes_vec();
            let nbytes = contents_bytes.len();
            if nbytes > MAX_PAYLOAD_SIZE - 3 {
                return Err(CommunicationError::OversizedPayload);
            }
            let message = TextMessage { contents: contents.clone() };
            let payload = encode_text(&message);
            let frame = encode_frame(TransferType::TextMessage, &payload);
            if channel_send(tx, frame) {
                Ok(())
            } else {
                Err(CommunicationError::WriteError)
            }
        },
    }
}

} // verus!
