//! The wire codec: every socket carries length-delimited, type-tagged frames
//! `[1 byte type][2 bytes length, big endian][length bytes payload]`.
//!
//! The type tag space is a closed enumeration; an unknown tag is a decode
//! error. A declared payload length above `MAX_PAYLOAD_SIZE` is a protocol
//! violation: the header alone is rejected, before any payload byte is read,
//! and the caller must close the connection.

use vstd::prelude::*;

use crate::errors::CommunicationError;

verus! {

/// Longest payload a frame may declare or carry, in bytes.
pub const MAX_PAYLOAD_SIZE: usize = 2048;

/// The well-known port every instance listens on.
pub const FDROP_PORT: u16 = 10116;

/// The type tag of a frame: a closed enumeration of the application messages.
#[derive(Clone, Copy, Debug, PartialEq, Eq, Structural)]
pub enum TransferType {
    Link,
    PrepareFileTransfer,
    TextMessage,
}

/// The tag set of the handshake-only codec: `Link` and `TextMessage`.
#[derive(Clone, Copy, Debug, PartialEq, Eq, Structural)]
pub enum MessageType {
    Link,
    TextMessage,
}

/// Wire value of each type tag.
pub open spec fn spec_tag_of(t: TransferType) -> u8 {
    match t {
        TransferType::Link => 128,
        TransferType::PrepareFileTransfer => 2,
        TransferType::TextMessage => 1,
    }
}

/// The type a wire tag names, if any.
pub open spec fn spec_type_of_tag(b: u8) -> Option<TransferType> {
    if b == 128 {
        Some(TransferType::Link)
    } else if b == 2 {
        Some(TransferType::PrepareFileTransfer)
    } else if b == 1 {
        Some(TransferType::TextMessage)
    } else {
        None
    }
}

impl TransferType {
    pub fn tag(&self) -> (b: u8)
        ensures
            b == spec_tag_of(*self),
    {
        match self {
            TransferType::Link => 128,
            TransferType::PrepareFileTransfer => 2,
            TransferType::TextMessage => 1,
        }
    }

    /// Validates a wire tag against the closed enumeration.
    pub fn from_tag(b: u8) -> (r: Result<TransferType, CommunicationError>)
        ensures
            spec_type_of_tag(b) is Some ==> r == Ok::<TransferType, CommunicationError>(
                spec_type_of_tag(b)->Some_0,
            ),
            spec_type_of_tag(b) is None ==> r == Err::<TransferType, CommunicationError>(
                CommunicationError::InvalidMessageType,
            ),
    {
        if b == 128 {
            Ok(TransferType::Link)
        } else if b == 2 {
            Ok(TransferType::PrepareFileTransfer)
        } else if b == 1 {
            Ok(TransferType::TextMessage)
        } else {
            Err(CommunicationError::InvalidMessageType)
        }
    }
}

/// Wire value of each tag of the reduced set.
pub open spec fn spec_message_tag_of(t: MessageType) -> u8 {
    match t {
        MessageType::Link => 128,
        MessageType::TextMessage => 1,
    }
}

impl MessageType {
    pub fn tag(&self) -> (b: u8)
        ensures
            b == spec_message_tag_of(*self),
    {
        match self {
            MessageType::Link => 128,
            MessageType::TextMessage => 1,
        }
    }

    /// Validates a wire tag against the reduced enumeration.
    pub fn from_tag(b: u8) -> (r: Result<MessageType, CommunicationError>)
        ensures
            b == 128 ==> r == Ok::<MessageType, CommunicationError>(MessageType::Link),
            b == 1 ==> r == Ok::<MessageType, CommunicationError>(MessageType::TextMessage),
            b != 128 && b != 1 ==> r == Err::<MessageType, CommunicationError>(
                CommunicationError::InvalidMessageType,
            ),
    {
        if b == 128 {
            Ok(MessageType::Link)
        } else if b == 1 {
            Ok(MessageType::TextMessage)
        } else {
            Err(CommunicationError::InvalidMessageType)
        }
    }
}

/// The payload length a frame header declares.
pub open spec fn spec_declared_len(hi: u8, lo: u8) -> int {
    hi * 256 + lo
}

/// The bytes of a frame: tag, big-endian length, payload.
pub open spec fn spec_frame(t: TransferType, payload: Seq<u8>) -> Seq<u8>
    recommends
        payload.len() <= MAX_PAYLOAD_SIZE,
{
    seq![spec_tag_of(t), (payload.len() / 256) as u8, (payload.len() % 256) as u8] + payload
}

/// What parsing a three-byte frame header yields: the message type and the
/// declared payload length, or the exact error owed to the header.
pub open spec fn spec_parse_header(tag: u8, hi: u8, lo: u8) -> Result<
    (TransferType, u16),
    CommunicationError,
> {
    match spec_type_of_tag(tag) {
        None => Err(CommunicationError::InvalidMessageType),
        Some(t) => if spec_declared_len(hi, lo) > MAX_PAYLOAD_SIZE {
            Err(CommunicationError::OversizedPayload)
        } else {
            Ok((t, (hi * 256 + lo) as u16))
        },
    }
}

/// What parsing a whole frame buffer yields: the message type and payload, or
/// the exact error owed to the bytes.
pub open spec fn spec_parse_frame(b: Seq<u8>) -> Result<
    (TransferType, Seq<u8>),
    CommunicationError,
> {
    if b.len() < 3 {
        Err(CommunicationError::UnexpectedEof)
    } else {
        match spec_type_of_tag(b[0]) {
            None => Err(CommunicationError::InvalidMessageType),
            Some(t) => {
                let len = spec_declared_len(b[1], b[2]);
                if len > MAX_PAYLOAD_SIZE {
                    Err(CommunicationError::OversizedPayload)
                } else if b.len() < 3 + len {
                    Err(CommunicationError::UnexpectedEof)
                } else if b.len() > 3 + len {
                    Err(CommunicationError::DecodeError)
                } else {
                    Ok((t, b.subrange(3, b.len() as int)))
                }
            },
        }
    }
}

/// Encodes one frame: the type tag, the big-endian payload length, then the
/// payload verbatim. No padding, no checksum.
pub fn encode_frame(t: TransferType, payload: &Vec<u8>) -> (r: Vec<u8>)
    requires
        payload@.len() <= MAX_PAYLOAD_SIZE,
    ensures
        r@ == spec_frame(t, payload@),
{
    let mut out: Vec<u8> = Vec::new();
    out.push(t.tag());
    let len: u16 = payload.len() as u16;
    out.push((len / 256) as u8);
    out.push((len % 256) as u8);
    out.extend_from_slice(payload.as_slice());
    proof {
        assert(out@ =~= spec_frame(t, payload@));
    }
    out
}

/// Validates a frame header. Only these three bytes are consulted: an
/// oversized declared length is rejected here, before any payload byte is
/// read from the stream.
pub fn parse_header(tag: u8, hi: u8, lo: u8) -> (r: Result<
    (TransferType, u16),
    CommunicationError,
>)
    ensures
        r == spec_parse_header(tag, hi, lo),
{
    let t = match TransferType::from_tag(tag) {
        Ok(t) => t,
        Err(e) => {
            return Err(e);
        },
    };
    let len: u16 = (hi as u16) * 256 + (lo as u16);
    if len > MAX_PAYLOAD_SIZE as u16 {
        Err(CommunicationError::OversizedPayload)
    } else {
        Ok((t, len))
    }
}

/// Decodes one whole frame from a buffer holding exactly the frame's bytes.
pub fn decode_frame(b: &Vec<u8>) -> (r: Result<(TransferType, Vec<u8>), CommunicationError>)
    ensures
        r is Ok ==> spec_parse_frame(b@) is Ok && r->Ok_0.0 == spec_parse_frame(b@)->Ok_0.0
            && r->Ok_0.1@ == spec_parse_frame(b@)->Ok_0.1,
        r is Err ==> spec_parse_frame(b@) is Err && r->Err_0 == spec_parse_frame(b@)->Err_0,
{
    if b.len() < 3 {
        return Err(CommunicationError::UnexpectedEof);
    }
    let t = match TransferType::from_tag(b[0]) {
        Ok(t) => t,
        Err(e) => {
            return Err(e);
        },
    };
    let len: usize = (b[1] as usize) * 256 + (b[2] as usize);
    if len > MAX_PAYLOAD_SIZE {
        return Err(CommunicationError::OversizedPayload);
    }
    if b.len() < 3 + len {
        return Err(CommunicationError::UnexpectedEof);
    }
    if b.len() > 3 + len {
        return Err(CommunicationError::DecodeError);
    }
    let mut payload: Vec<u8> = Vec::new();
    proof {
        assert(payload@ =~= b@.subrange(3, 3));
    }
    let mut i: usize = 3;
    while i < b.len()
        invariant
            3 <= i <= b@.len(),
            payload@ == b@.subrange(3, i as int),
        decreases b@.len() - i,
    {
        payload.push(b[i]);
        i = i + 1;
        proof {
            assert(payload@ =~= b@.subrange(3, i as int));
        }
    }
    proof {
        assert(payload@ =~= spec_parse_frame(b@)->Ok_0.1);
    }
    Ok((t, payload))
}

/// Round trip of the frame layer: parsing an encoded frame yields the type
/// tag and the payload that were encoded, for every payload within the size
/// limit.
pub proof fn lemma_frame_round_trip(t: TransferType, payload: Seq<u8>)
    requires
        payload.len() <= MAX_PAYLOAD_SIZE,
    ensures
        spec_parse_frame(spec_frame(t, payload)) == Ok::<(TransferType, Seq<u8>), CommunicationError>(
            (t, payload),
        ),
{
    let b = spec_frame(t, payload);
    assert(b[0] == spec_tag_of(t));
    assert(spec_type_of_tag(spec_tag_of(t)) == Some(t));
    assert(spec_declared_len(b[1], b[2]) == payload.len());
    assert(b.subrange(3, b.len() as int) =~= payload);
}

} // verus!
