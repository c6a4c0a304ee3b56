//! Payloads of the application messages, as a fixed binary grammar.
//!
//! A `Link` payload carries the handshake fields (`request`, `name`,
//! `response`), a `TextMessage` payload carries UTF-8 contents. Each field is
//! laid out protobuf-style — a one-byte field tag, then either a one-byte
//! value or a varint length followed by that many UTF-8 bytes — with optional
//! and empty fields omitted, fields in ascending tag order, and the exact
//! integer encoding of `LinkResponse` fixed because it crosses the wire.
//! Encoders and decoders are verified against the spec-level grammar below,
//! and the round-trip laws at the end of the module relate the two.

use vstd::prelude::*;
use vstd::string::StrSliceExecFns;
use vstd::utf8::{decode_utf8, encode_utf8, encode_utf8_decode_utf8, encode_utf8_valid_utf8,
    valid_utf8};

use crate::codec::{spec_frame, spec_parse_frame, TransferType, MAX_PAYLOAD_SIZE};
use crate::errors::CommunicationError;

verus! {

/// Longest UTF-8 encoding, in bytes, of an instance name carried by a `Link`
/// payload; keeps every handshake payload within the frame size limit.
pub const MAX_NAME_BYTES: usize = 2000;

/// Field tag of `request` in a `Link` payload.
pub const REQUEST_FIELD_TAG: u8 = 8;

/// Field tag of `name` in a `Link` payload.
pub const NAME_FIELD_TAG: u8 = 18;

/// Field tag of `response` in a `Link` payload.
pub const RESPONSE_FIELD_TAG: u8 = 24;

/// Field tag of `contents` in a `TextMessage` payload.
pub const CONTENTS_FIELD_TAG: u8 = 10;

/// The outcome of a link request, as decided by the responder's user.
#[derive(Clone, Copy, Debug, PartialEq, Eq, Structural)]
pub enum LinkResponse {
    Accepted,
    Rejected,
    Other,
}

/// Wire value of each response; fixed across implementations.
pub open spec fn spec_response_code(r: LinkResponse) -> u8 {
    match r {
        LinkResponse::Accepted => 0,
        LinkResponse::Rejected => 1,
        LinkResponse::Other => 2,
    }
}

/// The response a wire value names, if any.
pub open spec fn spec_response_of_code(b: u8) -> Option<LinkResponse> {
    if b == 0 {
        Some(LinkResponse::Accepted)
    } else if b == 1 {
        Some(LinkResponse::Rejected)
    } else if b == 2 {
        Some(LinkResponse::Other)
    } else {
        None
    }
}

impl LinkResponse {
    pub fn code(&self) -> (b: u8)
        ensures
            b == spec_response_code(*self),
    {
        match self {
            LinkResponse::Accepted => 0,
            LinkResponse::Rejected => 1,
            LinkResponse::Other => 2,
        }
    }

    pub fn from_code(b: u8) -> (r: Option<LinkResponse>)
        ensures
            r == spec_response_of_code(b),
    {
        if b == 0 {
            Some(LinkResponse::Accepted)
        } else if b == 1 {
            Some(LinkResponse::Rejected)
        } else if b == 2 {
            Some(LinkResponse::Other)
        } else {
            None
        }
    }
}

/// The handshake message. The initiator sends `request = Some(true)` with its
/// own name; the responder answers with `response = Some(decision)` and its
/// own name.
pub struct Link {
    pub request: Option<bool>,
    pub name: String,
    pub response: Option<LinkResponse>,
}

/// Mathematical value of a `Link` message.
#[verifier::ext_equal]
pub ghost struct LinkView {
    pub request: Option<bool>,
    pub name: Seq<char>,
    pub response: Option<LinkResponse>,
}

impl View for Link {
    type V = LinkView;

    open spec fn view(&self) -> LinkView {
        LinkView { request: self.request, name: self.name@, response: self.response }
    }
}

/// A chat message shown to the peer's user.
pub struct TextMessage {
    pub contents: String,
}

impl View for TextMessage {
    type V = Seq<char>;

    open spec fn view(&self) -> Seq<char> {
        self.contents@
    }
}

/// Whether a name is short enough to travel in a `Link` payload.
pub open spec fn link_name_ok(name: Seq<char>) -> bool {
    encode_utf8(name).len() <= MAX_NAME_BYTES
}

/// Variable-width encoding of a small length: values below 128 take one byte;
/// larger values put the low seven bits (with the high bit set) first and the
/// remaining bits second.
pub open spec fn spec_varint(n: nat) -> Seq<u8>
    recommends
        n < 16384,
{
    if n < 128 {
        seq![n as u8]
    } else {
        seq![((n % 128) + 128) as u8, (n / 128) as u8]
    }
}

/// Parses a varint off the front of `b`: the value and the remaining bytes.
/// Only the canonical encodings above are accepted.
pub open spec fn spec_parse_varint(b: Seq<u8>) -> Option<(nat, Seq<u8>)> {
    if b.len() >= 1 && b[0] < 128 {
        Some((b[0] as nat, b.skip(1)))
    } else if b.len() >= 2 && b[0] >= 128 && 1 <= b[1] < 128 {
        Some((((b[0] - 128) + 128 * b[1]) as nat, b.skip(2)))
    } else {
        None
    }
}

/// Bytes of the `request` field: absent when the option is absent.
pub open spec fn spec_request_field(r: Option<bool>) -> Seq<u8> {
    match r {
        None => seq![],
        Some(v) => seq![REQUEST_FIELD_TAG, if v { 1u8 } else { 0u8 }],
    }
}

/// Bytes of the `name` field: absent when the name is empty, else the tag,
/// the UTF-8 length as a varint, then the UTF-8 bytes.
pub open spec fn spec_name_field(name: Seq<char>) -> Seq<u8> {
    if name.len() == 0 {
        seq![]
    } else {
        seq![NAME_FIELD_TAG] + spec_varint(encode_utf8(name).len()) + encode_utf8(name)
    }
}

/// Bytes of the `response` field: absent when the option is absent.
pub open spec fn spec_response_field(r: Option<LinkResponse>) -> Seq<u8> {
    match r {
        None => seq![],
        Some(v) => seq![RESPONSE_FIELD_TAG, spec_response_code(v)],
    }
}

/// The whole `Link` payload: the three fields in tag order.
pub open spec fn spec_link_payload(m: LinkView) -> Seq<u8> {
    spec_request_field(m.request) + spec_name_field(m.name) + spec_response_field(m.response)
}

/// The whole `TextMessage` payload: one `contents` field, absent when empty.
pub open spec fn spec_text_payload(s: Seq<char>) -> Seq<u8> {
    if s.len() == 0 {
        seq![]
    } else {
        seq![CONTENTS_FIELD_TAG] + spec_varint(encode_utf8(s).len()) + encode_utf8(s)
    }
}

/// Parses the `request` field off the front of `b`.
pub open spec fn spec_parse_request(b: Seq<u8>) -> Option<(Option<bool>, Seq<u8>)> {
    if b.len() >= 1 && b[0] == REQUEST_FIELD_TAG {
        if b.len() >= 2 && b[1] == 0 {
            Some((Some(false), b.skip(2)))
        } else if b.len() >= 2 && b[1] == 1 {
            Some((Some(true), b.skip(2)))
        } else {
            None
        }
    } else {
        Some((None, b))
    }
}

/// Parses the `name` field off the front of `b`.
pub open spec fn spec_parse_name(b: Seq<u8>) -> Option<(Seq<char>, Seq<u8>)> {
    if b.len() >= 1 && b[0] == NAME_FIELD_TAG {
        match spec_parse_varint(b.skip(1)) {
            None => None,
            Some((n, rest)) => if 1 <= n <= rest.len() && valid_utf8(rest.take(n as int)) {
                Some((decode_utf8(rest.take(n as int)), rest.skip(n as int)))
            } else {
                None
            },
        }
    } else {
        Some((Seq::empty(), b))
    }
}

/// Parses the `response` field off the front of `b`.
pub open spec fn spec_parse_response(b: Seq<u8>) -> Option<(Option<LinkResponse>, Seq<u8>)> {
    if b.len() >= 1 && b[0] == RESPONSE_FIELD_TAG {
        if b.len() >= 2 && spec_response_of_code(b[1]) is Some {
            Some((spec_response_of_code(b[1]), b.skip(2)))
        } else {
            None
        }
    } else {
        Some((None, b))
    }
}

/// Parses a whole `Link` payload: the three fields in order, nothing after.
pub open spec fn spec_parse_link(b: Seq<u8>) -> Option<LinkView> {
    match spec_parse_request(b) {
        None => None,
        Some((request, b1)) => match spec_parse_name(b1) {
            None => None,
            Some((name, b2)) => match spec_parse_response(b2) {
                None => None,
                Some((response, b3)) => if b3.len() == 0 {
                    Some(LinkView { request, name, response })
                } else {
                    None
                },
            },
        },
    }
}

/// Parses a whole `TextMessage` payload.
pub open spec fn spec_parse_text(b: Seq<u8>) -> Option<Seq<char>> {
    if b.len() == 0 {
        Some(Seq::empty())
    } else if b[0] == CONTENTS_FIELD_TAG {
        match spec_parse_varint(b.skip(1)) {
            None => None,
            Some((n, rest)) => if 1 <= n && rest.len() == n && valid_utf8(rest) {
                Some(decode_utf8(rest))
            } else {
                None
            },
        }
    } else {
        None
    }
}

/// Each character encodes to at least one UTF-8 byte, so an encoding is never
/// shorter than the character sequence and is empty exactly for the empty one.
pub proof fn lemma_encode_utf8_len(s: Seq<char>)
    ensures
        encode_utf8(s).len() >= s.len(),
    decreases s.len(),
{
    if s.len() > 0 {
        lemma_encode_utf8_len(s.drop_first());
    }
}

/// Relies on `String::from_utf8`: it succeeds exactly on valid UTF-8 input
/// and returns the string those bytes encode.
#[verifier::external_body]
fn string_from_utf8(v: Vec<u8>) -> (r: Option<String>)
    ensures
        r is Some <==> valid_utf8(v@),
        r is Some ==> r->Some_0@ == decode_utf8(v@),
{
    String::from_utf8(v).ok()
}

/// Appends the varint encoding of `n`.
fn push_varint(out: &mut Vec<u8>, n: usize)
    requires
        n < 16384,
    ensures
        final(out)@ == old(out)@ + spec_varint(n as nat),
{
    if n < 128 {
        out.push(n as u8);
    } else {
        out.push(((n % 128) + 128) as u8);
        out.push((n / 128) as u8);
    }
    proof {
        assert(out@ =~= old(out)@ + spec_varint(n as nat));
    }
}

/// Reads a varint at `pos`, returning the value and the position after it.
fn read_varint(b: &Vec<u8>, pos: usize) -> (r: Option<(usize, usize)>)
    requires
        pos <= b@.len(),
    ensures
        r is None ==> spec_parse_varint(b@.skip(pos as int)) is None,
        r is Some ==> {
            &&& spec_parse_varint(b@.skip(pos as int)) is Some
            &&& r->Some_0.0 as nat == spec_parse_varint(b@.skip(pos as int))->Some_0.0
            &&& pos < r->Some_0.1 <= b@.len()
            &&& b@.skip(r->Some_0.1 as int) == spec_parse_varint(b@.skip(pos as int))->Some_0.1
            &&& r->Some_0.0 < 16384
        },
{
    let len = b.len();
    if len - pos >= 1 && b[pos] < 128 {
        proof {
            assert(b@.skip(pos as int).skip(1) =~= b@.skip(pos as int + 1));
        }
        Some((b[pos] as usize, pos + 1))
    } else if len - pos >= 2 && b[pos] >= 128 && 1 <= b[pos + 1] && b[pos + 1] < 128 {
        proof {
            assert(b@.skip(pos as int).skip(2) =~= b@.skip(pos as int + 2));
        }
        Some(((b[pos] - 128) as usize + 128 * (b[pos + 1] as usize), pos + 2))
    } else {
        None
    }
}

/// Encodes a `Link` message as its payload bytes.
pub fn encode_link(m: &Link) -> (r: Vec<u8>)
    requires
        link_name_ok(m@.name),
    ensures
        r@ == spec_link_payload(m@),
        r@.len() <= MAX_NAME_BYTES + 7,
{
    let mut out: Vec<u8> = Vec::new();
    match m.request {
        Some(v) => {
            out.push(REQUEST_FIELD_TAG);
            out.push(if v { 1 } else { 0 });
        },
        None => {},
    }
    proof {
        assert(out@ =~= spec_request_field(m@.request));
        lemma_encode_utf8_len(m@.name);
    }
    let name_bytes: Vec<u8> = m.name.as_str().as_bytes_vec();
    if name_bytes.len() > 0 {
        out.push(NAME_FIELD_TAG);
        push_varint(&mut out, name_bytes.len());
        out.extend_from_slice(name_bytes.as_slice());
    }
    proof {
        assert(out@ =~= spec_request_field(m@.request) + spec_name_field(m@.name));
    }
    match m.response {
        Some(v) => {
            out.push(RESPONSE_FIELD_TAG);
            out.push(v.code());
        },
        None => {},
    }
    proof {
        assert(out@ =~= spec_link_payload(m@));
    }
    out
}

/// Encodes a `TextMessage` as its payload bytes.
pub fn encode_text(m: &TextMessage) -> (r: Vec<u8>)
    requires
        encode_utf8(m@).len() < 16384,
    ensures
        r@ == spec_text_payload(m@),
        r@.len() <= encode_utf8(m@).len() + 3,
{
    let mut out: Vec<u8> = Vec::new();
    proof {
        lemma_encode_utf8_len(m@);
    }
    let bytes: Vec<u8> = m.contents.as_str().as_bytes_vec();
    if bytes.len() > 0 {
        out.push(CONTENTS_FIELD_TAG);
        push_varint(&mut out, bytes.len());
        out.extend_from_slice(bytes.as_slice());
    }
    proof {
        assert(out@ =~= spec_text_payload(m@));
    }
    out
}

/// Decodes a `Link` payload; fails exactly where the grammar does.
#[verifier::rlimit(100)]
pub fn decode_link(b: &Vec<u8>) -> (r: Result<Link, CommunicationError>)
    ensures
        r is Ok <==> spec_parse_link(b@) is Some,
        r is Ok ==> r->Ok_0@ == spec_parse_link(b@)->Some_0,
        r is Err ==> r->Err_0 == CommunicationError::DecodeError,
{
    let len = b.len();
    let mut pos: usize = 0;
    let request: Option<bool>;
    if len >= 1 && b[0] == REQUEST_FIELD_TAG {
        if len >= 2 && b[1] == 0 {
            request = Some(false);
            pos = 2;
        } else if len >= 2 && b[1] == 1 {
            request = Some(true);
            pos = 2;
        } else {
            return Err(CommunicationError::DecodeError);
        }
    } else {
        request = None;
    }
    proof {
        assert(b@.skip(0) =~= b@);
        assert(spec_parse_request(b@) == Some((request, b@.skip(pos as int))));
    }
    let ghost b1 = b@.skip(pos as int);
    let name: String;
    if len - pos >= 1 && b[pos] == NAME_FIELD_TAG {
        proof {
            assert(b1[0] == b@[pos as int]);
            assert(b1.skip(1) =~= b@.skip(pos as int + 1));
        }
        match read_varint(b, pos + 1) {
            None => {
                return Err(CommunicationError::DecodeError);
            },
            Some((n, p2)) => {
                proof {
                    assert(b@.skip(p2 as int) == spec_parse_varint(b1.skip(1))->Some_0.1);
                }
                if n == 0 || n > len - p2 {
                    return Err(CommunicationError::DecodeError);
                }
                let end: usize = p2 + n;
                let mut bytes: Vec<u8> = Vec::new();
                proof {
                    assert(bytes@ =~= b@.subrange(p2 as int, p2 as int));
                }
                let mut i: usize = p2;
                while i < end
                    invariant
                        p2 <= i <= end,
                        end == p2 + n,
                        end <= b@.len(),
                        bytes@ == b@.subrange(p2 as int, i as int),
                    decreases end - i,
                {
                    bytes.push(b[i]);
                    i = i + 1;
                    proof {
                        assert(bytes@ =~= b@.subrange(p2 as int, i as int));
                    }
                }
                proof {
                    assert(bytes@ =~= b@.skip(p2 as int).take(n as int));
                }
                match string_from_utf8(bytes) {
                    None => {
                        return Err(CommunicationError::DecodeError);
                    },
                    Some(s) => {
                        name = s;
                        pos = p2 + n;
                        proof {
                            assert(b@.skip(p2 as int).skip(n as int) =~= b@.skip(pos as int));
                        }
                    },
                }
            },
        }
    } else {
        name = String::new();
    }
    proof {
        assert(spec_parse_name(b1) == Some((name@, b@.skip(pos as int))));
    }
    let ghost b2 = b@.skip(pos as int);
    let response: Option<LinkResponse>;
    if len - pos >= 1 && b[pos] == RESPONSE_FIELD_TAG {
        proof {
            assert(b2[0] == b@[pos as int]);
        }
        if len - pos >= 2 {
            match LinkResponse::from_code(b[pos + 1]) {
                Some(v) => {
                    response = Some(v);
                    proof {
                        assert(b2.skip(2) =~= b@.skip(pos as int + 2));
                    }
                    pos = pos + 2;
                },
                None => {
                    return Err(CommunicationError::DecodeError);
                },
            }
        } else {
            return Err(CommunicationError::DecodeError);
        }
    } else {
        response = None;
    }
    proof {
        assert(spec_parse_response(b2) == Some((response, b@.skip(pos as int))));
    }
    if pos != len {
        return Err(CommunicationError::DecodeError);
    }
    let result = Link { request, name, response };
    proof {
        assert(spec_parse_link(b@)->Some_0 =~= result@);
    }
    Ok(result)
}

/// Decodes a `TextMessage` payload; fails exactly where the grammar does.
pub fn decode_text(b: &Vec<u8>) -> (r: Result<TextMessage, CommunicationError>)
    ensures
        r is Ok <==> spec_parse_text(b@) is Some,
        r is Ok ==> r->Ok_0@ == spec_parse_text(b@)->Some_0,
        r is Err ==> r->Err_0 == CommunicationError::DecodeError,
{
    let len = b.len();
    if len == 0 {
        return Ok(TextMessage { contents: String::new() });
    }
    if b[0] != CONTENTS_FIELD_TAG {
        return Err(CommunicationError::DecodeError);
    }
    proof {
        assert(b@.skip(1) =~= b@.subrange(1, len as int));
    }
    match read_varint(b, 1) {
        None => Err(CommunicationError::DecodeError),
        Some((n, p2)) => {
            proof {
                assert(b@.skip(p2 as int) == spec_parse_varint(b@.skip(1))->Some_0.1);
            }
            if n == 0 || len - p2 != n {
                return Err(CommunicationError::DecodeError);
            }
            let end: usize = p2 + n;
            let mut bytes: Vec<u8> = Vec::new();
            proof {
                assert(bytes@ =~= b@.subrange(p2 as int, p2 as int));
            }
            let mut i: usize = p2;
            while i < end
                invariant
                    p2 <= i <= end,
                    end == p2 + n,
                    end <= b@.len(),
                    bytes@ == b@.subrange(p2 as int, i as int),
                decreases end - i,
            {
                bytes.push(b[i]);
                i = i + 1;
                proof {
                    assert(bytes@ =~= b@.subrange(p2 as int, i as int));
                }
            }
            proof {
                assert(bytes@ =~= b@.skip(p2 as int));
            }
            match string_from_utf8(bytes) {
                None => Err(CommunicationError::DecodeError),
                Some(s) => Ok(TextMessage { contents: s }),
            }
        },
    }
}

/// Round trip of a varint followed by anything.
pub proof fn lemma_varint_round_trip(n: nat, rest: Seq<u8>)
    requires
        n < 16384,
    ensures
        spec_parse_varint(spec_varint(n) + rest) == Some((n, rest)),
{
    let b = spec_varint(n) + rest;
    if n < 128 {
        assert(b[0] == n as u8);
        assert(b.skip(1) =~= rest);
    } else {
        assert(b[0] == ((n % 128) + 128) as u8);
        assert(b[1] == (n / 128) as u8);
        assert(1 <= n / 128 < 128);
        assert(((b[0] - 128) + 128 * b[1]) as nat == n) by {
            vstd::arithmetic::div_mod::lemma_fundamental_div_mod(n as int, 128);
        }
        assert(b.skip(2) =~= rest);
    }
}

/// Round trip of the `request` field followed by the rest of a payload.
pub proof fn lemma_request_round_trip(r: Option<bool>, rest: Seq<u8>)
    requires
        r is None ==> rest.len() == 0 || rest[0] != REQUEST_FIELD_TAG,
    ensures
        spec_parse_request(spec_request_field(r) + rest) == Some((r, rest)),
{
    let b = spec_request_field(r) + rest;
    match r {
        None => {
            assert(b =~= rest);
        },
        Some(v) => {
            assert(b.skip(2) =~= rest);
        },
    }
}

/// Round trip of the `name` field followed by the rest of a payload.
#[verifier::rlimit(50)]
pub proof fn lemma_name_round_trip(name: Seq<char>, rest: Seq<u8>)
    requires
        encode_utf8(name).len() < 16384,
        name.len() == 0 ==> rest.len() == 0 || rest[0] != NAME_FIELD_TAG,
    ensures
        spec_parse_name(spec_name_field(name) + rest) == Some((name, rest)),
{
    let b = spec_name_field(name) + rest;
    if name.len() == 0 {
        assert(b =~= rest);
    } else {
        let bytes = encode_utf8(name);
        lemma_encode_utf8_len(name);
        assert(b[0] == NAME_FIELD_TAG);
        assert(b.skip(1) =~= spec_varint(bytes.len()) + (bytes + rest));
        lemma_varint_round_trip(bytes.len(), bytes + rest);
        assert((bytes + rest).take(bytes.len() as int) =~= bytes);
        assert((bytes + rest).skip(bytes.len() as int) =~= rest);
        encode_utf8_valid_utf8(name);
        encode_utf8_decode_utf8(name);
    }
}

/// Round trip of the `response` field followed by the rest of a payload.
pub proof fn lemma_response_round_trip(r: Option<LinkResponse>, rest: Seq<u8>)
    requires
        r is None ==> rest.len() == 0 || rest[0] != RESPONSE_FIELD_TAG,
    ensures
        spec_parse_response(spec_response_field(r) + rest) == Some((r, rest)),
{
    let b = spec_response_field(r) + rest;
    match r {
        None => {
            assert(b =~= rest);
        },
        Some(v) => {
            assert(b.skip(2) =~= rest);
        },
    }
}

/// Round trip of a whole `Link` message: parsing its encoded payload yields
/// the message, for every message whose name fits the grammar.
pub proof fn lemma_link_round_trip(m: LinkView)
    requires
        encode_utf8(m.name).len() < 16384,
    ensures
        spec_parse_link(spec_link_payload(m)) == Some(m),
{
    let rf = spec_request_field(m.request);
    let nf = spec_name_field(m.name);
    let pf = spec_response_field(m.response);
    lemma_encode_utf8_len(m.name);
    assert(spec_link_payload(m) =~= rf + (nf + pf));
    lemma_request_round_trip(m.request, nf + pf);
    lemma_name_round_trip(m.name, pf);
    lemma_response_round_trip(m.response, Seq::<u8>::empty());
    assert(pf + Seq::<u8>::empty() =~= pf);
    assert(spec_parse_link(spec_link_payload(m))->Some_0 =~= m);
}

/// Round trip of a whole `TextMessage`: parsing its encoded payload yields
/// the contents, for every contents whose encoding fits the grammar.
pub proof fn lemma_text_round_trip(s: Seq<char>)
    requires
        encode_utf8(s).len() < 16384,
    ensures
        spec_parse_text(spec_text_payload(s)) == Some(s),
{
    let b = spec_text_payload(s);
    if s.len() == 0 {
    } else {
        let bytes = encode_utf8(s);
        lemma_encode_utf8_len(s);
        assert(b[0] == CONTENTS_FIELD_TAG);
        assert(b.skip(1) =~= spec_varint(bytes.len()) + bytes);
        lemma_varint_round_trip(bytes.len(), bytes);
        encode_utf8_valid_utf8(s);
        encode_utf8_decode_utf8(s);
    }
}

/// A `Link` payload stays within one frame whenever its name does.
pub proof fn lemma_link_payload_fits(m: LinkView)
    requires
        link_name_ok(m.name),
    ensures
        spec_link_payload(m).len() <= MAX_PAYLOAD_SIZE,
{
}

/// Round trip of a whole `Link` frame: parsing the encoded frame yields the
/// `Link` tag and the payload, and parsing that payload yields the message —
/// for every message whose name fits a frame.
pub proof fn lemma_link_message_round_trip(m: LinkView)
    requires
        link_name_ok(m.name),
    ensures
        spec_parse_frame(spec_frame(TransferType::Link, spec_link_payload(m))) == Ok::<
            (TransferType, Seq<u8>),
            CommunicationError,
        >((TransferType::Link, spec_link_payload(m))),
        spec_parse_link(spec_link_payload(m)) == Some(m),
{
    lemma_link_payload_fits(m);
    crate::codec::lemma_frame_round_trip(TransferType::Link, spec_link_payload(m));
    lemma_link_round_trip(m);
}

/// Round trip of a whole `TextMessage` frame, for every contents whose
/// encoding fits a frame.
pub proof fn lemma_text_message_round_trip(s: Seq<char>)
    requires
        encode_utf8(s).len() + 3 <= MAX_PAYLOAD_SIZE,
    ensures
        spec_parse_frame(spec_frame(TransferType::TextMessage, spec_text_payload(s))) == Ok::<
            (TransferType, Seq<u8>),
            CommunicationError,
        >((TransferType::TextMessage, spec_text_payload(s))),
        spec_parse_text(spec_text_payload(s)) == Some(s),
{
    crate::codec::lemma_frame_round_trip(TransferType::TextMessage, spec_text_payload(s));
    lemma_text_round_trip(s);
}

} // verus!
