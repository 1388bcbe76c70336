//! Request/response transport core: message shapes, the pluggable handler
//! capability, and length-prefixed framing for the byte stream. The protocol
//! is strictly half-duplex: one outstanding request per connection, and the
//! read loop discards responses whose correlation id does not match.

use vstd::prelude::*;

use crate::rpc_models::{ClientEncryptionPackage, EncryptedRequestParams, RespondClientChallenge,
    RespondServerChallenge};
use crate::token;

verus! {

/// The method a request addresses. The named variants must match between
/// client and server; anything else is a free-form application method.
pub enum Method {
    StartServerHandshake,
    ClientChallengeResponse,
    EncryptedRequest,
    RequestEncryptionPackage,
    Ping,
    Other(String),
}

/// A request's parameters, already decoded to the payload its method takes.
pub enum Params {
    Null,
    ChallengeResponse(RespondClientChallenge),
    Encrypted(EncryptedRequestParams),
    Raw(Vec<u8>),
}

/// A response's result value.
pub enum ResultValue {
    Null,
    Text(String),
    Bytes(Vec<u8>),
    ServerChallenge(RespondServerChallenge),
    Package(ClientEncryptionPackage),
}

/// The fixed error-kind enumeration carried by error responses.
#[derive(Clone, Copy, PartialEq, Eq, Structural, Debug)]
pub enum RpcErrorCode {
    ParseError,
    InvalidRequest,
    MethodNotFound,
    InvalidParams,
    InternalError,
    ServerError,
}

pub struct RpcError {
    pub message: String,
    pub code: RpcErrorCode,
}

/// A request: immutable once sent; `id` is the correlation token unique per
/// outstanding call.
pub struct Request {
    pub method: Method,
    pub params: Params,
    pub id: String,
}

impl Request {
    /// Builds a request under a fresh random correlation id.
    pub fn new(method: Method, params: Params) -> (r: Request)
        ensures
            r.method == method,
            r.params == params,
            r.id@.len() == 36,
    {
        let id = token::new_token();
        Request { method, params, id }
    }

    pub fn new_with_id(method: Method, params: Params, id: String) -> (r: Request)
        ensures
            r.method == method,
            r.params == params,
            r.id == id,
    {
        Request { method, params, id }
    }
}

/// A response: `id` echoes the request it answers.
pub struct Response {
    pub result: ResultValue,
    pub error: Option<RpcError>,
    pub id: String,
}

impl Response {
    pub fn new(result: ResultValue, error: Option<RpcError>, id: String) -> (r: Response)
        ensures
            r.result == result,
            r.error == error,
            r.id == id,
    {
        Response { result, error, id }
    }
}

/// The capability invoked once per inbound message; implementations route
/// the request and must echo its correlation id.
pub trait Handler {
    fn handle(&mut self, request: Request) -> (r: Response)
        ensures
            r.id@ == request.id@,
    ;
}

/// Whether a parsed response correlates to the outstanding request. The read
/// loop keeps a non-matching response out and continues reading.
pub fn response_matches(resp: &Response, req_id: &String) -> (r: bool)
    ensures
        r == (resp.id@ == req_id@),
{
    resp.id == *req_id
}

/// The length prefix of a frame: four little-endian bytes.
pub open spec fn le32(n: u32) -> Seq<u8> {
    seq![
        (n % 256) as u8,
        ((n / 256) % 256) as u8,
        ((n / 65536) % 256) as u8,
        ((n / 16777216) % 256) as u8,
    ]
}

/// One frame on the stream: a four-byte declared payload length, then the
/// payload. Unlike a self-delimiting text encoding, the receiver never has
/// to guess where a message ends.
pub open spec fn frame_bytes(payload: Seq<u8>) -> Seq<u8> {
    le32(payload.len() as u32) + payload
}

/// The declared length at the head of `buf`, once at least four bytes are
/// present.
pub open spec fn declared_len(buf: Seq<u8>) -> int {
    buf[0] + 256 * buf[1] + 65536 * buf[2] + 16777216 * buf[3]
}

/// Splits the first complete frame off the buffer: `Some((payload, rest))`
/// when the declared payload is fully present, `None` when more bytes are
/// still needed.
pub open spec fn parse_frame(buf: Seq<u8>) -> Option<(Seq<u8>, Seq<u8>)> {
    if buf.len() < 4 {
        None
    } else {
        let n: int = declared_len(buf);
        if buf.len() < 4 + n {
            None
        } else {
            Some((buf.subrange(4, 4 + n), buf.skip(4 + n)))
        }
    }
}

/// Renders one payload as a frame for the stream.
pub fn encode_frame(payload: &[u8]) -> (r: Vec<u8>)
    requires
        payload@.len() < 0x100000000,
    ensures
        r@ == frame_bytes(payload@),
{
    let n = payload.len() as u32;
    let mut r: Vec<u8> = Vec::new();
    r.push((n % 256) as u8);
    r.push(((n / 256) % 256) as u8);
    r.push(((n / 65536) % 256) as u8);
    r.push(((n / 16777216) % 256) as u8);
    r.extend_from_slice(payload);
    proof {
        assert(r@ =~= le32(payload@.len() as u32) + payload@);
    }
    r
}

/// Splits the first complete frame off `buf`, returning the payload and the
/// unread remainder.
pub fn decode_frame(buf: &[u8]) -> (r: Option<(Vec<u8>, Vec<u8>)>)
    ensures
        r matches Some(pr) ==> parse_frame(buf@) == Some((pr.0@, pr.1@)),
        r is None ==> parse_frame(buf@) is None,
{
    if buf.len() < 4 {
        return None;
    }
    let n: usize = (buf[0] as usize) + 256 * (buf[1] as usize) + 65536 * (buf[2] as usize)
        + 16777216 * (buf[3] as usize);
    if buf.len() - 4 < n {
        return None;
    }
    let payload = vstd::slice::slice_to_vec(vstd::slice::slice_subrange(buf, 4, 4 + n));
    let rest = vstd::slice::slice_to_vec(vstd::slice::slice_subrange(buf, 4 + n, buf.len()));
    proof {
        assert(payload@ =~= buf@.subrange(4, 4 + declared_len(buf@)));
        assert(rest@ =~= buf@.skip(4 + declared_len(buf@)));
    }
    Some((payload, rest))
}

/// The little-endian length bytes read back to the length they were written
/// from.
proof fn lemma_le32_value(n: u32)
    ensures
        (n % 256) + 256 * ((n / 256) % 256) + 65536 * ((n / 65536) % 256) + 16777216 * ((n
            / 16777216) % 256) == n,
{
    assert((n % 256) + 256 * ((n / 256) % 256) + 65536 * ((n / 65536) % 256) + 16777216 * ((n
        / 16777216) % 256) == n) by (bit_vector);
}

/// The length bytes at the head of a parsable buffer are exactly the
/// little-endian rendering of the length they declare.
proof fn lemma_le32_inverse(b0: u8, b1: u8, b2: u8, b3: u8)
    ensures
        ({
            let n: u32 = ((b0 as int) + 256 * (b1 as int) + 65536 * (b2 as int) + 16777216 * (
            b3 as int)) as u32;
            n % 256 == b0 as u32 && (n / 256) % 256 == b1 as u32 && (n / 65536) % 256
                == b2 as u32 && (n / 16777216) % 256 == b3 as u32
        }),
{
    let n: u32 = ((b0 as int) + 256 * (b1 as int) + 65536 * (b2 as int) + 16777216 * (
    b3 as int)) as u32;
    assert(n % 256 == b0 as u32 && (n / 256) % 256 == b1 as u32 && (n / 65536) % 256 == b2 as u32
        && (n / 16777216) % 256 == b3 as u32) by (bit_vector)
        requires
            n == (b0 as u32) + 256 * (b1 as u32) + 65536 * (b2 as u32) + 16777216 * (b3 as u32),
    ;
}

/// A parsable buffer is exactly the frame of its payload followed by its
/// remainder.
pub proof fn lemma_parse_frame_inverse(buf: Seq<u8>)
    requires
        parse_frame(buf) is Some,
    ensures
        ({
            let (payload, rest) = parse_frame(buf)->0;
            buf == frame_bytes(payload) + rest && payload.len() < 0x100000000
        }),
{
    let n: int = declared_len(buf);
    lemma_le32_inverse(buf[0], buf[1], buf[2], buf[3]);
    let (payload, rest) = parse_frame(buf)->0;
    assert(payload.len() == n);
    assert(le32(n as u32) =~= buf.take(4));
    assert(buf =~= buf.take(4) + payload + rest);
    assert(frame_bytes(payload) + rest =~= buf.take(4) + payload + rest);
}

/// Framing round trip: a frame followed by any later bytes parses back to
/// exactly its payload, leaving the later bytes unread.
pub proof fn lemma_frame_round_trip(payload: Seq<u8>, rest: Seq<u8>)
    requires
        payload.len() < 0x100000000,
    ensures
        parse_frame(frame_bytes(payload) + rest) == Some((payload, rest)),
{
    let buf = frame_bytes(payload) + rest;
    let n = payload.len() as u32;
    lemma_le32_value(n);
    assert(buf[0] == (n % 256) as u8);
    assert(buf[1] == ((n / 256) % 256) as u8);
    assert(buf[2] == ((n / 65536) % 256) as u8);
    assert(buf[3] == ((n / 16777216) % 256) as u8);
    assert(declared_len(buf) == payload.len());
    assert(buf.subrange(4, 4 + payload.len() as int) =~= payload);
    assert(buf.skip(4 + payload.len() as int) =~= rest);
}

/// One step of the receive loop: append the bytes just read, then split off
/// the first complete frame if one is now present. The remainder stays in
/// the buffer for the next read.
pub fn accept_bytes(buf: &mut Vec<u8>, chunk: &[u8]) -> (r: Option<Vec<u8>>)
    ensures
        ({
            let combined = old(buf)@ + chunk@;
            match parse_frame(combined) {
                Some((payload, rest)) => r matches Some(p) && p@ == payload && final(buf)@
                    == rest,
                None => r is None && final(buf)@ == combined,
            }
        }),
{
    buf.extend_from_slice(chunk);
    match decode_frame(buf.as_slice()) {
        Some((payload, rest)) => {
            *buf = rest;
            Some(payload)
        },
        None => None,
    }
}

} // verus!
