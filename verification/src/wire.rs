//! Byte encoding of the inner messages that travel inside an encrypted
//! envelope: a request as its method name and correlation id, a response as
//! its id, error and result. Every part is length-prefixed with the same
//! framing the stream uses, so the decoders reject trailing garbage exactly.

use vstd::prelude::*;
use vstd::string::StrSliceExecFns;
use vstd::utf8::{decode_utf8, encode_utf8, valid_utf8};

use crate::errors::CryptoError;
use crate::rpc::{decode_frame, encode_frame, frame_bytes, parse_frame, Method, Params, Request,
    Response, ResultValue, RpcError, RpcErrorCode};
use crate::rpc_models::{b64_open, ClientEncryptionPackage};

verus! {

/// The wire name of each method.
pub open spec fn method_name_spec(m: Method) -> Seq<char> {
    match m {
        Method::StartServerHandshake => "start_server_handshake"@,
        Method::ClientChallengeResponse => "client_challenge_response"@,
        Method::EncryptedRequest => "encrypted_request"@,
        Method::RequestEncryptionPackage => "request_encryption_package"@,
        Method::Ping => "ping"@,
        Method::Other(s) => s@,
    }
}

/// The names the named variants own; any other name is a free-form
/// application method.
pub open spec fn is_reserved_name(s: Seq<char>) -> bool {
    ||| s == "start_server_handshake"@
    ||| s == "client_challenge_response"@
    ||| s == "encrypted_request"@
    ||| s == "request_encryption_package"@
    ||| s == "ping"@
}

pub fn method_name(m: &Method) -> (r: String)
    ensures
        r@ == method_name_spec(*m),
{
    match m {
        Method::StartServerHandshake => "start_server_handshake".to_owned(),
        Method::ClientChallengeResponse => "client_challenge_response".to_owned(),
        Method::EncryptedRequest => "encrypted_request".to_owned(),
        Method::RequestEncryptionPackage => "request_encryption_package".to_owned(),
        Method::Ping => "ping".to_owned(),
        Method::Other(s) => s.clone(),
    }
}

pub fn method_from_name(s: String) -> (r: Method)
    ensures
        method_name_spec(r) == s@,
        r is Other <==> !is_reserved_name(s@),
{
    if s == "start_server_handshake".to_owned() {
        Method::StartServerHandshake
    } else if s == "client_challenge_response".to_owned() {
        Method::ClientChallengeResponse
    } else if s == "encrypted_request".to_owned() {
        Method::EncryptedRequest
    } else if s == "request_encryption_package".to_owned() {
        Method::RequestEncryptionPackage
    } else if s == "ping".to_owned() {
        Method::Ping
    } else {
        Method::Other(s)
    }
}

/// Relies on String::from_utf8: succeeds exactly on valid UTF-8, returning
/// its decoding.
#[verifier::external_body]
fn string_from_utf8(v: Vec<u8>) -> (r: Result<String, CryptoError>)
    ensures
        r matches Ok(s) ==> valid_utf8(v@) && s@ == decode_utf8(v@),
        r is Err <==> !valid_utf8(v@),
{
    String::from_utf8(v).map_err(|_| CryptoError::DecodeFailure)
}

/// The raw params block of an inner request: empty for no parameters, the
/// caller's bytes for a free-form application method. The typed handshake
/// payloads never travel inside an encrypted envelope.
pub open spec fn params_block_of(p: Params) -> Option<Seq<u8>> {
    match p {
        Params::Null => Some(Seq::empty()),
        Params::Raw(b) => Some(b@),
        _ => None,
    }
}

/// An inner request on the wire: its method name, its id and its params
/// block, each framed.
pub open spec fn inner_request_bytes(name: Seq<char>, id: Seq<char>, params: Seq<u8>) -> Seq<u8> {
    frame_bytes(encode_utf8(name)) + frame_bytes(encode_utf8(id)) + frame_bytes(params)
}

/// Splits and decodes an inner request; rejects trailing bytes and text that
/// is not UTF-8.
pub open spec fn parse_inner_request(bytes: Seq<u8>) -> Option<(Seq<char>, Seq<char>, Seq<u8>)> {
    match parse_frame(bytes) {
        Some((nb, rest)) => match parse_frame(rest) {
            Some((ib, rest2)) => match parse_frame(rest2) {
                Some((pb, tail)) => if tail.len() == 0 && valid_utf8(nb) && valid_utf8(ib) {
                    Some((decode_utf8(nb), decode_utf8(ib), pb))
                } else {
                    None
                },
                None => None,
            },
            None => None,
        },
        None => None,
    }
}

pub fn encode_inner_request(req: &Request) -> (r: Result<Vec<u8>, CryptoError>)
    ensures
        r matches Ok(v) ==> (params_block_of(req.params) matches Some(pb) && v@
            == inner_request_bytes(method_name_spec(req.method), req.id@, pb)),
        r is Err ==> params_block_of(req.params) is None || encode_utf8(
            method_name_spec(req.method),
        ).len() >= 0x100000000 || encode_utf8(req.id@).len() >= 0x100000000 || params_block_of(
            req.params,
        )->0.len() >= 0x100000000,
{
    let name = method_name(&req.method);
    let nb = name.as_str().as_bytes_vec();
    if nb.len() as u64 >= 0x100000000u64 {
        return Err(CryptoError::DecodeFailure);
    }
    let ib = req.id.as_str().as_bytes_vec();
    if ib.len() as u64 >= 0x100000000u64 {
        return Err(CryptoError::DecodeFailure);
    }
    let pb: Vec<u8> = match &req.params {
        Params::Null => Vec::new(),
        Params::Raw(b) => vstd::slice::slice_to_vec(b.as_slice()),
        _ => {
            return Err(CryptoError::DecodeFailure);
        },
    };
    if pb.len() as u64 >= 0x100000000u64 {
        return Err(CryptoError::DecodeFailure);
    }
    let mut out = encode_frame(nb.as_slice());
    let idf = encode_frame(ib.as_slice());
    out.extend_from_slice(idf.as_slice());
    let pf = encode_frame(pb.as_slice());
    out.extend_from_slice(pf.as_slice());
    proof {
        assert(out@ =~= inner_request_bytes(method_name_spec(req.method), req.id@, pb@));
    }
    Ok(out)
}

pub fn decode_inner_request(bytes: &[u8]) -> (r: Result<Request, CryptoError>)
    ensures
        r is Err <==> parse_inner_request(bytes@) is None,
        r matches Ok(req) ==> (parse_inner_request(bytes@) matches Some((name, id, pb))
            && method_name_spec(req.method) == name && (req.method is Other <==> !is_reserved_name(
            name,
        )) && req.id@ == id && params_block_of(req.params) == Some(pb) && (req.params is Null
            <==> pb.len() == 0)),
{
    let (nb, rest) = match decode_frame(bytes) {
        Some(p) => p,
        None => {
            return Err(CryptoError::DecodeFailure);
        },
    };
    let (ib, rest2) = match decode_frame(rest.as_slice()) {
        Some(p) => p,
        None => {
            return Err(CryptoError::DecodeFailure);
        },
    };
    let (pb, tail) = match decode_frame(rest2.as_slice()) {
        Some(p) => p,
        None => {
            return Err(CryptoError::DecodeFailure);
        },
    };
    if tail.len() != 0 {
        return Err(CryptoError::DecodeFailure);
    }
    let name = string_from_utf8(nb)?;
    let id = string_from_utf8(ib)?;
    let method = method_from_name(name);
    let params = if pb.len() == 0 {
        Params::Null
    } else {
        Params::Raw(pb)
    };
    Ok(Request::new_with_id(method, params, id))
}

/// The byte that names each error kind on the wire.
pub open spec fn code_byte(c: RpcErrorCode) -> u8 {
    match c {
        RpcErrorCode::ParseError => 1u8,
        RpcErrorCode::InvalidRequest => 2u8,
        RpcErrorCode::MethodNotFound => 3u8,
        RpcErrorCode::InvalidParams => 4u8,
        RpcErrorCode::InternalError => 5u8,
        RpcErrorCode::ServerError => 6u8,
    }
}

pub open spec fn code_of_byte(b: u8) -> Option<RpcErrorCode> {
    if b == 1 {
        Some(RpcErrorCode::ParseError)
    } else if b == 2 {
        Some(RpcErrorCode::InvalidRequest)
    } else if b == 3 {
        Some(RpcErrorCode::MethodNotFound)
    } else if b == 4 {
        Some(RpcErrorCode::InvalidParams)
    } else if b == 5 {
        Some(RpcErrorCode::InternalError)
    } else if b == 6 {
        Some(RpcErrorCode::ServerError)
    } else {
        None
    }
}

pub fn error_code_byte(c: &RpcErrorCode) -> (r: u8)
    ensures
        r == code_byte(*c),
{
    match c {
        RpcErrorCode::ParseError => 1,
        RpcErrorCode::InvalidRequest => 2,
        RpcErrorCode::MethodNotFound => 3,
        RpcErrorCode::InvalidParams => 4,
        RpcErrorCode::InternalError => 5,
        RpcErrorCode::ServerError => 6,
    }
}

pub fn error_code_from_byte(b: u8) -> (r: Option<RpcErrorCode>)
    ensures
        r == code_of_byte(b),
{
    if b == 1 {
        Some(RpcErrorCode::ParseError)
    } else if b == 2 {
        Some(RpcErrorCode::InvalidRequest)
    } else if b == 3 {
        Some(RpcErrorCode::MethodNotFound)
    } else if b == 4 {
        Some(RpcErrorCode::InvalidParams)
    } else if b == 5 {
        Some(RpcErrorCode::InternalError)
    } else if b == 6 {
        Some(RpcErrorCode::ServerError)
    } else {
        None
    }
}

/// The error block of a response: empty when there is no error, else the
/// code byte followed by the message.
pub open spec fn err_block_of(e: Option<RpcError>) -> Seq<u8> {
    match e {
        None => Seq::empty(),
        Some(err) => seq![code_byte(err.code)] + encode_utf8(err.message@),
    }
}

pub open spec fn valid_err_block(eb: Seq<u8>) -> bool {
    eb.len() == 0 || (code_of_byte(eb[0]) is Some && valid_utf8(eb.skip(1)))
}

/// The two framed package texts inside a package result block.
pub open spec fn package_texts(b: Seq<u8>) -> Option<(Seq<char>, Seq<char>)> {
    match parse_frame(b) {
        Some((nt, rest)) => match parse_frame(rest) {
            Some((kt, tail)) => if tail.len() == 0 && valid_utf8(nt) && valid_utf8(kt) && b64_open(
                decode_utf8(nt),
            ) is Some && b64_open(decode_utf8(kt)) is Some {
                Some((decode_utf8(nt), decode_utf8(kt)))
            } else {
                None
            },
            None => None,
        },
        None => None,
    }
}

/// The result block of a response: a tag byte, then the value. Only the
/// result shapes that inner responses carry have a rendering.
pub open spec fn result_block_of(r: ResultValue) -> Option<Seq<u8>> {
    match r {
        ResultValue::Null => Some(seq![0u8]),
        ResultValue::Text(t) => Some(seq![1u8] + encode_utf8(t@)),
        ResultValue::Package(p) => Some(
            seq![2u8] + frame_bytes(encode_utf8(p.nonce_text())) + frame_bytes(
                encode_utf8(p.key_text()),
            ),
        ),
        _ => None,
    }
}

pub open spec fn valid_result_block(rb: Seq<u8>) -> bool {
    rb.len() >= 1 && ((rb[0] == 0 && rb.len() == 1) || (rb[0] == 1 && valid_utf8(rb.skip(1))) || (
    rb[0] == 2 && package_texts(rb.skip(1)) is Some))
}

/// An inner response on the wire: id, error block and result block, each
/// framed.
pub open spec fn inner_response_bytes(id: Seq<char>, eb: Seq<u8>, rb: Seq<u8>) -> Seq<u8> {
    frame_bytes(encode_utf8(id)) + frame_bytes(eb) + frame_bytes(rb)
}

/// Splits an inner response into its validated blocks; rejects trailing
/// bytes, text that is not UTF-8, an unknown error code or result tag, and
/// package texts that are not base64.
pub open spec fn response_blocks(bytes: Seq<u8>) -> Option<(Seq<char>, Seq<u8>, Seq<u8>)> {
    match parse_frame(bytes) {
        Some((idb, r1)) => match parse_frame(r1) {
            Some((eb, r2)) => match parse_frame(r2) {
                Some((rb, tail)) => if tail.len() == 0 && valid_utf8(idb) && valid_err_block(eb)
                    && valid_result_block(rb) {
                    Some((decode_utf8(idb), eb, rb))
                } else {
                    None
                },
                None => None,
            },
            None => None,
        },
        None => None,
    }
}

pub fn encode_inner_response(resp: &Response) -> (r: Result<Vec<u8>, CryptoError>)
    ensures
        r matches Ok(v) ==> (result_block_of(resp.result) matches Some(rb) && v@
            == inner_response_bytes(resp.id@, err_block_of(resp.error), rb)),
        r matches Ok(v) ==> encode_utf8(resp.id@).len() < 0x100000000 && err_block_of(
            resp.error,
        ).len() < 0x100000000 && result_block_of(resp.result)->0.len() < 0x100000000,
        r is Err ==> result_block_of(resp.result) is None || encode_utf8(resp.id@).len()
            >= 0x100000000 || err_block_of(resp.error).len() >= 0x100000000 || result_block_of(
            resp.result,
        )->0.len() >= 0x100000000,
{
    let idb = resp.id.as_str().as_bytes_vec();
    if idb.len() as u64 >= 0x100000000u64 {
        return Err(CryptoError::DecodeFailure);
    }
    let mut eb: Vec<u8> = Vec::new();
    match &resp.error {
        None => {
            proof {
                assert(eb@ =~= err_block_of(resp.error));
            }
        },
        Some(e) => {
            eb.push(error_code_byte(&e.code));
            let mb = e.message.as_str().as_bytes_vec();
            eb.extend_from_slice(mb.as_slice());
            proof {
                assert(eb@ =~= err_block_of(resp.error));
            }
        },
    }
    if eb.len() as u64 >= 0x100000000u64 {
        return Err(CryptoError::DecodeFailure);
    }
    let mut rb: Vec<u8> = Vec::new();
    match &resp.result {
        ResultValue::Null => {
            rb.push(0);
            proof {
                assert(rb@ =~= result_block_of(resp.result)->0);
            }
        },
        ResultValue::Text(t) => {
            rb.push(1);
            let tb = t.as_str().as_bytes_vec();
            rb.extend_from_slice(tb.as_slice());
            proof {
                assert(rb@ =~= result_block_of(resp.result)->0);
            }
        },
        ResultValue::Package(p) => {
            rb.push(2);
            let texts = p.encoded();
            let ntb = texts.0.as_str().as_bytes_vec();
            if ntb.len() as u64 >= 0x100000000u64 {
                return Err(CryptoError::DecodeFailure);
            }
            let ktb = texts.1.as_str().as_bytes_vec();
            if ktb.len() as u64 >= 0x100000000u64 {
                return Err(CryptoError::DecodeFailure);
            }
            let f1 = encode_frame(ntb.as_slice());
            rb.extend_from_slice(f1.as_slice());
            let f2 = encode_frame(ktb.as_slice());
            rb.extend_from_slice(f2.as_slice());
            proof {
                assert(rb@ =~= result_block_of(resp.result)->0);
            }
        },
        _ => {
            return Err(CryptoError::DecodeFailure);
        },
    }
    if rb.len() as u64 >= 0x100000000u64 {
        return Err(CryptoError::DecodeFailure);
    }
    let mut out = encode_frame(idb.as_slice());
    let f_eb = encode_frame(eb.as_slice());
    out.extend_from_slice(f_eb.as_slice());
    let f_rb = encode_frame(rb.as_slice());
    out.extend_from_slice(f_rb.as_slice());
    proof {
        assert(out@ =~= inner_response_bytes(resp.id@, err_block_of(resp.error), rb@));
    }
    Ok(out)
}

#[verifier::rlimit(100)]
pub fn decode_inner_response(bytes: &[u8]) -> (r: Result<Response, CryptoError>)
    ensures
        r is Err <==> response_blocks(bytes@) is None,
        r matches Ok(resp) ==> (response_blocks(bytes@) matches Some((id, eb, rb)) && resp.id@
            == id && err_block_of(resp.error) == eb && result_block_of(resp.result) == Some(rb)),
{
    let (idb, r1) = match decode_frame(bytes) {
        Some(p) => p,
        None => {
            return Err(CryptoError::DecodeFailure);
        },
    };
    let (eb, r2) = match decode_frame(r1.as_slice()) {
        Some(p) => p,
        None => {
            return Err(CryptoError::DecodeFailure);
        },
    };
    let (rb, tail) = match decode_frame(r2.as_slice()) {
        Some(p) => p,
        None => {
            return Err(CryptoError::DecodeFailure);
        },
    };
    if tail.len() != 0 {
        return Err(CryptoError::DecodeFailure);
    }
    let id = string_from_utf8(idb)?;
    let error: Option<RpcError> = if eb.len() == 0 {
        None
    } else {
        let code = match error_code_from_byte(eb[0]) {
            Some(c) => c,
            None => {
                return Err(CryptoError::DecodeFailure);
            },
        };
        let mb = vstd::slice::slice_to_vec(
            vstd::slice::slice_subrange(eb.as_slice(), 1, eb.len()),
        );
        let msg = string_from_utf8(mb)?;
        proof {
            broadcast use vstd::utf8::decode_utf8_encode_utf8;

            assert(eb@ =~= seq![code_byte(code)] + encode_utf8(msg@));
        }
        Some(RpcError { message: msg, code })
    };
    if rb.len() == 0 {
        return Err(CryptoError::DecodeFailure);
    }
    let tag: u8 = rb[0];
    let result: ResultValue = if tag == 0 {
        if rb.len() != 1 {
            return Err(CryptoError::DecodeFailure);
        }
        proof {
            assert(rb@ =~= seq![0u8]);
        }
        ResultValue::Null
    } else if tag == 1 {
        let tb = vstd::slice::slice_to_vec(
            vstd::slice::slice_subrange(rb.as_slice(), 1, rb.len()),
        );
        let t = string_from_utf8(tb)?;
        proof {
            broadcast use vstd::utf8::decode_utf8_encode_utf8;

            assert(rb@ =~= seq![1u8] + encode_utf8(t@));
        }
        ResultValue::Text(t)
    } else if tag == 2 {
        let body = vstd::slice::slice_to_vec(
            vstd::slice::slice_subrange(rb.as_slice(), 1, rb.len()),
        );
        let (ntb, pr) = match decode_frame(body.as_slice()) {
            Some(p) => p,
            None => {
                return Err(CryptoError::DecodeFailure);
            },
        };
        let (ktb, ptail) = match decode_frame(pr.as_slice()) {
            Some(p) => p,
            None => {
                return Err(CryptoError::DecodeFailure);
            },
        };
        if ptail.len() != 0 {
            return Err(CryptoError::DecodeFailure);
        }
        let nt = string_from_utf8(ntb)?;
        let kt = string_from_utf8(ktb)?;
        let package = match ClientEncryptionPackage::from_encoded(nt, kt) {
            Ok(p) => p,
            Err(_) => {
                return Err(CryptoError::DecodeFailure);
            },
        };
        proof {
            crate::rpc::lemma_parse_frame_inverse(body@);
            crate::rpc::lemma_parse_frame_inverse(pr@);
            broadcast use vstd::utf8::decode_utf8_encode_utf8;

            assert(rb@ =~= seq![2u8] + body@);
            assert(body@ =~= frame_bytes(encode_utf8(package.nonce_text())) + frame_bytes(
                encode_utf8(package.key_text()),
            ));
        }
        ResultValue::Package(package)
    } else {
        return Err(CryptoError::DecodeFailure);
    };
    proof {
        broadcast use vstd::utf8::decode_utf8_encode_utf8;

    }
    Ok(Response::new(result, error, id))
}

/// Every error block the encoder writes is one the decoder accepts.
pub proof fn lemma_err_block_valid(e: Option<RpcError>)
    ensures
        valid_err_block(err_block_of(e)),
{
    broadcast use vstd::utf8::encode_utf8_valid_utf8;

    match e {
        None => {},
        Some(err) => {
            assert(err_block_of(e)[0] == code_byte(err.code));
            assert(err_block_of(e).skip(1) =~= encode_utf8(err.message@));
        },
    }
}

/// The null result block is one the decoder accepts.
pub proof fn lemma_null_block_valid()
    ensures
        valid_result_block(seq![0u8]),
{
}

/// Every text result block the encoder writes is one the decoder accepts.
pub proof fn lemma_text_block_valid(t: Seq<char>)
    ensures
        valid_result_block(seq![1u8] + encode_utf8(t)),
{
    broadcast use vstd::utf8::encode_utf8_valid_utf8;

    assert((seq![1u8] + encode_utf8(t)).skip(1) =~= encode_utf8(t));
}

/// Every package result block the encoder writes from decodable texts is one
/// the decoder accepts.
pub proof fn lemma_package_block_valid(nt: Seq<char>, kt: Seq<char>)
    requires
        b64_open(nt) is Some,
        b64_open(kt) is Some,
        encode_utf8(nt).len() < 0x100000000,
        encode_utf8(kt).len() < 0x100000000,
    ensures
        valid_result_block(
            seq![2u8] + frame_bytes(encode_utf8(nt)) + frame_bytes(encode_utf8(kt)),
        ),
{
    broadcast use vstd::utf8::encode_utf8_valid_utf8, vstd::utf8::encode_utf8_decode_utf8;

    let rb = seq![2u8] + frame_bytes(encode_utf8(nt)) + frame_bytes(encode_utf8(kt));
    assert(rb.skip(1) =~= frame_bytes(encode_utf8(nt)) + frame_bytes(encode_utf8(kt)));
    crate::rpc::lemma_frame_round_trip(encode_utf8(nt), frame_bytes(encode_utf8(kt)));
    crate::rpc::lemma_frame_round_trip(encode_utf8(kt), Seq::empty());
    assert(frame_bytes(encode_utf8(kt)) + Seq::<u8>::empty() =~= frame_bytes(encode_utf8(kt)));
}

/// Every response the encoder accepts renders to blocks the decoder accepts,
/// provided a package result carries decodable texts.
pub proof fn lemma_response_blocks_valid(resp: Response)
    requires
        resp.result matches ResultValue::Package(p) ==> b64_open(p.nonce_text()) is Some
            && b64_open(p.key_text()) is Some,
        result_block_of(resp.result) matches Some(rb) && rb.len() < 0x100000000,
    ensures
        valid_err_block(err_block_of(resp.error)),
        valid_result_block(result_block_of(resp.result)->0),
{
    lemma_err_block_valid(resp.error);
    match resp.result {
        ResultValue::Null => {
            lemma_null_block_valid();
        },
        ResultValue::Text(t) => {
            lemma_text_block_valid(t@);
        },
        ResultValue::Package(p) => {
            let nt = p.nonce_text();
            let kt = p.key_text();
            let rb = result_block_of(resp.result)->0;
            assert(rb.len() == 1 + (4 + encode_utf8(nt).len()) + (4 + encode_utf8(kt).len()));
            lemma_package_block_valid(nt, kt);
        },
        _ => {},
    }
}

/// Codec round trip: an encoded inner response splits back into exactly its
/// id, error block and result block.
pub proof fn lemma_inner_response_round_trip(id: Seq<char>, eb: Seq<u8>, rb: Seq<u8>)
    requires
        valid_err_block(eb),
        valid_result_block(rb),
        encode_utf8(id).len() < 0x100000000,
        eb.len() < 0x100000000,
        rb.len() < 0x100000000,
    ensures
        response_blocks(inner_response_bytes(id, eb, rb)) == Some((id, eb, rb)),
{
    broadcast use vstd::utf8::encode_utf8_valid_utf8, vstd::utf8::encode_utf8_decode_utf8;

    crate::rpc::lemma_frame_round_trip(
        encode_utf8(id),
        frame_bytes(eb) + frame_bytes(rb),
    );
    assert(inner_response_bytes(id, eb, rb) =~= frame_bytes(encode_utf8(id)) + (frame_bytes(eb)
        + frame_bytes(rb)));
    crate::rpc::lemma_frame_round_trip(eb, frame_bytes(rb));
    crate::rpc::lemma_frame_round_trip(rb, Seq::empty());
    assert(frame_bytes(rb) + Seq::<u8>::empty() =~= frame_bytes(rb));
}

/// Codec round trip: an encoded inner request parses back to exactly its
/// method name, id and params block.
pub proof fn lemma_inner_request_round_trip(name: Seq<char>, id: Seq<char>, params: Seq<u8>)
    requires
        encode_utf8(name).len() < 0x100000000,
        encode_utf8(id).len() < 0x100000000,
        params.len() < 0x100000000,
    ensures
        parse_inner_request(inner_request_bytes(name, id, params)) == Some((name, id, params)),
{
    broadcast use vstd::utf8::encode_utf8_valid_utf8, vstd::utf8::encode_utf8_decode_utf8;

    crate::rpc::lemma_frame_round_trip(
        encode_utf8(name),
        frame_bytes(encode_utf8(id)) + frame_bytes(params),
    );
    assert(inner_request_bytes(name, id, params) =~= frame_bytes(encode_utf8(name)) + (
    frame_bytes(encode_utf8(id)) + frame_bytes(params)));
    crate::rpc::lemma_frame_round_trip(encode_utf8(id), frame_bytes(params));
    crate::rpc::lemma_frame_round_trip(params, Seq::empty());
    assert(frame_bytes(params) + Seq::<u8>::empty() =~= frame_bytes(params));
}

} // verus!
