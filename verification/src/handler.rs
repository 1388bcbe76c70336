//! Server side of the mutual-authentication handshake, and the envelope
//! operations of an authenticated connection. One `ServerHandler` exists per
//! accepted connection and holds that connection's `PendingChallenge` and
//! `SessionKeyMaterial`; they never leak to other connections.

use vstd::prelude::*;

use crate::errors::CryptoError;
use crate::models::EncryptionConfiguration;
use crate::pki;
use crate::rpc::{Method, Params, Request, Response, ResultValue, RpcError, RpcErrorCode};
use crate::rpc_models::{ClientEncryptionPackage, EncryptedRequestParams, EncryptionType,
    RespondServerChallenge};
use crate::ski;
use crate::token;

verus! {

/// The handshake-relevant state of one connection, as the contracts speak of
/// it: the pending challenge, the session material, and whether the client's
/// public key has been learned.
pub struct ServerView {
    pub pending: Option<Seq<char>>,
    pub session: Option<(Seq<u8>, Seq<u8>)>,
    pub has_client_key: bool,
}

/// Step one of the handshake: issuing a fresh challenge stores it as the
/// connection's pending challenge and touches nothing else.
pub open spec fn start_handshake_model(s: ServerView, challenge: Seq<char>) -> ServerView {
    ServerView { pending: Some(challenge), ..s }
}

/// Step three of the handshake. The pending challenge is consumed by the
/// attempt whatever its outcome. Only a verified signature (`ok`) while a
/// challenge was pending authenticates the client; then a fresh session
/// `(key, nonce)` is recorded together with the client's public key. The
/// second component says whether the client was authenticated.
pub open spec fn challenge_response_model(
    s: ServerView,
    ok: bool,
    key: Seq<u8>,
    nonce: Seq<u8>,
) -> (ServerView, bool) {
    if s.pending is None || !ok {
        (ServerView { pending: None, ..s }, false)
    } else {
        (
            ServerView { pending: None, session: Some((key, nonce)), has_client_key: true },
            true,
        )
    }
}

/// The error and result blocks of the reply to a decrypted inner request,
/// as the method name and the connection's session determine them: `ping`
/// answers `"pong"`, `request_encryption_package` answers the session
/// package, anything else is `MethodNotFound`.
pub open spec fn inner_reply_blocks(session: Option<(Seq<u8>, Seq<u8>)>, name: Seq<char>) -> (
    Seq<u8>,
    Seq<u8>,
) {
    if name == "ping"@ {
        (Seq::empty(), seq![1u8] + vstd::utf8::encode_utf8("pong"@))
    } else if name == "request_encryption_package"@ {
        match session {
            Some((key, nonce)) => (
                Seq::empty(),
                seq![2u8] + crate::rpc::frame_bytes(
                    vstd::utf8::encode_utf8(crate::rpc_models::b64_text(nonce)),
                ) + crate::rpc::frame_bytes(
                    vstd::utf8::encode_utf8(crate::rpc_models::b64_text(key)),
                ),
            ),
            None => (
                seq![crate::wire::code_byte(RpcErrorCode::InvalidRequest)] + vstd::utf8::encode_utf8(
                    "Encryption not initialized"@,
                ),
                seq![0u8],
            ),
        }
    } else {
        (
            seq![crate::wire::code_byte(RpcErrorCode::MethodNotFound)] + vstd::utf8::encode_utf8(
                "Invalid rpc method"@,
            ),
            seq![0u8],
        )
    }
}

/// The reply's error, read off a handler's result: a handler error becomes
/// an error response.
pub open spec fn reply_error_of(r: Result<Response, RpcError>) -> Option<RpcError> {
    match r {
        Ok(resp) => resp.error,
        Err(e) => Some(e),
    }
}

/// The reply's result value, read off a handler's result: a handler error
/// becomes a null result.
pub open spec fn reply_result_of(r: Result<Response, RpcError>) -> ResultValue {
    match r {
        Ok(resp) => resp.result,
        Err(_) => ResultValue::Null,
    }
}

/// The exact symmetric reply to an encrypted request. When the connection is
/// authenticated and the symmetric envelope opens, a reply that parses as an
/// inner request is answered — within the codec's size bounds — with no
/// error and exactly the session encryption of the inner response that the
/// inner request's method and id determine; an envelope or parse failure is
/// answered with an error.
pub open spec fn symmetric_reply_exact(
    s: ServerView,
    request: Request,
    err: Option<RpcError>,
    result: ResultValue,
) -> bool {
    s.session matches Some((key, nonce)) ==> (request.params matches Params::Encrypted(p) ==> ((
    request.method is EncryptedRequest && s.has_client_key && p.enc_type is AesGcm && nonce.len()
        == 12) ==> (match ski::decrypt_model(p.data@, key, nonce) {
        Ok(pt) => (match crate::wire::parse_inner_request(pt) {
            Some((name, iid, pb)) => ({
                let blocks = inner_reply_blocks(Some((key, nonce)), name);
                (vstd::utf8::encode_utf8(iid).len() < 0x100000000 && blocks.0.len() < 0x100000000
                    && blocks.1.len() < 0x100000000) ==> (err is None && (
                result matches ResultValue::Bytes(ct) && ct@ == ski::seal_model(
                    key,
                    nonce,
                    crate::wire::inner_response_bytes(iid, blocks.0, blocks.1),
                )))
            }),
            None => err is Some,
        }),
        Err(_) => err is Some,
    })))
}

/// The five reserved method names are pairwise distinct (their lengths
/// differ).
proof fn lemma_method_names_distinct()
    ensures
        "ping"@ != "start_server_handshake"@,
        "ping"@ != "client_challenge_response"@,
        "ping"@ != "encrypted_request"@,
        "ping"@ != "request_encryption_package"@,
        "request_encryption_package"@ != "start_server_handshake"@,
        "request_encryption_package"@ != "client_challenge_response"@,
        "request_encryption_package"@ != "encrypted_request"@,
{
    broadcast use vstd::string::group_string_axioms;

    reveal_strlit("ping");
    reveal_strlit("start_server_handshake");
    reveal_strlit("client_challenge_response");
    reveal_strlit("encrypted_request");
    reveal_strlit("request_encryption_package");
    assert("ping"@.len() == 4);
    assert("start_server_handshake"@.len() == 22);
    assert("client_challenge_response"@.len() == 25);
    assert("encrypted_request"@.len() == 17);
    assert("request_encryption_package"@.len() == 26);
}

/// Per-connection handler context: the server's identity key plus this
/// connection's handshake and session state.
pub struct ServerHandler {
    pub private_key: rsa::RsaPrivateKey,
    pub encryption: Option<EncryptionConfiguration>,
    pub client_pub_key: Option<rsa::RsaPublicKey>,
    pub pending_challenge: Option<String>,
}

impl View for ServerHandler {
    type V = ServerView;

    open spec fn view(&self) -> ServerView {
        ServerView {
            pending: match self.pending_challenge {
                Some(c) => Some(c@),
                None => None,
            },
            session: match self.encryption {
                Some(e) => Some((e.shared_key@, e.nonce@)),
                None => None,
            },
            has_client_key: self.client_pub_key is Some,
        }
    }
}

impl ServerHandler {
    /// A session's nonce is always the cipher's 12 bytes.
    pub open spec fn wf(&self) -> bool {
        self@.session matches Some((key, nonce)) ==> nonce.len() == 12
    }

    pub fn new(private_key: rsa::RsaPrivateKey) -> (r: ServerHandler)
        ensures
            r@.pending is None,
            r@.session is None,
            !r@.has_client_key,
            r.wf(),
    {
        ServerHandler {
            private_key,
            encryption: None,
            client_pub_key: None,
            pending_challenge: None,
        }
    }

    /// Step one: on `start_server_handshake`, generate a random single-use
    /// challenge token, store it as this connection's pending challenge, and
    /// reply with the token.
    pub fn handle_start_server_handshake(&mut self, request: Request) -> (r: Result<
        Response,
        RpcError,
    >)
        ensures
            old(self).wf() ==> final(self).wf(),
            !(request.method is StartServerHandshake) ==> r is Err && final(self)@ == old(self)@,
            request.method is StartServerHandshake ==> (r matches Ok(resp) && resp.error is None
                && resp.id@ == request.id@ && (resp.result matches ResultValue::Text(c) && c@.len()
                == 36 && final(self)@ == start_handshake_model(old(self)@, c@))),
    {
        match request.method {
            Method::StartServerHandshake => {
                let challenge = token::new_token();
                let reply = challenge.clone();
                self.pending_challenge = Some(challenge);
                Ok(Response::new(ResultValue::Text(reply), None, request.id))
            },
            _ => Err(
                RpcError {
                    message: "Invalid method".to_owned(),
                    code: RpcErrorCode::MethodNotFound,
                },
            ),
        }
    }

    /// Step three: verify the client's signature over the pending challenge.
    /// The attempt consumes the pending challenge regardless of success. On
    /// success, record fresh session material and the client's key, and reply
    /// with this server's public key and its signature over the client's
    /// counter-challenge.
    pub fn handle_challenge_response(&mut self, request: Request) -> (r: Result<
        Response,
        RpcError,
    >)
        ensures
            old(self).wf() ==> final(self).wf(),
            !(request.method is ClientChallengeResponse && request.params is ChallengeResponse)
                ==> r is Err && final(self)@ == old(self)@,
            (request.method is ClientChallengeResponse && request.params is ChallengeResponse)
                ==> final(self)@.pending is None,
            r matches Ok(resp) ==> request.method is ClientChallengeResponse
                && request.params is ChallengeResponse && old(self)@.pending is Some && (exists|
                key: Seq<u8>,
                nonce: Seq<u8>,
            |
                key.len() == 32 && nonce.len() == 12 && final(self)@ == challenge_response_model(
                    old(self)@,
                    true,
                    key,
                    nonce,
                ).0) && resp.error is None && resp.id@ == request.id@
                && resp.result is ServerChallenge,
            (request.method is ClientChallengeResponse && request.params is ChallengeResponse && r
                is Err) ==> final(self)@ == challenge_response_model(
                old(self)@,
                false,
                Seq::empty(),
                Seq::empty(),
            ).0,
    {
        let Request { method, params, id } = request;
        match method {
            Method::ClientChallengeResponse => {},
            _ => {
                return Err(
                    RpcError {
                        message: "Invalid method".to_owned(),
                        code: RpcErrorCode::MethodNotFound,
                    },
                );
            },
        }
        let presented = match params {
            Params::ChallengeResponse(p) => p,
            _ => {
                return Err(
                    RpcError {
                        message: "Invalid params".to_owned(),
                        code: RpcErrorCode::InvalidParams,
                    },
                );
            },
        };
        let challenge = match &self.pending_challenge {
            Some(c) => c.clone(),
            None => {
                return Err(
                    RpcError {
                        message: "No pending challenge".to_owned(),
                        code: RpcErrorCode::InvalidRequest,
                    },
                );
            },
        };
        // The attempt consumes the challenge whatever happens next.
        self.pending_challenge = None;
        let sig = match pki::signature_from_bytes(presented.signiture.as_slice()) {
            Ok(s) => s,
            Err(_) => {
                return Err(
                    RpcError {
                        message: "Invalid signature".to_owned(),
                        code: RpcErrorCode::InvalidRequest,
                    },
                );
            },
        };
        let ok = pki::verify_signature(&presented.pub_key, challenge.as_str().as_bytes(), &sig);
        if !ok {
            return Err(
                RpcError {
                    message: "Invalid signature".to_owned(),
                    code: RpcErrorCode::InvalidRequest,
                },
            );
        }
        // Sign the counter-challenge before any session is created, so a key
        // that cannot sign aborts the attempt with no session material.
        let server_sig = match pki::sign_message(
            &self.private_key,
            presented.server_challenge.as_str().as_bytes(),
        ) {
            Ok(s) => s,
            Err(_) => {
                return Err(
                    RpcError {
                        message: "Internal error".to_owned(),
                        code: RpcErrorCode::InternalError,
                    },
                );
            },
        };
        let nonce = ski::nonce();
        let shared_key = ski::gen_key();
        let ghost key_view = shared_key@;
        let ghost nonce_view = nonce@;
        self.encryption = Some(EncryptionConfiguration::new(shared_key, nonce));
        self.client_pub_key = Some(presented.pub_key);
        let reply = RespondServerChallenge {
            pub_key: pki::to_public_key(&self.private_key),
            signiture: server_sig,
        };
        proof {
            assert(final(self)@ == challenge_response_model(old(self)@, true, key_view, nonce_view).0);
        }
        Ok(Response::new(ResultValue::ServerChallenge(reply), None, id))
    }

    /// Step five: an authenticated connection may ask for the session
    /// material; the reply carries exactly the stored key and nonce, rendered
    /// as portable text.
    pub fn handle_get_encryption_package(&self, request: Request) -> (r: Result<
        Response,
        RpcError,
    >)
        ensures
            self@.session matches Some((key, nonce)) ==> (request.method
                is RequestEncryptionPackage ==> (r matches Ok(resp) && resp.error is None
                && resp.id@ == request.id@ && (resp.result matches ResultValue::Package(p)
                && p.key_bytes() == key && p.nonce_bytes() == nonce && p.nonce_text()
                == crate::rpc_models::b64_text(nonce) && p.key_text() == crate::rpc_models::b64_text(
                key,
            ) && crate::rpc_models::b64_open(p.nonce_text()) == Some(nonce)
                && crate::rpc_models::b64_open(p.key_text()) == Some(key)))),
            !(request.method is RequestEncryptionPackage) || self@.session is None ==> r is Err,
    {
        match request.method {
            Method::RequestEncryptionPackage => {},
            _ => {
                return Err(
                    RpcError {
                        message: "Invalid method".to_owned(),
                        code: RpcErrorCode::MethodNotFound,
                    },
                );
            },
        }
        match &self.encryption {
            Some(e) => {
                let package = ClientEncryptionPackage::new(
                    vstd::slice::slice_to_vec(e.nonce.as_slice()),
                    vstd::slice::slice_to_vec(e.shared_key.as_slice()),
                );
                Ok(Response::new(ResultValue::Package(package), None, request.id))
            },
            None => Err(
                RpcError {
                    message: "Encryption not initialized".to_owned(),
                    code: RpcErrorCode::InvalidRequest,
                },
            ),
        }
    }

    /// Answers `ping` with `"pong"`.
    pub fn handle_ping(&self, request: Request) -> (r: Result<Response, RpcError>)
        ensures
            request.method is Ping ==> (r matches Ok(resp) && resp.error is None && resp.id@
                == request.id@ && (resp.result matches ResultValue::Text(t) && t@ == "pong"@)),
            !(request.method is Ping) ==> r is Err,
    {
        match request.method {
            Method::Ping => Ok(Response::new(ResultValue::Text("pong".to_owned()), None, request.id)),
            _ => Err(
                RpcError {
                    message: "Invalid method".to_owned(),
                    code: RpcErrorCode::MethodNotFound,
                },
            ),
        }
    }

    /// Opens the payload of an `encrypted_request`: symmetric payloads are
    /// opened with the session material, asymmetric ones with the server's
    /// private key. Refused before the handshake has authenticated the
    /// connection.
    pub fn unseal_request(&self, params: &EncryptedRequestParams) -> (r: Result<
        Vec<u8>,
        CryptoError,
    >)
        ensures
            self@.session is None || !self@.has_client_key ==> r is Err,
            self@.session matches Some((key, nonce)) ==> ((self@.has_client_key
                && params.enc_type is AesGcm && nonce.len() == 12) ==> (match ski::decrypt_model(
                params.data@,
                key,
                nonce,
            ) {
                Ok(p) => r matches Ok(q) && q@ == p,
                Err(e) => r matches Err(e2) && e2 == e,
            })),
    {
        if self.encryption.is_none() || self.client_pub_key.is_none() {
            return Err(CryptoError::AuthenticationFailure);
        }
        match params.enc_type {
            EncryptionType::RsaPkcs1v15 => pki::decrypt_message(
                &self.private_key,
                params.data.as_slice(),
            ),
            EncryptionType::AesGcm => {
                let e = match &self.encryption {
                    Some(e) => e,
                    None => {
                        proof {
                            assert(false);
                        }
                        return Err(CryptoError::AuthenticationFailure);
                    },
                };
                if e.nonce.len() != 12 {
                    return Err(CryptoError::AuthenticationFailure);
                }
                ski::decrypt_gcm(
                    params.data.as_slice(),
                    e.shared_key.as_slice(),
                    e.nonce.as_slice(),
                )
            },
        }
    }

    /// Seals a response payload in the same kind of envelope the request
    /// used: symmetric under the session material, asymmetric under the
    /// client's public key learned during the handshake.
    pub fn seal_response(&self, kind: EncryptionType, payload: &[u8]) -> (r: Result<
        Vec<u8>,
        CryptoError,
    >)
        requires
            ski::fits_aes_gcm(payload@.len()),
        ensures
            self@.session matches Some((key, nonce)) ==> ((kind is AesGcm && nonce.len() == 12)
                ==> (r matches Ok(ct) && ct@ == ski::seal_model(key, nonce, payload@)
                && ski::sealed_to(ct@, key, nonce, payload@))),
            kind is AesGcm && self@.session is None ==> r is Err,
            kind is RsaPkcs1v15 && !self@.has_client_key ==> r is Err,
    {
        match kind {
            EncryptionType::AesGcm => {
                match &self.encryption {
                    Some(e) => {
                        if e.nonce.len() != 12 {
                            return Err(CryptoError::AuthenticationFailure);
                        }
                        ski::encrypt_gcm(payload, e.shared_key.as_slice(), e.nonce.as_slice())
                    },
                    None => Err(CryptoError::AuthenticationFailure),
                }
            },
            EncryptionType::RsaPkcs1v15 => {
                match &self.client_pub_key {
                    Some(pk) => pki::encrypt_message(pk, payload),
                    None => Err(CryptoError::AuthenticationFailure),
                }
            },
        }
    }

    /// Handles an `encrypted_request`: opens the envelope, decodes and routes
    /// the inner request, and seals the inner response in the same kind of
    /// envelope the request used. Refused before the handshake has
    /// authenticated the connection.
    #[verifier::rlimit(100)]
    pub fn handle_encrypted_request(&self, request: Request) -> (r: Result<Response, RpcError>)
        ensures
            !(request.method is EncryptedRequest && request.params is Encrypted) ==> r is Err,
            self@.session is None || !self@.has_client_key ==> r is Err,
            r matches Ok(resp) ==> resp.error is None && resp.id@ == request.id@ && resp.result
                is Bytes,
            symmetric_reply_exact(self@, request, reply_error_of(r), reply_result_of(r)),
    {
        match request.method {
            Method::EncryptedRequest => {},
            _ => {
                return Err(
                    RpcError {
                        message: "Invalid method".to_owned(),
                        code: RpcErrorCode::MethodNotFound,
                    },
                );
            },
        }
        let id = request.id;
        let params = match request.params {
            Params::Encrypted(p) => p,
            _ => {
                return Err(
                    RpcError {
                        message: "Invalid params".to_owned(),
                        code: RpcErrorCode::InvalidParams,
                    },
                );
            },
        };
        if self.encryption.is_none() || self.client_pub_key.is_none() {
            return Err(
                RpcError {
                    message: "Encryption not initialized".to_owned(),
                    code: RpcErrorCode::InvalidRequest,
                },
            );
        }
        let inner_bytes = match self.unseal_request(&params) {
            Ok(b) => b,
            Err(e) => {
                return Err(
                    RpcError { message: e.describe().to_owned(), code: RpcErrorCode::InvalidRequest },
                );
            },
        };
        let inner_req = match crate::wire::decode_inner_request(inner_bytes.as_slice()) {
            Ok(q) => q,
            Err(_) => {
                return Err(
                    RpcError {
                        message: "Invalid inner request".to_owned(),
                        code: RpcErrorCode::ParseError,
                    },
                );
            },
        };
        let inner_id = inner_req.id.clone();
        let ghost g_name = crate::wire::method_name_spec(inner_req.method);
        let ghost g_iid = inner_req.id@;
        let ghost g_session = self@.session;
        let inner_resp = match inner_req.method {
            Method::RequestEncryptionPackage => {
                match self.handle_get_encryption_package(inner_req) {
                    Ok(resp) => {
                        proof {
                            lemma_method_names_distinct();
                            assert(crate::wire::err_block_of(resp.error) =~= inner_reply_blocks(
                                g_session,
                                g_name,
                            ).0);
                            assert(crate::wire::result_block_of(resp.result)->0
                                =~= inner_reply_blocks(g_session, g_name).1);
                        }
                        resp
                    },
                    Err(e) => {
                        proof {
                            assert(false);
                        }
                        Response::new(ResultValue::Null, Some(e), inner_id)
                    },
                }
            },
            Method::Ping => {
                match self.handle_ping(inner_req) {
                    Ok(resp) => {
                        proof {
                            assert(crate::wire::err_block_of(resp.error) =~= inner_reply_blocks(
                                g_session,
                                g_name,
                            ).0);
                            assert(crate::wire::result_block_of(resp.result)->0
                                =~= inner_reply_blocks(g_session, g_name).1);
                        }
                        resp
                    },
                    Err(e) => {
                        proof {
                            assert(false);
                        }
                        Response::new(ResultValue::Null, Some(e), inner_id)
                    },
                }
            },
            _ => {
                let resp = Response::new(
                    ResultValue::Null,
                    Some(
                        RpcError {
                            message: "Invalid rpc method".to_owned(),
                            code: RpcErrorCode::MethodNotFound,
                        },
                    ),
                    inner_id,
                );
                proof {
                    lemma_method_names_distinct();
                    assert(g_name != "ping"@ && g_name != "request_encryption_package"@);
                    assert(crate::wire::err_block_of(resp.error) =~= inner_reply_blocks(
                        g_session,
                        g_name,
                    ).0);
                    assert(crate::wire::result_block_of(resp.result)->0 =~= inner_reply_blocks(
                        g_session,
                        g_name,
                    ).1);
                }
                resp
            },
        };
        proof {
            assert(inner_resp.id@ == g_iid);
            assert(crate::wire::err_block_of(inner_resp.error) == inner_reply_blocks(
                g_session,
                g_name,
            ).0);
            assert(crate::wire::result_block_of(inner_resp.result) == Some(
                inner_reply_blocks(g_session, g_name).1,
            ));
        }
        let ct = match self.seal_inner_response(params.enc_type, &inner_resp) {
            Ok(ct) => ct,
            Err(e) => {
                return Err(e);
            },
        };
        Ok(Response::new(ResultValue::Bytes(ct), None, id))
    }

    /// Renders an inner response to bytes and seals it in the requested kind
    /// of envelope.
    #[verifier::rlimit(100)]
    fn seal_inner_response(&self, kind: EncryptionType, inner_resp: &Response) -> (r: Result<
        Vec<u8>,
        RpcError,
    >)
        requires
            inner_resp.result matches ResultValue::Package(p)
                ==> crate::rpc_models::b64_open(p.nonce_text()) is Some
                && crate::rpc_models::b64_open(p.key_text()) is Some,
            !(inner_resp.result is ServerChallenge),
            !(inner_resp.result is Bytes),
        ensures
            self@.session matches Some((key, nonce)) ==> ((kind is AesGcm && nonce.len() == 12)
                ==> (r matches Ok(ct) ==> (crate::wire::result_block_of(inner_resp.result)
                matches Some(rb) && ct@ == ski::seal_model(
                key,
                nonce,
                crate::wire::inner_response_bytes(
                    inner_resp.id@,
                    crate::wire::err_block_of(inner_resp.error),
                    rb,
                ),
            )))),
            self@.session matches Some((key, nonce)) ==> ((kind is AesGcm && nonce.len() == 12 && (
            crate::wire::result_block_of(inner_resp.result) matches Some(rb)
                && vstd::utf8::encode_utf8(inner_resp.id@).len() < 0x100000000
                && crate::wire::err_block_of(inner_resp.error).len() < 0x100000000 && rb.len()
                < 0x100000000)) ==> r is Ok),
    {
        let resp_bytes = match crate::wire::encode_inner_response(inner_resp) {
            Ok(b) => b,
            Err(_) => {
                return Err(
                    RpcError {
                        message: "Internal error".to_owned(),
                        code: RpcErrorCode::InternalError,
                    },
                );
            },
        };
        proof {
            assert(resp_bytes@.len() == 12 + vstd::utf8::encode_utf8(inner_resp.id@).len()
                + crate::wire::err_block_of(inner_resp.error).len() + crate::wire::result_block_of(
                inner_resp.result,
            )->0.len());
        }
        if resp_bytes.len() as u64 > 0x1000000000u64 {
            return Err(
                RpcError {
                    message: "Internal error".to_owned(),
                    code: RpcErrorCode::InternalError,
                },
            );
        }
        let ct = match self.seal_response(kind, resp_bytes.as_slice()) {
            Ok(ct) => ct,
            Err(e) => {
                return Err(
                    RpcError {
                        message: e.describe().to_owned(),
                        code: RpcErrorCode::InternalError,
                    },
                );
            },
        };
        Ok(ct)
    }
}

impl crate::rpc::Handler for ServerHandler {
    /// Routes an inbound message: the handshake steps and encrypted requests
    /// go to their handlers, anything else is answered `MethodNotFound`; a
    /// handler error becomes an error response rather than tearing the
    /// connection down.
    fn handle(&mut self, request: Request) -> (r: Response)
        ensures
            !(request.method is StartServerHandshake || request.method is ClientChallengeResponse
                || request.method is EncryptedRequest) ==> (final(self)@ == old(self)@ && r.result
                is Null && (r.error matches Some(e) && e.code == RpcErrorCode::MethodNotFound
                && e.message@ == "Invalid rpc method"@)),
            !(request.method is StartServerHandshake) && !(request.method
                is ClientChallengeResponse && request.params is ChallengeResponse)
                ==> final(self)@ == old(self)@,
            request.method is StartServerHandshake ==> (r.error is None && (
            r.result matches ResultValue::Text(c) && c@.len() == 36 && final(self)@
                == start_handshake_model(old(self)@, c@))),
            (request.method is ClientChallengeResponse && request.params is ChallengeResponse)
                ==> final(self)@.pending is None,
            (request.method is ClientChallengeResponse && r.error is None) ==> (old(
                self,
            )@.pending is Some && (exists|key: Seq<u8>, nonce: Seq<u8>|
                key.len() == 32 && nonce.len() == 12 && final(self)@ == challenge_response_model(
                    old(self)@,
                    true,
                    key,
                    nonce,
                ).0) && r.result is ServerChallenge),
            (request.method is ClientChallengeResponse && request.params is ChallengeResponse
                && r.error is Some) ==> final(self)@ == challenge_response_model(
                old(self)@,
                false,
                Seq::empty(),
                Seq::empty(),
            ).0,
            request.method is EncryptedRequest ==> symmetric_reply_exact(
                old(self)@,
                request,
                r.error,
                r.result,
            ),
            request.method is EncryptedRequest ==> (r.error is None ==> r.result is Bytes),
    {
        let id = request.id.clone();
        match request.method {
            Method::StartServerHandshake => match self.handle_start_server_handshake(request) {
                Ok(resp) => resp,
                Err(e) => Response::new(ResultValue::Null, Some(e), id),
            },
            Method::ClientChallengeResponse => match self.handle_challenge_response(request) {
                Ok(resp) => resp,
                Err(e) => Response::new(ResultValue::Null, Some(e), id),
            },
            Method::EncryptedRequest => match self.handle_encrypted_request(request) {
                Ok(resp) => resp,
                Err(e) => Response::new(ResultValue::Null, Some(e), id),
            },
            _ => Response::new(
                ResultValue::Null,
                Some(
                    RpcError {
                        message: "Invalid rpc method".to_owned(),
                        code: RpcErrorCode::MethodNotFound,
                    },
                ),
                id,
            ),
        }
    }
}

/// Replay protection: a challenge-response attempt consumes the pending
/// challenge whatever its outcome, so a second attempt on the same
/// connection — with the stale challenge or any other data — can never
/// authenticate until a new challenge is issued.
pub proof fn lemma_challenge_replay_rejected(
    s: ServerView,
    ok1: bool,
    k1: Seq<u8>,
    n1: Seq<u8>,
    ok2: bool,
    k2: Seq<u8>,
    n2: Seq<u8>,
)
    ensures
        !challenge_response_model(challenge_response_model(s, ok1, k1, n1).0, ok2, k2, n2).1,
{
}

/// A signature that does not verify at step three aborts the handshake: the
/// client is not authenticated and no session material is created.
pub proof fn lemma_bad_signature_no_session(s: ServerView, key: Seq<u8>, nonce: Seq<u8>)
    ensures
        challenge_response_model(s, false, key, nonce).0.session == s.session,
        !challenge_response_model(s, false, key, nonce).1,
        challenge_response_model(s, false, key, nonce).0.has_client_key == s.has_client_key,
{
}

} // verus!
