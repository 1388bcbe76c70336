//! Client side of the handshake and of the symmetric request path, plus the
//! client's local encrypted tables. The transport I/O around these steps is
//! the caller's: each step here is a pure decision from state and the peer's
//! reply to next state and the next outgoing message.

use vstd::prelude::*;

use crate::db::EntryDb;
use crate::errors::CryptoError;
use crate::handler::{challenge_response_model, start_handshake_model, ServerView};
use crate::models::EncryptionConfiguration;
use crate::pki;
use crate::rpc::{Method, Params, Request};
use crate::rpc_models::{ClientEncryptionPackage, EncryptedRequestParams, EncryptionType,
    RespondClientChallenge, RespondServerChallenge};
use crate::ski;
use crate::token;

verus! {

/// The handshake-relevant state of the client's connection: its outstanding
/// counter-challenge, whether the server's identity has been verified, and
/// the established session.
pub struct ClientView {
    pub counter: Option<Seq<char>>,
    pub has_server_key: bool,
    pub session: Option<(Seq<u8>, Seq<u8>)>,
}

/// Step two: the client signs the server's challenge and records the fresh
/// counter-challenge it sends along.
pub open spec fn respond_challenge_model(s: ClientView, counter: Seq<char>) -> ClientView {
    ClientView { counter: Some(counter), ..s }
}

/// Step four: only a server signature that verifies over the outstanding
/// counter-challenge (`ok`) makes the server's identity trusted; otherwise
/// the client must not proceed.
pub open spec fn verify_server_model(s: ClientView, ok: bool) -> (ClientView, bool) {
    if s.counter is None || !ok {
        (s, false)
    } else {
        (ClientView { has_server_key: true, ..s }, true)
    }
}

/// Step six: the client adopts the session the package carries; a package
/// whose nonce is not the cipher's 12 bytes is rejected.
pub open spec fn accept_package_model(s: ClientView, key: Seq<u8>, nonce: Seq<u8>) -> (
    ClientView,
    bool,
) {
    if nonce.len() == 12 {
        (ClientView { session: Some((key, nonce)), ..s }, true)
    } else {
        (s, false)
    }
}

/// The client's connection state: its identity key and the handshake state
/// of the one connection it is driving.
pub struct Client {
    pub private_key: rsa::RsaPrivateKey,
    pub counter_challenge: Option<String>,
    pub server_pub_key: Option<rsa::RsaPublicKey>,
    pub session: Option<EncryptionConfiguration>,
}

impl View for Client {
    type V = ClientView;

    open spec fn view(&self) -> ClientView {
        ClientView {
            counter: match self.counter_challenge {
                Some(c) => Some(c@),
                None => None,
            },
            has_server_key: self.server_pub_key is Some,
            session: match self.session {
                Some(e) => Some((e.shared_key@, e.nonce@)),
                None => None,
            },
        }
    }
}

impl Client {
    /// A session's nonce is always the cipher's 12 bytes.
    pub open spec fn wf(&self) -> bool {
        self@.session matches Some((key, nonce)) ==> nonce.len() == 12
    }

    pub fn new(private_key: rsa::RsaPrivateKey) -> (r: Client)
        ensures
            r@.counter is None,
            !r@.has_server_key,
            r@.session is None,
            r.wf(),
    {
        Client { private_key, counter_challenge: None, server_pub_key: None, session: None }
    }

    /// Step one: the request that opens the handshake.
    pub fn start_request(&self) -> (r: Request)
        ensures
            r.method is StartServerHandshake,
            r.params is Null,
            r.id@.len() == 36,
    {
        Request::new(Method::StartServerHandshake, Params::Null)
    }

    /// Step two: sign the server's challenge, generate a fresh
    /// counter-challenge, remember it, and build the challenge response
    /// carrying this client's public key. Fails, with the state untouched,
    /// only when the identity key cannot sign.
    pub fn respond_challenge(&mut self, challenge: &String) -> (r: Result<Request, CryptoError>)
        requires
            old(self).wf(),
        ensures
            final(self).wf(),
            r matches Ok(req) ==> req.method is ClientChallengeResponse && req.id@.len() == 36 && (
            req.params matches Params::ChallengeResponse(p) && p.server_challenge@.len() == 36
                && final(self)@ == respond_challenge_model(old(self)@, p.server_challenge@)),
            r is Err ==> final(self)@ == old(self)@,
    {
        let sig = match pki::sign_message(&self.private_key, challenge.as_str().as_bytes()) {
            Ok(s) => s,
            Err(e) => {
                return Err(e);
            },
        };
        let counter = token::new_token();
        self.counter_challenge = Some(counter.clone());
        let p = RespondClientChallenge {
            pub_key: pki::to_public_key(&self.private_key),
            signiture: sig,
            server_challenge: counter,
        };
        Ok(Request::new(Method::ClientChallengeResponse, Params::ChallengeResponse(p)))
    }

    /// Step four: verify the server's signature over our counter-challenge
    /// with the public key the server presented. Failure means the server's
    /// identity is not trusted and the handshake must not proceed.
    pub fn verify_server(&mut self, resp: RespondServerChallenge) -> (r: Result<(), CryptoError>)
        requires
            old(self).wf(),
        ensures
            final(self).wf(),
            r is Ok ==> old(self)@.counter is Some && final(self)@ == verify_server_model(
                old(self)@,
                true,
            ).0,
            r matches Err(e) ==> e == CryptoError::AuthenticationFailure && final(self)@ == old(
                self,
            )@,
    {
        let counter = match &self.counter_challenge {
            Some(c) => c.clone(),
            None => {
                return Err(CryptoError::AuthenticationFailure);
            },
        };
        let sig = match pki::signature_from_bytes(resp.signiture.as_slice()) {
            Ok(s) => s,
            Err(_) => {
                return Err(CryptoError::AuthenticationFailure);
            },
        };
        let ok = pki::verify_signature(&resp.pub_key, counter.as_str().as_bytes(), &sig);
        if !ok {
            return Err(CryptoError::AuthenticationFailure);
        }
        self.server_pub_key = Some(resp.pub_key);
        Ok(())
    }

    /// Step five's inner message: the session-key request.
    pub fn session_key_request(&self) -> (r: Request)
        ensures
            r.method is RequestEncryptionPackage,
            r.params is Null,
            r.id@.len() == 36,
    {
        Request::new(Method::RequestEncryptionPackage, Params::Null)
    }

    /// Wraps an inner message asymmetrically for the verified server: only
    /// possible once the server's identity is trusted.
    pub fn seal_for_server(&self, inner: &[u8], id: String) -> (r: Result<Request, CryptoError>)
        ensures
            !self@.has_server_key ==> r is Err,
            r matches Ok(req) ==> req.method is EncryptedRequest && req.id == id && (
            req.params matches Params::Encrypted(p) && p.enc_type is RsaPkcs1v15),
    {
        let pk = match &self.server_pub_key {
            Some(pk) => pk,
            None => {
                return Err(CryptoError::AuthenticationFailure);
            },
        };
        let ct = pki::encrypt_message(pk, inner)?;
        Ok(
            Request::new_with_id(
                Method::EncryptedRequest,
                Params::Encrypted(
                    EncryptedRequestParams { enc_type: EncryptionType::RsaPkcs1v15, data: ct },
                ),
                id,
            ),
        )
    }

    /// Opens an asymmetric reply with this client's private key.
    pub fn open_rsa_response(&self, ct: &[u8]) -> (r: Result<Vec<u8>, CryptoError>) {
        pki::decrypt_message(&self.private_key, ct)
    }

    /// Step six: adopt the session material the package carries; all later
    /// requests on this connection use the symmetric envelope with it.
    pub fn accept_package(&mut self, package: &ClientEncryptionPackage) -> (r: Result<
        (),
        CryptoError,
    >)
        requires
            old(self).wf(),
        ensures
            final(self).wf(),
            r is Ok <==> package.nonce_bytes().len() == 12,
            r is Ok ==> final(self)@ == accept_package_model(
                old(self)@,
                package.key_bytes(),
                package.nonce_bytes(),
            ).0,
            r is Err ==> final(self)@ == old(self)@,
    {
        let nonce = package.nonce();
        if nonce.len() != 12 {
            return Err(CryptoError::DecodeFailure);
        }
        let key = package.shared_key();
        self.session = Some(EncryptionConfiguration::new(key, nonce));
        Ok(())
    }

    /// Seals an inner message under the established session for an
    /// `encrypted_request` envelope.
    pub fn seal_symmetric(&self, inner: &[u8], id: String) -> (r: Result<Request, CryptoError>)
        requires
            self.wf(),
            ski::fits_aes_gcm(inner@.len()),
        ensures
            self@.session is None ==> r is Err,
            self@.session matches Some((key, nonce)) ==> (r matches Ok(req) && req.method
                is EncryptedRequest && req.id == id && (req.params matches Params::Encrypted(p)
                && p.enc_type is AesGcm && p.data@ == ski::seal_model(key, nonce, inner@)
                && ski::sealed_to(p.data@, key, nonce, inner@))),
    {
        let e = match &self.session {
            Some(e) => e,
            None => {
                return Err(CryptoError::AuthenticationFailure);
            },
        };
        let ct = match ski::encrypt_gcm(inner, e.shared_key.as_slice(), e.nonce.as_slice()) {
            Ok(ct) => ct,
            Err(_) => {
                proof {
                    assert(false);
                }
                Vec::new()
            },
        };
        Ok(
            Request::new_with_id(
                Method::EncryptedRequest,
                Params::Encrypted(
                    EncryptedRequestParams { enc_type: EncryptionType::AesGcm, data: ct },
                ),
                id,
            ),
        )
    }

    /// Opens a symmetric reply under the established session; fails with
    /// `AuthenticationFailure` exactly when the tag does not verify.
    pub fn open_symmetric(&self, ct: &[u8]) -> (r: Result<Vec<u8>, CryptoError>)
        requires
            self.wf(),
        ensures
            self@.session is None ==> r is Err,
            self@.session matches Some((key, nonce)) ==> (match ski::decrypt_model(
                ct@,
                key,
                nonce,
            ) {
                Ok(p) => r matches Ok(q) && q@ == p,
                Err(e) => r matches Err(e2) && e2 == e,
            }),
    {
        let e = match &self.session {
            Some(e) => e,
            None => {
                return Err(CryptoError::AuthenticationFailure);
            },
        };
        ski::decrypt_gcm(ct, e.shared_key.as_slice(), e.nonce.as_slice())
    }
}

/// The client's local encrypted tables, all bound to keys derived from the
/// owner's passphrase; the caller opens the durable backends and hands them
/// in.
pub struct ClientDatabase {
    pub known_user_db: EntryDb,
    pub message_db: EntryDb,
    pub server_db: EntryDb,
    pub chat_db: EntryDb,
}

impl ClientDatabase {
    pub fn new(
        key: &[u8],
        known_users: sled::Db,
        messages: sled::Db,
        servers: sled::Db,
        chats: sled::Db,
    ) -> (r: ClientDatabase)
        ensures
            r.known_user_db.store_key() == key@,
            r.message_db.store_key() == key@,
            r.server_db.store_key() == key@,
            r.chat_db.store_key() == key@,
            r.known_user_db.contents() == crate::db::sled_contents(known_users),
            r.message_db.contents() == crate::db::sled_contents(messages),
            r.server_db.contents() == crate::db::sled_contents(servers),
            r.chat_db.contents() == crate::db::sled_contents(chats),
    {
        ClientDatabase {
            known_user_db: EntryDb::new(key, known_users),
            message_db: EntryDb::new(key, messages),
            server_db: EntryDb::new(key, servers),
            chat_db: EntryDb::new(key, chats),
        }
    }
}

/// Handshake happy path: with the signatures verifying on both sides, the
/// six steps leave the server authenticated, the client trusting the
/// server's identity, and both holding the same session key and nonce.
pub proof fn lemma_handshake_session_agreement(
    server0: ServerView,
    client0: ClientView,
    challenge: Seq<char>,
    counter: Seq<char>,
    key: Seq<u8>,
    nonce: Seq<u8>,
)
    requires
        nonce.len() == 12,
    ensures
        ({
            let s1 = start_handshake_model(server0, challenge);
            let (s2, accepted) = challenge_response_model(s1, true, key, nonce);
            let c1 = respond_challenge_model(client0, counter);
            let (c2, verified) = verify_server_model(c1, true);
            let (c3, established) = accept_package_model(c2, key, nonce);
            accepted && verified && established && s2.session == Some((key, nonce)) && c3.session
                == s2.session
        }),
{
}

/// A server signature that does not verify at step four leaves the client
/// exactly as it was: the server's identity is not trusted and no session
/// exists that did not exist before.
pub proof fn lemma_client_rejects_bad_server_signature(c: ClientView)
    ensures
        !verify_server_model(c, false).1,
        verify_server_model(c, false).0 == c,
{
}

} // verus!
