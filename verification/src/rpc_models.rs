//! Wire payloads of the handshake and of encrypted requests.

use vstd::prelude::*;

use crate::errors::CryptoError;

verus! {

/// Which encryption scheme an envelope's payload was produced with; the
/// responder must reply using the same kind the request used.
#[derive(Clone, Copy, PartialEq, Eq, Structural, Debug)]
pub enum EncryptionType {
    AesGcm,
    RsaPkcs1v15,
}

/// Step two of the handshake: the client presents its public key, its
/// signature over the server's challenge, and a fresh counter-challenge of
/// its own.
pub struct RespondClientChallenge {
    pub pub_key: rsa::RsaPublicKey,
    pub signiture: Vec<u8>,
    pub server_challenge: String,
}

/// Step three's reply: the server presents its public key and its signature
/// over the client's counter-challenge.
pub struct RespondServerChallenge {
    pub pub_key: rsa::RsaPublicKey,
    pub signiture: Vec<u8>,
}

/// What decoding a base64 rendering yields: the bytes for a string some
/// encoding produced, `None` for any other string. Decoding is a function of
/// the characters alone.
pub uninterp spec fn b64_open(s: Seq<char>) -> Option<Seq<u8>>;

/// What encoding bytes as base64 produces: a function of the bytes alone,
/// so equal inputs always yield equal text.
pub uninterp spec fn b64_text(b: Seq<u8>) -> Seq<char>;

/// Relies on base64 STANDARD encode: deterministic; the rendering decodes
/// back to exactly the input bytes, is ASCII, and is four characters per
/// three input bytes, padded.
#[verifier::external_body]
fn b64_encode(b: &[u8]) -> (r: String)
    ensures
        r@ == b64_text(b@),
        b64_open(r@) == Some(b@),
        r@.len() == 4 * ((b@.len() + 2) / 3),
        vstd::utf8::is_ascii_chars(r@),
{
    base64::Engine::encode(&base64::prelude::BASE64_STANDARD, b)
}

/// Relies on base64 STANDARD decode: the inverse of encoding; fails exactly
/// on the strings no encoding produced.
#[verifier::external_body]
fn b64_decode(s: &String) -> (r: Result<Vec<u8>, CryptoError>)
    ensures
        r matches Ok(v) ==> b64_open(s@) == Some(v@),
        r is Err <==> b64_open(s@) is None,
{
    base64::Engine::decode(&base64::prelude::BASE64_STANDARD, s.as_str()).map_err(
        |_| CryptoError::DecodeFailure,
    )
}

/// The session key and nonce as the server hands them to the client: each
/// rendered as portable base64 text to avoid raw-byte transport ambiguity.
pub struct ClientEncryptionPackage {
    nonce: String,
    shared_key: String,
}

impl ClientEncryptionPackage {
    /// Both fields are always renderings that decode.
    #[verifier::type_invariant]
    spec fn inv(&self) -> bool {
        b64_open(self.nonce@) is Some && b64_open(self.shared_key@) is Some
    }

    /// The nonce bytes the package carries.
    pub closed spec fn nonce_bytes(&self) -> Seq<u8> {
        b64_open(self.nonce@)->0
    }

    /// The key bytes the package carries.
    pub closed spec fn key_bytes(&self) -> Seq<u8> {
        b64_open(self.shared_key@)->0
    }

    /// The nonce's wire text.
    pub closed spec fn nonce_text(&self) -> Seq<char> {
        self.nonce@
    }

    /// The key's wire text.
    pub closed spec fn key_text(&self) -> Seq<char> {
        self.shared_key@
    }

    pub fn new(nonce: Vec<u8>, shared_key: Vec<u8>) -> (r: ClientEncryptionPackage)
        ensures
            r.nonce_bytes() == nonce@,
            r.key_bytes() == shared_key@,
            r.nonce_text() == b64_text(nonce@),
            r.key_text() == b64_text(shared_key@),
            b64_open(r.nonce_text()) == Some(nonce@),
            b64_open(r.key_text()) == Some(shared_key@),
            r.nonce_text().len() == 4 * ((nonce@.len() + 2) / 3),
            r.key_text().len() == 4 * ((shared_key@.len() + 2) / 3),
            vstd::utf8::is_ascii_chars(r.nonce_text()),
            vstd::utf8::is_ascii_chars(r.key_text()),
    {
        let n = b64_encode(nonce.as_slice());
        let k = b64_encode(shared_key.as_slice());
        ClientEncryptionPackage { nonce: n, shared_key: k }
    }

    /// Rebuilds a package from its wire rendering; fails on text that is not
    /// base64.
    pub fn from_encoded(nonce: String, shared_key: String) -> (r: Result<
        ClientEncryptionPackage,
        CryptoError,
    >)
        ensures
            r matches Ok(p) ==> b64_open(nonce@) == Some(p.nonce_bytes()) && b64_open(shared_key@)
                == Some(p.key_bytes()) && p.nonce_text() == nonce@ && p.key_text() == shared_key@,
            r is Err <==> (b64_open(nonce@) is None || b64_open(shared_key@) is None),
    {
        let n = b64_decode(&nonce);
        let k = b64_decode(&shared_key);
        match (n, k) {
            (Ok(_), Ok(_)) => Ok(ClientEncryptionPackage { nonce, shared_key }),
            _ => Err(CryptoError::DecodeFailure),
        }
    }

    pub fn nonce(&self) -> (r: Vec<u8>)
        ensures
            r@ == self.nonce_bytes(),
    {
        proof {
            use_type_invariant(&*self);
        }
        match b64_decode(&self.nonce) {
            Ok(v) => v,
            Err(_) => {
                proof {
                    assert(false);
                }
                Vec::new()
            },
        }
    }

    pub fn shared_key(&self) -> (r: Vec<u8>)
        ensures
            r@ == self.key_bytes(),
    {
        proof {
            use_type_invariant(&*self);
        }
        match b64_decode(&self.shared_key) {
            Ok(v) => v,
            Err(_) => {
                proof {
                    assert(false);
                }
                Vec::new()
            },
        }
    }

    /// The wire rendering: (nonce text, key text).
    pub fn encoded(&self) -> (r: (String, String))
        ensures
            r.0@ == self.nonce_text(),
            r.1@ == self.key_text(),
            b64_open(r.0@) == Some(self.nonce_bytes()),
            b64_open(r.1@) == Some(self.key_bytes()),
    {
        proof {
            use_type_invariant(&*self);
        }
        (self.nonce.clone(), self.shared_key.clone())
    }
}

/// The parameters of an `encrypted_request`: which scheme sealed the inner
/// message, and its ciphertext.
pub struct EncryptedRequestParams {
    pub enc_type: EncryptionType,
    pub data: Vec<u8>,
}

} // verus!
