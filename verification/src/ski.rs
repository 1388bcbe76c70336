//! Symmetric cipher: AES-256-GCM with a key derived from arbitrary key
//! material by a one-way hash, so callers may supply human-chosen passphrases
//! or raw 32-byte keys interchangeably.

use vstd::prelude::*;

use crate::errors::CryptoError;

verus! {

/// The longest plaintext AES-GCM accepts (the cipher's own length bound).
pub open spec fn fits_aes_gcm(len: nat) -> bool {
    len <= 0x1000000000
}

/// What AES-256-GCM decryption yields for `ct` under a 32-byte key and a
/// 12-byte nonce: the plaintext when the authentication tag verifies, `None`
/// otherwise. Decryption is a function of these three values alone.
pub uninterp spec fn gcm_open(key: Seq<u8>, nonce: Seq<u8>, ct: Seq<u8>) -> Option<Seq<u8>>;

/// What AES-256-GCM encryption produces for `pt` under a 32-byte key and a
/// 12-byte nonce: a function of these three values alone, so equal inputs
/// always yield equal ciphertext.
pub uninterp spec fn gcm_seal(key: Seq<u8>, nonce: Seq<u8>, pt: Seq<u8>) -> Seq<u8>;

/// The 64 hexadecimal characters of the SHA-256 digest of `data`.
pub uninterp spec fn sha256_hex(data: Seq<u8>) -> Seq<char>;

pub open spec fn is_hex_digit(c: char) -> bool {
    ('0' <= c && c <= '9') || ('a' <= c && c <= 'f') || ('A' <= c && c <= 'F')
}

pub open spec fn hex_val(c: char) -> u8 {
    if '0' <= c && c <= '9' {
        ((c as int) - 48) as u8
    } else if 'a' <= c && c <= 'f' {
        ((c as int) - 87) as u8
    } else {
        ((c as int) - 55) as u8
    }
}

/// The bytes a hexadecimal string denotes: one byte per pair of digits.
pub open spec fn hex_bytes(s: Seq<char>) -> Seq<u8> {
    Seq::new((s.len() / 2) as nat, |i: int| (hex_val(s[2 * i]) * 16 + hex_val(s[2 * i + 1])) as u8)
}

/// The 32-byte AES key derived from arbitrary key material: the SHA-256
/// digest of the material, read back from its hexadecimal rendering.
pub open spec fn derived_key(key: Seq<u8>) -> Seq<u8> {
    hex_bytes(sha256_hex(key))
}

/// `ct` is a ciphertext that opens to `pt` under the key derived from `key`
/// and the nonce `nonce`.
pub open spec fn sealed_to(ct: Seq<u8>, key: Seq<u8>, nonce: Seq<u8>, pt: Seq<u8>) -> bool {
    gcm_open(derived_key(key), nonce, ct) == Some(pt)
}

/// The exact ciphertext `encrypt_gcm` produces for `pt` under the key
/// derived from `key` and the nonce `nonce`.
pub open spec fn seal_model(key: Seq<u8>, nonce: Seq<u8>, pt: Seq<u8>) -> Seq<u8> {
    gcm_seal(derived_key(key), nonce, pt)
}

/// What `decrypt_gcm` returns: the plaintext when the tag verifies, and
/// `AuthenticationFailure` otherwise — never a parse error.
pub open spec fn decrypt_model(ct: Seq<u8>, key: Seq<u8>, nonce: Seq<u8>) -> Result<
    Seq<u8>,
    CryptoError,
> {
    match gcm_open(derived_key(key), nonce, ct) {
        Some(pt) => Ok(pt),
        None => Err(CryptoError::AuthenticationFailure),
    }
}

/// Relies on sha256::digest: returns the 64 hexadecimal characters of the
/// SHA-256 digest of the input, a function of the input bytes alone.
#[verifier::external_body]
fn digest_hex(data: &[u8]) -> (r: String)
    ensures
        r@ == sha256_hex(data@),
        r@.len() == 64,
        forall|i: int| 0 <= i < r@.len() ==> is_hex_digit(#[trigger] r@[i]),
{
    sha256::digest(data)
}

/// Relies on hex::decode: turns each pair of hexadecimal digits into one
/// byte; fails exactly on an odd-length input or a non-hex character.
#[verifier::external_body]
fn hex_decode(s: &String) -> (r: Result<Vec<u8>, CryptoError>)
    ensures
        r matches Ok(v) ==> v@ == hex_bytes(s@),
        r is Ok <==> (s@.len() % 2 == 0 && forall|i: int|
            0 <= i < s@.len() ==> is_hex_digit(#[trigger] s@[i])),
{
    hex::decode(s.as_str()).map_err(|_| CryptoError::DecodeFailure)
}

/// Relies on Aes256Gcm::encrypt (aes-gcm): deterministic authenticated
/// encryption whose output opens back to the plaintext under the same key
/// and nonce, sixteen tag bytes longer than the plaintext; fails only past
/// the cipher's plaintext length bound.
#[verifier::external_body]
fn aes_seal(pt: &[u8], key: &Vec<u8>, nonce: &[u8]) -> (r: Result<Vec<u8>, CryptoError>)
    requires
        key@.len() == 32,
        nonce@.len() == 12,
    ensures
        r matches Ok(ct) ==> ct@ == gcm_seal(key@, nonce@, pt@) && gcm_open(key@, nonce@, ct@)
            == Some(pt@) && ct@.len() == pt@.len() + 16,
        fits_aes_gcm(pt@.len()) ==> r is Ok,
{
    let key = aes_gcm::Key::<aes_gcm::Aes256Gcm>::from_slice(key.as_slice());
    let cipher = <aes_gcm::Aes256Gcm as aes_gcm::KeyInit>::new(key);
    let nonce = aes_gcm::Nonce::from_slice(nonce);
    aes_gcm::aead::Aead::encrypt(&cipher, nonce, pt).map_err(|_| CryptoError::Backend)
}

/// Relies on Aes256Gcm::decrypt (aes-gcm): returns the plaintext exactly when
/// the authentication tag verifies, and fails otherwise.
#[verifier::external_body]
fn aes_unseal(ct: &[u8], key: &Vec<u8>, nonce: &[u8]) -> (r: Result<Vec<u8>, CryptoError>)
    requires
        key@.len() == 32,
        nonce@.len() == 12,
    ensures
        r matches Ok(pt) ==> gcm_open(key@, nonce@, ct@) == Some(pt@),
        r matches Err(e) ==> gcm_open(key@, nonce@, ct@) is None && e
            == CryptoError::AuthenticationFailure,
{
    let key = aes_gcm::Key::<aes_gcm::Aes256Gcm>::from_slice(key.as_slice());
    let cipher = <aes_gcm::Aes256Gcm as aes_gcm::KeyInit>::new(key);
    let nonce = aes_gcm::Nonce::from_slice(nonce);
    aes_gcm::aead::Aead::decrypt(&cipher, nonce, ct).map_err(
        |_| CryptoError::AuthenticationFailure,
    )
}

/// Relies on AeadCore::generate_nonce (aes-gcm): twelve bytes from the
/// operating system's cryptographically secure generator.
#[verifier::external_body]
pub fn nonce() -> (r: Vec<u8>)
    ensures
        r@.len() == 12,
{
    let n = <aes_gcm::Aes256Gcm as aes_gcm::aead::AeadCore>::generate_nonce(
        &mut aes_gcm::aead::OsRng,
    );
    n.to_vec()
}

/// Relies on KeyInit::generate_key (aes-gcm): a fresh 32-byte key from the
/// operating system's cryptographically secure generator.
#[verifier::external_body]
pub fn gen_key() -> (r: Vec<u8>)
    ensures
        r@.len() == 32,
{
    let k = <aes_gcm::Aes256Gcm as aes_gcm::KeyInit>::generate_key(&mut aes_gcm::aead::OsRng);
    k.to_vec()
}

/// Derives the 32-byte AES key from arbitrary key material.
fn derive_key(key: &[u8]) -> (r: Vec<u8>)
    ensures
        r@ == derived_key(key@),
        r@.len() == 32,
{
    let hex = digest_hex(key);
    let bytes = match hex_decode(&hex) {
        Ok(b) => b,
        Err(_) => {
            proof {
                assert(false);
            }
            Vec::new()
        },
    };
    bytes
}

/// Encrypts `pt` under the key derived from `key` with the given fresh
/// 12-byte nonce; the ciphertext is a function of the three inputs alone.
/// The caller must supply a nonce produced once by this component's
/// generator and never reused with the same key.
pub fn encrypt_gcm(pt: &[u8], key: &[u8], nonce: &[u8]) -> (r: Result<Vec<u8>, CryptoError>)
    requires
        nonce@.len() == 12,
        fits_aes_gcm(pt@.len()),
    ensures
        r matches Ok(ct) ==> ct@ == seal_model(key@, nonce@, pt@) && sealed_to(
            ct@,
            key@,
            nonce@,
            pt@,
        ) && ct@.len() == pt@.len() + 16,
        r is Ok,
{
    let k = derive_key(key);
    aes_seal(pt, &k, nonce)
}

/// Decrypts `ct` under the key derived from `key` and the given nonce. Fails
/// with `AuthenticationFailure` exactly when the authentication tag does not
/// verify (wrong key, wrong nonce, or tampered ciphertext).
pub fn decrypt_gcm(ct: &[u8], key: &[u8], nonce: &[u8]) -> (r: Result<Vec<u8>, CryptoError>)
    requires
        nonce@.len() == 12,
    ensures
        r matches Ok(pt) ==> decrypt_model(ct@, key@, nonce@) == Ok::<Seq<u8>, CryptoError>(pt@),
        r matches Err(e) ==> decrypt_model(ct@, key@, nonce@) == Err::<Seq<u8>, CryptoError>(e),
{
    let k = derive_key(key);
    aes_unseal(ct, &k, nonce)
}

/// Round trip: a ciphertext sealed from plaintext `pt` under `key` and
/// `nonce` decrypts back to exactly `pt` under the same key and nonce.
pub proof fn lemma_cipher_round_trip(ct: Seq<u8>, key: Seq<u8>, nonce: Seq<u8>, pt: Seq<u8>)
    requires
        sealed_to(ct, key, nonce, pt),
    ensures
        decrypt_model(ct, key, nonce) == Ok::<Seq<u8>, CryptoError>(pt),
{
}

} // verus!
