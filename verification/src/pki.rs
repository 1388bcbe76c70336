//! Asymmetric identity: RSA keypair generation, signing and verification,
//! asymmetric encryption for short session-setup payloads, and
//! encrypted-at-rest persistence of the long-term private key.

use vstd::prelude::*;

use crate::db;
use crate::errors::CryptoError;
use crate::ski;

verus! {

#[verifier::external_type_specification]
#[verifier::external_body]
pub struct ExRsaPrivateKey(rsa::RsaPrivateKey);

#[verifier::external_type_specification]
#[verifier::external_body]
pub struct ExRsaPublicKey(rsa::RsaPublicKey);

#[verifier::external_type_specification]
#[verifier::external_body]
pub struct ExSignature(rsa::pkcs1v15::Signature);

/// Relies on RsaPrivateKey::new (rsa): a fresh private key of the given bit
/// size from the operating system's secure generator; generation succeeds
/// for every supported bit size.
#[verifier::external_body]
fn gen_key_bits(bits: usize) -> (r: Result<rsa::RsaPrivateKey, CryptoError>)
    requires
        512 <= bits <= 4096,
    ensures
        r is Ok,
{
    rsa::RsaPrivateKey::new(&mut rand_core::OsRng, bits).map_err(|_| CryptoError::Backend)
}

/// Generates a fresh 2048-bit identity keypair.
pub fn gen_key() -> (r: Result<rsa::RsaPrivateKey, CryptoError>)
    ensures
        r is Ok,
{
    gen_key_bits(2048)
}

/// Generates a smaller keypair; bit sizes below 2048 are suitable only for
/// throwaway keys.
pub fn gen_key_of_size(bits: usize) -> (r: Result<rsa::RsaPrivateKey, CryptoError>)
    requires
        512 <= bits <= 4096,
    ensures
        r is Ok,
{
    gen_key_bits(bits)
}

/// Relies on RsaPrivateKey::to_public_key (rsa): the public half of the
/// keypair.
#[verifier::external_body]
pub fn to_public_key(sk: &rsa::RsaPrivateKey) -> (r: rsa::RsaPublicKey) {
    sk.to_public_key()
}

/// Relies on SigningKey::try_sign_with_rng (rsa): a randomized PKCS#1 v1.5
/// signature over the SHA-256 digest of `msg`; each call may return different
/// bytes, all of which verify under the matching public key. Fails for a key
/// whose modulus is too short to carry the digest.
#[verifier::external_body]
pub fn sign_message(sk: &rsa::RsaPrivateKey, msg: &[u8]) -> (r: Result<Vec<u8>, CryptoError>) {
    let snk = rsa::pkcs1v15::SigningKey::<rsa::sha2::Sha256>::from(sk.clone());
    match rsa::signature::RandomizedSigner::try_sign_with_rng(&snk, &mut rand_core::OsRng, msg) {
        Ok(sig) => Ok(rsa::signature::SignatureEncoding::to_bytes(&sig).to_vec()),
        Err(_) => Err(CryptoError::Backend),
    }
}

/// Relies on VerifyingKey::verify (rsa): deterministic verification of a
/// PKCS#1 v1.5 signature over the SHA-256 digest of `msg`.
#[verifier::external_body]
pub fn verify_signature(pk: &rsa::RsaPublicKey, msg: &[u8], sig: &rsa::pkcs1v15::Signature) -> (r:
    bool) {
    let vk = rsa::pkcs1v15::VerifyingKey::<rsa::sha2::Sha256>::from(pk.clone());
    rsa::signature::Verifier::verify(&vk, msg, sig).is_ok()
}

/// Relies on Signature::try_from (rsa): reads signature bytes; the
/// conversion accepts every byte string, and a wrong-length signature is
/// caught by verification instead.
#[verifier::external_body]
pub fn signature_from_bytes(b: &[u8]) -> (r: Result<rsa::pkcs1v15::Signature, CryptoError>)
    ensures
        r is Ok,
{
    <rsa::pkcs1v15::Signature as TryFrom<&[u8]>>::try_from(b).map_err(
        |_| CryptoError::DecodeFailure,
    )
}

/// Relies on RsaPublicKey::encrypt (rsa): PKCS#1 v1.5 encryption with random
/// padding, suitable only for payloads shorter than the modulus allows.
#[verifier::external_body]
pub fn encrypt_message(pk: &rsa::RsaPublicKey, msg: &[u8]) -> (r: Result<Vec<u8>, CryptoError>) {
    pk.encrypt(&mut rand_core::OsRng, rsa::Pkcs1v15Encrypt, msg).map_err(
        |_| CryptoError::Backend,
    )
}

/// Relies on RsaPrivateKey::decrypt (rsa): PKCS#1 v1.5 decryption; fails when
/// the ciphertext was not produced for this key.
#[verifier::external_body]
pub fn decrypt_message(sk: &rsa::RsaPrivateKey, ct: &[u8]) -> (r: Result<Vec<u8>, CryptoError>) {
    sk.decrypt(rsa::Pkcs1v15Encrypt, ct).map_err(|_| CryptoError::AuthenticationFailure)
}

/// Relies on RsaPublicKey::from_public_key_pem (rsa): parses a PEM-encoded
/// public key; fails on text that is not such a rendering.
#[verifier::external_body]
pub fn pub_key_from_str(pk: &str) -> (r: Result<rsa::RsaPublicKey, CryptoError>)
    ensures
        r matches Err(e) ==> e == CryptoError::DecodeFailure,
{
    <rsa::RsaPublicKey as rsa::pkcs8::DecodePublicKey>::from_public_key_pem(pk).map_err(
        |_| CryptoError::DecodeFailure,
    )
}

/// Relies on EncodePrivateKey::to_pkcs8_pem (rsa): the PEM rendering of the
/// private key.
#[verifier::external_body]
pub fn private_key_to_pem(sk: &rsa::RsaPrivateKey) -> (r: Result<Vec<u8>, CryptoError>) {
    match rsa::pkcs8::EncodePrivateKey::to_pkcs8_pem(sk, rsa::pkcs8::LineEnding::LF) {
        Ok(pem) => Ok(pem.as_bytes().to_vec()),
        Err(_) => Err(CryptoError::DecodeFailure),
    }
}

/// Relies on DecodePrivateKey::from_pkcs8_pem (rsa): parses a PEM-encoded
/// private key; fails on bytes that are not such a rendering, always as a
/// decode failure.
#[verifier::external_body]
pub fn private_key_from_pem(pem: &[u8]) -> (r: Result<rsa::RsaPrivateKey, CryptoError>)
    ensures
        r matches Err(e) ==> e == CryptoError::DecodeFailure,
{
    let s = match std::str::from_utf8(pem) {
        Ok(s) => s,
        Err(_) => return Err(CryptoError::DecodeFailure),
    };
    <rsa::RsaPrivateKey as rsa::pkcs8::DecodePrivateKey>::from_pkcs8_pem(s).map_err(
        |_| CryptoError::DecodeFailure,
    )
}

/// What opening an identity file yields: `DecodeFailure` when the envelope is
/// malformed, otherwise whatever decrypting its ciphertext under the
/// passphrase-derived key and its stored nonce yields.
pub open spec fn open_identity_model(file: Seq<u8>, passphrase: Seq<u8>) -> Result<
    Seq<u8>,
    CryptoError,
> {
    match db::parse_entry(file) {
        Some((nonce, ct)) => ski::decrypt_model(ct, passphrase, nonce),
        None => Err(CryptoError::DecodeFailure),
    }
}

/// Envelope-encrypts a PEM-encoded private key under a key derived from the
/// owner's passphrase, with a fresh nonce; the result is what is written to
/// the identity file.
pub fn seal_identity(pem: &[u8], passphrase: &[u8]) -> (r: Result<Vec<u8>, CryptoError>)
    requires
        ski::fits_aes_gcm(pem@.len()),
    ensures
        r matches Ok(file) ==> db::entry_opens_to(file@, passphrase@, pem@),
        r is Ok,
{
    let n = ski::nonce();
    let ct = match ski::encrypt_gcm(pem, passphrase, n.as_slice()) {
        Ok(ct) => ct,
        Err(_) => {
            proof {
                assert(false);
            }
            Vec::new()
        },
    };
    let ghost nonce_view = n@;
    let ghost ct_view = ct@;
    let e = db::Entry::new(n, ct);
    let file = db::encode_entry(&e);
    proof {
        db::lemma_entry_round_trip(nonce_view, ct_view);
    }
    Ok(file)
}

/// Opens an identity file: splits the envelope and decrypts under the
/// passphrase-derived key. A wrong passphrase or tampered file fails with
/// `AuthenticationFailure`; a malformed envelope with `DecodeFailure`.
pub fn open_identity(file: &[u8], passphrase: &[u8]) -> (r: Result<Vec<u8>, CryptoError>)
    ensures
        r matches Ok(pem) ==> open_identity_model(file@, passphrase@) == Ok::<
            Seq<u8>,
            CryptoError,
        >(pem@),
        r matches Err(e) ==> open_identity_model(file@, passphrase@) == Err::<
            Seq<u8>,
            CryptoError,
        >(e),
{
    let e = match db::decode_entry(file) {
        Ok(e) => e,
        Err(c) => {
            return Err(c);
        },
    };
    ski::decrypt_gcm(e.value.as_slice(), passphrase, e.nonce.as_slice())
}

/// Round trip: an identity file sealed from `pem` under a passphrase opens
/// back to exactly `pem` under the same passphrase.
pub proof fn lemma_identity_round_trip(file: Seq<u8>, passphrase: Seq<u8>, pem: Seq<u8>)
    requires
        db::entry_opens_to(file, passphrase, pem),
    ensures
        open_identity_model(file, passphrase) == Ok::<Seq<u8>, CryptoError>(pem),
{
}

/// Renders the private key as PEM and envelope-encrypts it under the
/// passphrase; the caller persists the returned bytes.
pub fn key_file_bytes(sk: &rsa::RsaPrivateKey, passphrase: &[u8]) -> (r: Result<
    Vec<u8>,
    CryptoError,
>)
    ensures
        r matches Ok(file) ==> exists|pem: Seq<u8>|
            db::entry_opens_to(file@, passphrase@, pem),
{
    let pem = private_key_to_pem(sk)?;
    if pem.len() as u64 > 0x1000000000u64 {
        return Err(CryptoError::DecodeFailure);
    }
    let ghost pem_view = pem@;
    let file = match seal_identity(pem.as_slice(), passphrase) {
        Ok(f) => f,
        Err(c) => {
            return Err(c);
        },
    };
    proof {
        assert(db::entry_opens_to(file@, passphrase@, pem_view));
    }
    Ok(file)
}

/// Opens an identity file and parses the decrypted PEM back into the private
/// key. A wrong passphrase fails with `AuthenticationFailure`, never a
/// generic decode error; when the envelope opens, the only remaining failure
/// is a PEM decode failure.
pub fn read_key_bytes(file: &[u8], passphrase: &[u8]) -> (r: Result<
    rsa::RsaPrivateKey,
    CryptoError,
>)
    ensures
        open_identity_model(file@, passphrase@) matches Err(e) ==> r matches Err(c) && c == e,
        open_identity_model(file@, passphrase@) is Ok ==> (r is Ok || r == Err::<
            rsa::RsaPrivateKey,
            CryptoError,
        >(CryptoError::DecodeFailure)),
{
    let pem = open_identity(file, passphrase)?;
    private_key_from_pem(pem.as_slice())
}

} // verus!
