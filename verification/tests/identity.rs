use carapace::pki::{
    decrypt_message, encrypt_message, gen_key, gen_key_of_size, key_file_bytes, open_identity,
    read_key_bytes, seal_identity, sign_message, signature_from_bytes, to_public_key,
    verify_signature,
};
use carapace::CryptoError;

#[test]
fn test_gen_key() {
    let sk = gen_key();
    assert!(sk.is_ok());
}

#[test]
fn test_write_key_to_file() {
    let sk = gen_key_of_size(1024).unwrap();
    let file_key = String::from("example key1");
    let file = key_file_bytes(&sk, file_key.as_bytes()).unwrap();
    let sk_read = read_key_bytes(&file, file_key.as_bytes()).unwrap();
    assert_eq!(sk, sk_read);
}

#[test]
fn test_wrong_passphrase_fails_authentication() {
    let sk = gen_key_of_size(1024).unwrap();
    let file = key_file_bytes(&sk, b"example key1").unwrap();
    let r = read_key_bytes(&file, b"example key2");
    assert_eq!(r.err(), Some(CryptoError::AuthenticationFailure));
}

#[test]
fn test_identity_envelope_round_trip() {
    let pem = b"not really a key, but any bytes round-trip".to_vec();
    let file = seal_identity(&pem, b"passphrase").unwrap();
    assert_eq!(open_identity(&file, b"passphrase").unwrap(), pem);
    assert_eq!(
        open_identity(&file, b"other passphrase"),
        Err(CryptoError::AuthenticationFailure)
    );
}

#[test]
fn test_truncated_identity_file_is_decode_failure() {
    let file = vec![1u8, 2, 3];
    assert_eq!(open_identity(&file, b"passphrase"), Err(CryptoError::DecodeFailure));
}

#[test]
fn test_enc_dec_message() {
    let sk = gen_key_of_size(1024).unwrap();
    let pk = to_public_key(&sk);
    let msg = b"hello world";
    let ct = encrypt_message(&pk, msg).unwrap();
    let pt = decrypt_message(&sk, &ct).unwrap();
    assert_eq!(msg, pt.as_slice());
}

#[test]
fn test_sign_with_short_key_fails_cleanly() {
    // A modulus too short to carry the SHA-256 digest cannot sign; the
    // library reports an error instead of panicking.
    let tiny = rsa::RsaPrivateKey::new(&mut rand_core::OsRng, 256).unwrap();
    assert!(sign_message(&tiny, b"hello world").is_err());
}

#[test]
fn test_sign_message() {
    let sk = gen_key_of_size(1024).unwrap();
    let msg = b"hello world";
    let sig = sign_message(&sk, msg).unwrap();
    let pk = to_public_key(&sk);
    let verified = verify_signature(&pk, msg, &signature_from_bytes(&sig).unwrap());
    assert!(verified);
    let sk2 = gen_key_of_size(1024).unwrap();
    let pk = to_public_key(&sk2);
    let verified2 = verify_signature(&pk, msg, &signature_from_bytes(&sig).unwrap());
    assert!(!verified2)
}
