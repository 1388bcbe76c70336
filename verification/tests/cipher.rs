use carapace::ski::{decrypt_gcm, encrypt_gcm, gen_key, nonce};
use carapace::CryptoError;

#[test]
fn test_encrypt_decrypt_gcm() {
    let pt = b"Hello, world!";
    let key = gen_key();
    let n = nonce();
    let ct = encrypt_gcm(pt, &key, &n).unwrap();
    let pt2 = decrypt_gcm(&ct, &key, &n).unwrap();
    assert_eq!(pt, pt2.as_slice());
}

#[test]
fn test_decrypt_wrong_key_fails() {
    let pt = b"attack at dawn";
    let key = gen_key();
    let other_key = gen_key();
    let n = nonce();
    let ct = encrypt_gcm(pt, &key, &n).unwrap();
    let r = decrypt_gcm(&ct, &other_key, &n);
    assert_eq!(r, Err(CryptoError::AuthenticationFailure));
}

#[test]
fn test_decrypt_tampered_ciphertext_fails() {
    let pt = b"attack at dawn";
    let key = gen_key();
    let n = nonce();
    let mut ct = encrypt_gcm(pt, &key, &n).unwrap();
    ct[0] ^= 0x01;
    let r = decrypt_gcm(&ct, &key, &n);
    assert_eq!(r, Err(CryptoError::AuthenticationFailure));
}

#[test]
fn test_decrypt_wrong_nonce_fails() {
    let pt = b"attack at dawn";
    let key = gen_key();
    let n = nonce();
    let n2 = nonce();
    assert_ne!(n, n2);
    let ct = encrypt_gcm(pt, &key, &n).unwrap();
    let r = decrypt_gcm(&ct, &key, &n2);
    assert_eq!(r, Err(CryptoError::AuthenticationFailure));
}

#[test]
fn test_passphrase_key_material() {
    // Key material of any length is accepted: a human passphrase works.
    let pt = b"record";
    let pass = b"correct horse battery staple";
    let n = nonce();
    let ct = encrypt_gcm(pt, pass, &n).unwrap();
    assert_eq!(ct.len(), pt.len() + 16);
    assert_eq!(decrypt_gcm(&ct, pass, &n).unwrap(), pt.to_vec());
}

#[test]
fn test_empty_plaintext_round_trip() {
    let key = gen_key();
    let n = nonce();
    let ct = encrypt_gcm(b"", &key, &n).unwrap();
    assert_eq!(ct.len(), 16);
    assert_eq!(decrypt_gcm(&ct, &key, &n).unwrap(), Vec::<u8>::new());
}

#[test]
fn test_generator_lengths() {
    assert_eq!(nonce().len(), 12);
    assert_eq!(gen_key().len(), 32);
}
