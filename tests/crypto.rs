use base64::engine::general_purpose::STANDARD as BASE64;
use base64::Engine;
use chacha20poly1305::aead::{Aead, KeyInit};
use chacha20poly1305::{ChaCha20Poly1305, Key, Nonce};
use rsa::pkcs8::{DecodePublicKey, EncodePrivateKey};
use rsa::{Oaep, RsaPrivateKey, RsaPublicKey};
use sha2::Sha256;
use tee_redactor::crypto::{
    generate_session_key, open_envelope, seal_envelope, seal_envelope_fresh, wrap_session_key,
    CryptoService,
};
use tee_redactor::error::GatewayError;

fn small_service() -> CryptoService {
    let key = RsaPrivateKey::new(&mut rand::rngs::OsRng, 1024).unwrap();
    CryptoService::from_private_key(key.to_pkcs8_der().unwrap().as_bytes().to_vec()).unwrap()
}

fn wrap(service: &CryptoService, session_key: &[u8]) -> String {
    let pem = service.get_public_key().unwrap();
    let public = RsaPublicKey::from_public_key_pem(&pem).unwrap();
    let wrapped = public
        .encrypt(&mut rand::rngs::OsRng, Oaep::new::<Sha256>(), session_key)
        .unwrap();
    BASE64.encode(wrapped)
}

#[test]
fn test_public_key_export() {
    let crypto = CryptoService::new().unwrap();
    let public_key = crypto.get_public_key().unwrap();

    assert!(public_key.starts_with("-----BEGIN PUBLIC KEY-----"));
    assert!(public_key.ends_with("-----END PUBLIC KEY-----\n"));
    assert_eq!(crypto.key_size_bits(), Some(2048));
    let session_key = [0x42u8; 32];
    let wrapped = wrap_session_key(&public_key, &session_key).unwrap();
    assert_eq!(crypto.decrypt_session_key(&wrapped).unwrap(), session_key.to_vec());
}

#[test]
fn test_file_encryption_decryption() {
    let crypto = small_service();
    let test_data = "Hello, World! This is a test message.";
    let session_key = [1u8; 32];

    // Client side: seal under the session key, nonce in front of the sealed bytes.
    let nonce_bytes = [0u8; 12];
    let nonce = Nonce::from_slice(&nonce_bytes);
    let key = Key::from_slice(&session_key);
    let cipher = ChaCha20Poly1305::new(key);
    let encrypted = cipher.encrypt(nonce, test_data.as_bytes()).unwrap();
    let mut framed = nonce_bytes.to_vec();
    framed.extend_from_slice(&encrypted);
    let encrypted_b64 = BASE64.encode(&framed);

    let decrypted = crypto
        .decrypt_file_with_session_key(&encrypted_b64, &session_key)
        .unwrap();

    assert_eq!(test_data, decrypted);
}

#[test]
fn public_key_is_stable() {
    let crypto = small_service();
    assert_eq!(crypto.get_public_key().unwrap(), crypto.get_public_key().unwrap());
}

#[test]
fn key_wrap_round_trip() {
    let crypto = small_service();
    let session_key: Vec<u8> = (0u8..32).collect();
    let wrapped = wrap(&crypto, &session_key);
    assert_eq!(crypto.decrypt_session_key(&wrapped).unwrap(), session_key);
}

#[test]
fn full_handshake_hello_world() {
    let crypto = small_service();
    let session_key = [7u8; 32];
    let wrapped = wrap(&crypto, &session_key);
    let unwrapped = crypto.decrypt_session_key(&wrapped).unwrap();
    assert_eq!(unwrapped, session_key.to_vec());

    let envelope = seal_envelope_fresh(&unwrapped, "hello world").unwrap();
    let plain = crypto.decrypt_file_with_session_key(&envelope, &unwrapped).unwrap();
    assert_eq!(plain.as_bytes(), b"hello world");
}

#[test]
fn seal_envelope_matches_chacha_output() {
    let key = [3u8; 32];
    let nonce = [9u8; 12];
    let envelope = seal_envelope(&key, &nonce, "abc").unwrap();
    let cipher = ChaCha20Poly1305::new(Key::from_slice(&key));
    let sealed = cipher.encrypt(Nonce::from_slice(&nonce), b"abc".as_ref()).unwrap();
    let mut framed = nonce.to_vec();
    framed.extend_from_slice(&sealed);
    assert_eq!(envelope, BASE64.encode(&framed));
    assert_ne!(envelope, "abc");
}

#[test]
fn seal_rejects_bad_lengths() {
    assert_eq!(seal_envelope(&[0u8; 31], &[0u8; 12], "x"), Err(GatewayError::Cryptographic));
    assert_eq!(seal_envelope(&[0u8; 32], &[0u8; 11], "x"), Err(GatewayError::Cryptographic));
}

#[test]
fn round_trip_with_fixed_nonce() {
    let crypto = small_service();
    let key = [5u8; 32];
    for text in ["", "a", "ünïcödé ✓", "line one\nline two"] {
        let envelope = seal_envelope(&key, &[1u8; 12], text).unwrap();
        assert_eq!(crypto.decrypt_file_with_session_key(&envelope, &key).unwrap(), text);
    }
}

#[test]
fn fresh_nonces_differ() {
    let key = generate_session_key().unwrap();
    assert_eq!(key.len(), 32);
    let a = seal_envelope_fresh(&key, "same text").unwrap();
    let b = seal_envelope_fresh(&key, "same text").unwrap();
    assert_ne!(a, b);
}

#[test]
fn non_base64_session_key_is_encoding_error() {
    let crypto = small_service();
    assert_eq!(crypto.decrypt_session_key("not base64 !!"), Err(GatewayError::Encoding));
    assert_eq!(crypto.decrypt_session_key("abc"), Err(GatewayError::Encoding));
}

#[test]
fn garbage_wrapped_key_is_cryptographic_error() {
    let crypto = small_service();
    let garbage = BASE64.encode([42u8; 20]);
    assert_eq!(crypto.decrypt_session_key(&garbage), Err(GatewayError::Cryptographic));
}

#[test]
fn non_base64_envelope_is_encoding_error() {
    let crypto = small_service();
    assert_eq!(
        crypto.decrypt_file_with_session_key("%%% not base64", &[0u8; 32]),
        Err(GatewayError::Encoding)
    );
}

#[test]
fn tampered_envelope_is_cryptographic_error() {
    let crypto = small_service();
    let key = [8u8; 32];
    let envelope = seal_envelope(&key, &[2u8; 12], "secret").unwrap();
    let mut bytes = BASE64.decode(&envelope).unwrap();
    let last = bytes.len() - 1;
    bytes[last] ^= 1;
    let tampered = BASE64.encode(&bytes);
    assert_eq!(
        crypto.decrypt_file_with_session_key(&tampered, &key),
        Err(GatewayError::Cryptographic)
    );
    assert_eq!(
        crypto.decrypt_file_with_session_key(&envelope, &[9u8; 32]),
        Err(GatewayError::Cryptographic)
    );
}

#[test]
fn short_envelope_and_wrong_key_length_are_cryptographic_errors() {
    let crypto = small_service();
    let short = BASE64.encode([0u8; 5]);
    assert_eq!(
        crypto.decrypt_file_with_session_key(&short, &[0u8; 32]),
        Err(GatewayError::Cryptographic)
    );
    let envelope = seal_envelope(&[4u8; 32], &[0u8; 12], "x").unwrap();
    assert_eq!(
        crypto.decrypt_file_with_session_key(&envelope, &[4u8; 16]),
        Err(GatewayError::Cryptographic)
    );
}

#[test]
fn invalid_utf8_plaintext_is_encoding_error() {
    let crypto = small_service();
    let key = [6u8; 32];
    let nonce = [0u8; 12];
    let cipher = ChaCha20Poly1305::new(Key::from_slice(&key));
    let sealed = cipher.encrypt(Nonce::from_slice(&nonce), [0xffu8, 0xfe].as_ref()).unwrap();
    let mut framed = nonce.to_vec();
    framed.extend_from_slice(&sealed);
    assert_eq!(
        crypto.decrypt_file_with_session_key(&BASE64.encode(&framed), &key),
        Err(GatewayError::Encoding)
    );
}

#[test]
fn library_wrap_unwraps_under_service_key() {
    let crypto = small_service();
    let pem = crypto.get_public_key().unwrap();
    let session_key = generate_session_key().unwrap();
    let wrapped = wrap_session_key(&pem, &session_key).unwrap();
    assert_ne!(wrapped.as_bytes(), session_key.as_slice());
    assert_eq!(crypto.decrypt_session_key(&wrapped).unwrap(), session_key);
    assert_eq!(crypto.key_size_bits(), Some(1024));
}

#[test]
fn wrap_under_other_key_does_not_unwrap() {
    let crypto = small_service();
    let other = small_service();
    let wrapped = wrap_session_key(&other.get_public_key().unwrap(), &[1u8; 32]).unwrap();
    assert_eq!(crypto.decrypt_session_key(&wrapped), Err(GatewayError::Cryptographic));
    assert_eq!(wrap_session_key("not a pem", &[1u8; 32]), Err(GatewayError::Cryptographic));
}

#[test]
fn bad_private_key_bytes_are_refused() {
    assert!(matches!(CryptoService::from_private_key(vec![1, 2, 3]), Err(GatewayError::Internal)));
}

#[test]
fn envelope_shorter_than_nonce_and_tag_is_rejected() {
    let short = BASE64.encode([0u8; 27]);
    assert_eq!(open_envelope(&short, &[0u8; 32]), Err(GatewayError::Cryptographic));
    let envelope = seal_envelope(&[0u8; 32], &[0u8; 12], "").unwrap();
    assert_eq!(BASE64.decode(&envelope).unwrap().len(), 28);
    assert_eq!(open_envelope(&envelope, &[0u8; 32]), Ok(String::new()));
}
