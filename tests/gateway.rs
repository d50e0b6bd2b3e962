use base64::engine::general_purpose::STANDARD as BASE64;
use base64::Engine;
use rsa::pkcs8::{DecodePublicKey, EncodePrivateKey};
use rsa::{Oaep, RsaPrivateKey, RsaPublicKey};
use sha2::Sha256;
use tee_redactor::crypto::{seal_envelope, CryptoService};
use tee_redactor::error::GatewayError;
use tee_redactor::gateway::{
    begin_upload, download, finish_upload, new_file_id, open_upload, stored_file_name,
    UploadRequest,
};
use tee_redactor::redaction::{interpret_redaction_reply, is_success, redaction_outcome};
use tee_redactor::storage::FileStorage;

fn service() -> CryptoService {
    let key = RsaPrivateKey::new(&mut rand::rngs::OsRng, 1024).unwrap();
    CryptoService::from_private_key(key.to_pkcs8_der().unwrap().as_bytes().to_vec()).unwrap()
}

fn request(crypto: &CryptoService, text: &str, name: Option<&str>, strategy: Option<&str>) -> UploadRequest {
    let session_key = [11u8; 32];
    let pem = crypto.get_public_key().unwrap();
    let public = RsaPublicKey::from_public_key_pem(&pem).unwrap();
    let wrapped = public
        .encrypt(&mut rand::rngs::OsRng, Oaep::new::<Sha256>(), &session_key)
        .unwrap();
    UploadRequest {
        encrypted_data: seal_envelope(&session_key, &[3u8; 12], text).unwrap(),
        encrypted_session_key: BASE64.encode(wrapped),
        file_name: name.map(|n| n.to_string()),
        redaction_strategy: strategy.map(|s| s.to_string()),
    }
}

#[test]
fn stored_name_composition() {
    assert_eq!(stored_file_name("report", "mask", "abc"), "report_mask_redacted_abc.txt");
    assert_eq!(stored_file_name("", "", ""), "__redacted_.txt");
}

#[test]
fn file_ids_are_fresh_uuids() {
    let a = new_file_id().unwrap();
    let b = new_file_id().unwrap();
    assert_eq!(a.len(), 36);
    assert_eq!(a.as_bytes()[14], b'4');
    assert_eq!(a.matches('-').count(), 4);
    assert_ne!(a, b);
}

#[test]
fn upload_then_download() {
    let crypto = service();
    let mut store = FileStorage::new();
    let req = request(&crypto, "my secret text", Some("notes"), Some("mask"));
    let pending = begin_upload(&crypto, &req, "id-1".to_string()).unwrap();
    assert_eq!(pending.plaintext, "my secret text");
    assert_eq!(pending.strategy, "mask");
    assert_eq!(pending.display_name, "notes");
    let receipt = finish_upload(&mut store, pending, Ok("my <REDACTED> text".to_string())).unwrap();
    assert_eq!(receipt.file_id, "id-1");
    assert_eq!(receipt.filename, "notes_mask_redacted_id-1.txt");
    assert_eq!(
        download(&store, "id-1"),
        Ok(("notes_mask_redacted_id-1.txt".to_string(), "my <REDACTED> text".to_string()))
    );
}

#[test]
fn upload_defaults_name_and_strategy() {
    let crypto = service();
    let req = request(&crypto, "x", None, None);
    let pending = begin_upload(&crypto, &req, "id".to_string()).unwrap();
    assert_eq!(pending.strategy, "replace");
    assert_eq!(pending.display_name, "file");
    let mut store = FileStorage::new();
    let receipt = finish_upload(&mut store, pending, Ok("x".to_string())).unwrap();
    assert_eq!(receipt.filename, "file_replace_redacted_id.txt");
}

#[test]
fn redaction_failure_stores_nothing() {
    let crypto = service();
    let mut store = FileStorage::new();
    let req = request(&crypto, "hello", None, None);
    let pending = begin_upload(&crypto, &req, "id-500".to_string()).unwrap();
    let reply = interpret_redaction_reply(500, "internal error");
    assert_eq!(reply, Err(GatewayError::Upstream));
    let outcome = finish_upload(&mut store, pending, reply);
    assert!(matches!(outcome, Err(GatewayError::Upstream)));
    assert_eq!(outcome.err().unwrap().status_code(), 500);
    assert_eq!(download(&store, "id-500"), Err(GatewayError::NotFound));
}

#[test]
fn two_uploads_are_independent() {
    let crypto = service();
    let mut store = FileStorage::new();
    let first = begin_upload(&crypto, &request(&crypto, "first", Some("a"), None), new_file_id().unwrap()).unwrap();
    let second = begin_upload(&crypto, &request(&crypto, "second", Some("b"), None), new_file_id().unwrap()).unwrap();
    let r1 = finish_upload(&mut store, first, Ok("first redacted".to_string())).unwrap();
    let r2 = finish_upload(&mut store, second, Ok("second redacted".to_string())).unwrap();
    assert_ne!(r1.file_id, r2.file_id);
    assert_eq!(download(&store, &r1.file_id).unwrap().1, "first redacted");
    assert_eq!(download(&store, &r2.file_id).unwrap().1, "second redacted");
}

#[test]
fn upload_with_malformed_inputs() {
    let crypto = service();
    let mut req = request(&crypto, "x", None, None);
    req.encrypted_session_key = "***".to_string();
    assert!(matches!(begin_upload(&crypto, &req, "i".to_string()), Err(GatewayError::Encoding)));
    let mut req = request(&crypto, "x", None, None);
    req.encrypted_data = "not base64!".to_string();
    assert!(matches!(begin_upload(&crypto, &req, "i".to_string()), Err(GatewayError::Encoding)));
    let mut req = request(&crypto, "x", None, None);
    req.encrypted_session_key = BASE64.encode([1u8; 10]);
    assert!(matches!(begin_upload(&crypto, &req, "i".to_string()), Err(GatewayError::Cryptographic)));
}

#[test]
fn download_unknown_is_not_found() {
    let store = FileStorage::new();
    let r = download(&store, "nope");
    assert_eq!(r, Err(GatewayError::NotFound));
    assert_eq!(GatewayError::NotFound.status_code(), 404);
}

#[test]
fn status_codes() {
    assert_eq!(GatewayError::Encoding.status_code(), 400);
    assert_eq!(GatewayError::Cryptographic.status_code(), 400);
    assert_eq!(GatewayError::Upstream.status_code(), 500);
    assert_eq!(GatewayError::Internal.status_code(), 500);
    assert_eq!(GatewayError::NotFound.message(), "File not found");
    assert_eq!(GatewayError::Encoding.message(), "malformed encoding");
}

#[test]
fn redaction_reply_decisions() {
    assert!(is_success(200));
    assert!(is_success(299));
    assert!(!is_success(199));
    assert!(!is_success(300));
    assert_eq!(redaction_outcome(200, Some("t".to_string())), Ok("t".to_string()));
    assert_eq!(redaction_outcome(200, None), Err(GatewayError::Upstream));
    assert_eq!(redaction_outcome(404, Some("t".to_string())), Err(GatewayError::Upstream));
}

#[test]
fn redaction_reply_parsing() {
    assert_eq!(
        interpret_redaction_reply(200, r#"{"redacted_text": "My name is <PERSON>"}"#),
        Ok("My name is <PERSON>".to_string())
    );
    assert_eq!(interpret_redaction_reply(200, "not json"), Err(GatewayError::Upstream));
    assert_eq!(interpret_redaction_reply(200, r#"{"other": "x"}"#), Err(GatewayError::Upstream));
    assert_eq!(interpret_redaction_reply(200, r#"{"redacted_text": 5}"#), Err(GatewayError::Upstream));
    assert_eq!(
        interpret_redaction_reply(503, r#"{"redacted_text": "x"}"#),
        Err(GatewayError::Upstream)
    );
}

#[test]
fn open_upload_with_known_session_key() {
    let crypto = service();
    let key = [21u8; 32];
    let req = UploadRequest {
        encrypted_data: seal_envelope(&key, &[0u8; 12], "payload").unwrap(),
        encrypted_session_key: String::new(),
        file_name: Some("doc".to_string()),
        redaction_strategy: Some("hash".to_string()),
    };
    let pending = open_upload(&crypto, &req, "fid".to_string(), &key).unwrap();
    assert_eq!(pending.plaintext, "payload");
    assert_eq!(pending.file_id, "fid");
    assert_eq!(pending.strategy, "hash");
    assert_eq!(pending.display_name, "doc");
    assert!(matches!(
        open_upload(&crypto, &req, "fid".to_string(), &[22u8; 32]),
        Err(GatewayError::Cryptographic)
    ));
}
