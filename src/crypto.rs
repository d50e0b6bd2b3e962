use vstd::prelude::*;
use vstd::utf8::{decode_utf8, decode_utf8_encode_utf8, encode_utf8, encode_utf8_decode_utf8,
    encode_utf8_valid_utf8, valid_utf8};

use chacha20poly1305::aead::{Aead as _, KeyInit as _};
use rand::RngCore as _;
use rand::SeedableRng as _;
use rsa::pkcs8::{DecodePrivateKey as _, DecodePublicKey as _, EncodePrivateKey as _,
    EncodePublicKey as _};
use rsa::traits::PublicKeyParts as _;
use rsa::{RsaPrivateKey, RsaPublicKey};

use crate::encoding::{
    base64_of, concat_bytes, copy_range, decode_base64, encode_base64, utf8_to_string,
};
use crate::error::GatewayError;

verus! {

/// Length in bytes of a session key.
pub const SESSION_KEY_LEN: usize = 32;

/// Length in bytes of the nonce that prefixes each sealed envelope.
pub const NONCE_LEN: usize = 12;

/// Length in bytes of the Poly1305 tag that follows each ciphertext.
pub const TAG_LEN: usize = 16;

/// Size in bits of the modulus of the service's RSA key.
pub const RSA_BITS: usize = 2048;

/// What RSA-OAEP decryption over SHA-256 gives for a ciphertext under the
/// private key held as PKCS#8 DER bytes; `None` when the bytes are not such a
/// key or the ciphertext does not decrypt under it.
pub uninterp spec fn oaep_sha256_of(key_der: Seq<u8>, ciphertext: Seq<u8>) -> Option<Seq<u8>>;

/// The PEM text (LF line endings) of the public half of the private key held
/// as PKCS#8 DER bytes; `None` when the bytes are not such a key.
pub uninterp spec fn public_pem_of(key_der: Seq<u8>) -> Option<Seq<char>>;

/// The bit length of the modulus of the private key held as PKCS#8 DER bytes.
pub uninterp spec fn modulus_bits_of(key_der: Seq<u8>) -> Option<nat>;

/// A PEM block of a public key: the BEGIN line first, the END line and a
/// line feed last.
pub open spec fn is_public_key_pem(s: Seq<char>) -> bool {
    let begin = "-----BEGIN PUBLIC KEY-----"@;
    let end = "-----END PUBLIC KEY-----\n"@;
    &&& s.len() >= begin.len() + end.len()
    &&& s.take(begin.len() as int) == begin
    &&& s.skip(s.len() - end.len()) == end
}

/// What unwrapping a decoded wrapped key amounts to.
pub open spec fn unwrap_outcome(key_der: Seq<u8>, wrapped: Seq<u8>) -> Result<Seq<u8>, GatewayError> {
    match oaep_sha256_of(key_der, wrapped) {
        Some(k) => Ok(k),
        None => Err(GatewayError::Cryptographic),
    }
}

/// The bytes of a byte-vector result, or its error.
pub open spec fn bytes_result(r: Result<Vec<u8>, GatewayError>) -> Result<Seq<u8>, GatewayError> {
    match r {
        Ok(v) => Ok(v@),
        Err(e) => Err(e),
    }
}

/// The text of a string result, or its error.
pub open spec fn string_result(r: Result<String, GatewayError>) -> Result<Seq<char>, GatewayError> {
    match r {
        Ok(s) => Ok(s@),
        Err(e) => Err(e),
    }
}

/// Everything that opening the base64 envelope `data` with `key` owes: which
/// error comes on which input, what text comes back, and that each sealed
/// envelope opens to the text it was sealed from.
pub open spec fn envelope_outcome(
    key: Seq<u8>,
    data: Seq<char>,
    r: Result<Seq<char>, GatewayError>,
) -> bool {
    &&& (forall|b: Seq<u8>| base64_of(b) != data) ==> r == Err::<Seq<char>, GatewayError>(
        GatewayError::Encoding,
    )
    &&& forall|b: Seq<u8>|
        #[trigger] base64_of(b) == data && (forall|p: Seq<u8>| !opens_to(key, b, p)) ==> r == Err::<
            Seq<char>,
            GatewayError,
        >(GatewayError::Cryptographic)
    &&& forall|b: Seq<u8>|
        #[trigger] base64_of(b) == data && b.len() < NONCE_LEN + TAG_LEN ==> r == Err::<
            Seq<char>,
            GatewayError,
        >(GatewayError::Cryptographic)
    &&& forall|b: Seq<u8>, p: Seq<u8>|
        #[trigger] base64_of(b) == data && #[trigger] opens_to(key, b, p) && !valid_utf8(p) ==> r
            == Err::<Seq<char>, GatewayError>(GatewayError::Encoding)
    &&& r matches Ok(t) ==> exists|b: Seq<u8>|
        #[trigger] base64_of(b) == data && opens_to(key, b, encode_utf8(t))
    &&& r matches Err(e) ==> e == GatewayError::Encoding || e == GatewayError::Cryptographic
    &&& forall|n: Seq<u8>, t: Seq<char>|
        n.len() == NONCE_LEN && key.len() == SESSION_KEY_LEN && sealable(encode_utf8(t))
            && #[trigger] envelope_of(key, n, t) == data ==> r == Ok::<Seq<char>, GatewayError>(t)
}

/// The ChaCha20-Poly1305 output (ciphertext followed by its tag, no associated
/// data) for a key, a nonce and a plaintext.
pub uninterp spec fn chacha_seal(key: Seq<u8>, nonce: Seq<u8>, plaintext: Seq<u8>) -> Seq<u8>;

/// Whether ChaCha20-Poly1305 accepts a message of this length: fewer than
/// 2^32 - 1 whole blocks of 64 bytes.
pub open spec fn sealable(bytes: Seq<u8>) -> bool {
    bytes.len() / 64 < 0xffff_ffff
}

/// The text form of a sealed envelope: base64 of the nonce followed by the
/// sealed UTF-8 bytes of `text`.
pub open spec fn envelope_of(key: Seq<u8>, nonce: Seq<u8>, text: Seq<char>) -> Seq<char> {
    base64_of(nonce + chacha_seal(key, nonce, encode_utf8(text)))
}

/// Whether the decoded envelope `framed` (nonce, then sealed bytes) authenticates
/// under `key` and opens to `plain`.
pub open spec fn opens_to(key: Seq<u8>, framed: Seq<u8>, plain: Seq<u8>) -> bool {
    &&& key.len() == SESSION_KEY_LEN
    &&& framed.len() >= NONCE_LEN
    &&& sealable(plain)
    &&& chacha_seal(key, framed.take(NONCE_LEN as int), plain) == framed.skip(NONCE_LEN as int)
}

/// The framed bytes of a sealed envelope (nonce, then the sealed UTF-8 bytes
/// of `text`) authenticate under the key they were sealed with and open to
/// exactly those bytes, which read back as `text`.
pub proof fn lemma_sealed_frame_opens(key: Seq<u8>, nonce: Seq<u8>, text: Seq<char>)
    requires
        key.len() == SESSION_KEY_LEN,
        nonce.len() == NONCE_LEN,
        sealable(encode_utf8(text)),
    ensures
        opens_to(key, nonce + chacha_seal(key, nonce, encode_utf8(text)), encode_utf8(text)),
        valid_utf8(encode_utf8(text)),
        decode_utf8(encode_utf8(text)) == text,
{
    let framed = nonce + chacha_seal(key, nonce, encode_utf8(text));
    assert(framed.take(NONCE_LEN as int) == nonce);
    assert(framed.skip(NONCE_LEN as int) == chacha_seal(key, nonce, encode_utf8(text)));
    encode_utf8_valid_utf8(text);
    encode_utf8_decode_utf8(text);
}

/// Unwrapping, under a service's private key, a key that was wrapped so that
/// every holder of the service's exported public key unwraps it to `k`, gives
/// `k` back.
pub proof fn lemma_unwrap_of_wrap(service: CryptoService, wrapped: Seq<u8>, k: Seq<u8>)
    requires
        public_pem_of(service.key_der()) == Some(service.pem()),
        forall|der: Seq<u8>|
            public_pem_of(der) == Some(service.pem()) ==> #[trigger] unwrap_outcome(der, wrapped)
                == Ok::<Seq<u8>, GatewayError>(k),
    ensures
        unwrap_outcome(service.key_der(), wrapped) == Ok::<Seq<u8>, GatewayError>(k),
{
    assert(unwrap_outcome(service.key_der(), wrapped) == Ok::<Seq<u8>, GatewayError>(k));
}

/// Relies on `ChaCha20Poly1305::encrypt` with an empty associated data: the
/// output depends on key, nonce and plaintext alone, is the ciphertext (as
/// long as the plaintext) followed by a 16-byte tag, and fails only on a
/// plaintext of 2^32 - 1 blocks or more.
#[verifier::external_body]
fn aead_seal(key: &[u8], nonce: &[u8], plaintext: &[u8]) -> (r: Option<Vec<u8>>)
    requires
        key@.len() == SESSION_KEY_LEN,
        nonce@.len() == NONCE_LEN,
    ensures
        r is Some <==> sealable(plaintext@),
        r is Some ==> r->0@ == chacha_seal(key@, nonce@, plaintext@),
        r is Some ==> r->0@.len() == plaintext@.len() + TAG_LEN,
{
    let cipher = chacha20poly1305::ChaCha20Poly1305::new(chacha20poly1305::Key::from_slice(key));
    cipher.encrypt(chacha20poly1305::Nonce::from_slice(nonce), plaintext).ok()
}

/// Relies on `ChaCha20Poly1305::decrypt` with an empty associated data: it
/// succeeds exactly on what `encrypt` produced under the same key and nonce,
/// and then gives back that plaintext, 16 bytes shorter than its input.
#[verifier::external_body]
fn aead_open(key: &[u8], nonce: &[u8], sealed: &[u8]) -> (r: Option<Vec<u8>>)
    requires
        key@.len() == SESSION_KEY_LEN,
        nonce@.len() == NONCE_LEN,
    ensures
        r is Some ==> sealable(r->0@) && chacha_seal(key@, nonce@, r->0@) == sealed@,
        r is Some ==> sealed@.len() == r->0@.len() + TAG_LEN,
        forall|p: Seq<u8>|
            sealable(p) && #[trigger] chacha_seal(key@, nonce@, p) == sealed@
                ==> r is Some && r->0@ == p,
{
    let cipher = chacha20poly1305::ChaCha20Poly1305::new(chacha20poly1305::Key::from_slice(key));
    cipher.decrypt(chacha20poly1305::Nonce::from_slice(nonce), sealed).ok()
}

/// Relies on `OsRng::try_fill_bytes`: `len` bytes from the operating system's
/// generator, or `None` when it fails.
#[verifier::external_body]
pub(crate) fn random_bytes(len: usize) -> (r: Option<Vec<u8>>)
    ensures
        r matches Some(v) ==> v@.len() == len,
{
    let mut buf = vec![0u8; len];
    rand::rngs::OsRng.try_fill_bytes(&mut buf).ok().map(|_| buf)
}

/// Relies on `RsaPrivateKey::new` driven by an `StdRng` seeded with `seed`,
/// which retries until the modulus has exactly `bits` bits, and on
/// `EncodePrivateKey::to_pkcs8_der` for the key's bytes.
#[verifier::external_body]
fn generate_rsa_key_der(seed: &[u8], bits: usize) -> (r: Option<Vec<u8>>)
    requires
        seed@.len() == 32,
        bits >= 1024,
    ensures
        r is Some ==> modulus_bits_of(r->0@) == Some(bits as nat),
{
    let mut s = [0u8; 32];
    s.copy_from_slice(seed);
    let key = RsaPrivateKey::new(&mut rand::rngs::StdRng::from_seed(s), bits).ok()?;
    Some(key.to_pkcs8_der().ok()?.as_bytes().to_vec())
}

/// Relies on `DecodePrivateKey::from_pkcs8_der` and the bit length of the
/// key's modulus `n`.
#[verifier::external_body]
fn modulus_bits(key_der: &[u8]) -> (r: Option<usize>)
    ensures
        r is Some <==> modulus_bits_of(key_der@) is Some,
        r is Some ==> modulus_bits_of(key_der@) == Some(r->0 as nat),
{
    Some(RsaPrivateKey::from_pkcs8_der(key_der).ok()?.n().bits())
}

/// Relies on `DecodePrivateKey::from_pkcs8_der`, `RsaPublicKey::from` and
/// `EncodePublicKey::to_public_key_pem` with LF line endings, whose PEM
/// encoder writes the BEGIN and END PUBLIC KEY lines around the body.
#[verifier::external_body]
fn public_key_pem(key_der: &[u8]) -> (r: Option<String>)
    ensures
        r is Some <==> public_pem_of(key_der@) is Some,
        r is Some ==> public_pem_of(key_der@) == Some(r->0@),
        r is Some ==> is_public_key_pem(r->0@),
{
    let key = RsaPrivateKey::from_pkcs8_der(key_der).ok()?;
    RsaPublicKey::from(&key).to_public_key_pem(rsa::pkcs8::LineEnding::LF).ok()
}

/// Relies on `DecodePrivateKey::from_pkcs8_der`, then `RsaPrivateKey::decrypt`
/// with OAEP padding over SHA-256.
#[verifier::external_body]
fn oaep_sha256_decrypt(key_der: &[u8], ciphertext: &[u8]) -> (r: Option<Vec<u8>>)
    ensures
        r is Some <==> oaep_sha256_of(key_der@, ciphertext@) is Some,
        r is Some ==> oaep_sha256_of(key_der@, ciphertext@) == Some(r->0@),
{
    let key = RsaPrivateKey::from_pkcs8_der(key_der).ok()?;
    key.decrypt(rsa::Oaep::new::<sha2::Sha256>(), ciphertext).ok()
}

/// Relies on `DecodePublicKey::from_public_key_pem`, then `RsaPublicKey::encrypt`
/// with OAEP padding over SHA-256, driven by an `StdRng` seeded with `seed`:
/// every private key whose public half is that PEM decrypts the output back
/// to `message`.
#[verifier::external_body]
fn oaep_sha256_encrypt(public_pem: &str, seed: &[u8], message: &[u8]) -> (r: Option<Vec<u8>>)
    requires
        seed@.len() == 32,
    ensures
        r is Some ==> forall|der: Seq<u8>|
            public_pem_of(der) == Some(public_pem@) ==> #[trigger] oaep_sha256_of(der, r->0@)
                == Some(message@),
{
    let key = RsaPublicKey::from_public_key_pem(public_pem).ok()?;
    let mut s = [0u8; 32];
    s.copy_from_slice(seed);
    let mut rng = rand::rngs::StdRng::from_seed(s);
    key.encrypt(&mut rng, rsa::Oaep::new::<sha2::Sha256>(), message).ok()
}

/// Seals `text` under `key` with `nonce`, and frames the nonce in front of the
/// sealed bytes as one base64 envelope.
pub fn seal_envelope(key: &[u8], nonce: &[u8], text: &str) -> (r: Result<String, GatewayError>)
    ensures
        r is Ok <==> key@.len() == SESSION_KEY_LEN && nonce@.len() == NONCE_LEN && sealable(
            encode_utf8(text@),
        ),
        r matches Ok(e) ==> e@ == envelope_of(key@, nonce@, text@),
        r matches Err(e) ==> e == GatewayError::Cryptographic,
{
    if key.len() != SESSION_KEY_LEN || nonce.len() != NONCE_LEN {
        return Err(GatewayError::Cryptographic);
    }
    let plain = text.as_bytes();
    match aead_seal(key, nonce, plain) {
        Some(sealed) => {
            let framed = concat_bytes(nonce, sealed.as_slice());
            Ok(encode_base64(framed.as_slice()))
        },
        None => Err(GatewayError::Cryptographic),
    }
}

/// Seals `text` under `key` with a nonce freshly drawn from the operating system.
pub fn seal_envelope_fresh(key: &[u8], text: &str) -> (r: Result<String, GatewayError>)
    ensures
        r matches Ok(e) ==> exists|n: Seq<u8>|
            n.len() == NONCE_LEN && e@ == envelope_of(key@, n, text@),
        r matches Err(e) ==> e == GatewayError::Cryptographic || e == GatewayError::Internal,
{
    match random_bytes(NONCE_LEN) {
        Some(nonce) => seal_envelope(key, nonce.as_slice(), text),
        None => Err(GatewayError::Internal),
    }
}

/// A fresh random session key drawn from the operating system.
pub fn generate_session_key() -> (r: Result<Vec<u8>, GatewayError>)
    ensures
        r matches Ok(k) ==> k@.len() == SESSION_KEY_LEN,
        r matches Err(e) ==> e == GatewayError::Internal,
{
    match random_bytes(SESSION_KEY_LEN) {
        Some(k) => Ok(k),
        None => Err(GatewayError::Internal),
    }
}

/// Wraps a session key under a public key given as PEM text: RSA-OAEP over
/// SHA-256, base64-encoded. The result unwraps to `session_key` under every
/// private key whose public half is `public_pem`.
pub fn wrap_session_key(public_pem: &str, session_key: &[u8]) -> (r: Result<String, GatewayError>)
    ensures
        r matches Ok(w) ==> exists|c: Seq<u8>|
            base64_of(c) == w@ && forall|der: Seq<u8>|
                public_pem_of(der) == Some(public_pem@) ==> #[trigger] unwrap_outcome(der, c) == Ok::<
                    Seq<u8>,
                    GatewayError,
                >(session_key@),
        r matches Err(e) ==> e == GatewayError::Cryptographic || e == GatewayError::Internal,
{
    let seed = match random_bytes(32) {
        Some(s) => s,
        None => return Err(GatewayError::Internal),
    };
    match oaep_sha256_encrypt(public_pem, seed.as_slice(), session_key) {
        Some(c) => {
            let w = encode_base64(c.as_slice());
            proof {
                assert forall|der: Seq<u8>|
                    public_pem_of(der) == Some(public_pem@) implies #[trigger] unwrap_outcome(der, c@)
                    == Ok::<Seq<u8>, GatewayError>(session_key@) by {
                    assert(oaep_sha256_of(der, c@) == Some(session_key@));
                }
            }
            Ok(w)
        },
        None => Err(GatewayError::Cryptographic),
    }
}

/// Opens a base64 envelope (nonce, then ChaCha20-Poly1305 output) with
/// `session_key` and reads the plaintext as UTF-8 text.
#[verifier::rlimit(50)]
pub fn open_envelope(encrypted_data: &str, session_key: &[u8]) -> (r: Result<String, GatewayError>)
    ensures
        ((forall|b: Seq<u8>| base64_of(b) != encrypted_data@) ==> string_result(r) == Err::<Seq<char>, GatewayError>( GatewayError::Encoding, )),
        (forall|b: Seq<u8>| #[trigger] base64_of(b) == encrypted_data@ && (forall|p: Seq<u8>| !opens_to(session_key@, b, p)) ==> string_result(r) == Err::< Seq<char>, GatewayError, >(GatewayError::Cryptographic)),
        (forall|b: Seq<u8>| #[trigger] base64_of(b) == encrypted_data@ && b.len() < NONCE_LEN + TAG_LEN ==> string_result(r) == Err::< Seq<char>, GatewayError, >(GatewayError::Cryptographic)),
        (forall|b: Seq<u8>, p: Seq<u8>| #[trigger] base64_of(b) == encrypted_data@ && #[trigger] opens_to(session_key@, b, p) && !valid_utf8(p) ==> string_result(r) == Err::<Seq<char>, GatewayError>(GatewayError::Encoding)),
        (string_result(r) matches Ok(t) ==> exists|b: Seq<u8>| #[trigger] base64_of(b) == encrypted_data@ && opens_to(session_key@, b, encode_utf8(t))),
        (string_result(r) matches Err(e) ==> e == GatewayError::Encoding || e == GatewayError::Cryptographic),
        (forall|n: Seq<u8>, t: Seq<char>| n.len() == NONCE_LEN && session_key@.len() == SESSION_KEY_LEN && sealable(encode_utf8(t)) && #[trigger] envelope_of(session_key@, n, t) == encrypted_data@ ==> string_result(r) == Ok::<Seq<char>, GatewayError>(t)),
{
    let framed = match decode_base64(encrypted_data) {
        None => return Err(GatewayError::Encoding),
        Some(b) => b,
    };
    assert(base64_of(framed@) == encrypted_data@);
    if session_key.len() != SESSION_KEY_LEN || framed.len() < NONCE_LEN {
        return Err(GatewayError::Cryptographic);
    }
    let nonce = copy_range(framed.as_slice(), 0, NONCE_LEN);
    let sealed = copy_range(framed.as_slice(), NONCE_LEN, framed.len());
    assert(nonce@ == framed@.take(NONCE_LEN as int));
    assert(sealed@ == framed@.skip(NONCE_LEN as int));
    proof {
        assert forall|n: Seq<u8>, t: Seq<char>|
            n.len() == NONCE_LEN && sealable(encode_utf8(t)) && #[trigger] envelope_of(
                session_key@,
                n,
                t,
            ) == encrypted_data@ implies nonce@ == n && sealed@ == chacha_seal(
            session_key@,
            n,
            encode_utf8(t),
        ) by {
            let whole = n + chacha_seal(session_key@, n, encode_utf8(t));
            assert(base64_of(whole) == encrypted_data@);
            assert(whole == framed@);
            assert(whole.take(NONCE_LEN as int) == n);
            assert(whole.skip(NONCE_LEN as int) == chacha_seal(session_key@, n, encode_utf8(t)));
        }
    }
    let plain = match aead_open(session_key, nonce.as_slice(), sealed.as_slice()) {
        None => {
            proof {
                assert forall|p: Seq<u8>| !opens_to(session_key@, framed@, p) by {
                    if opens_to(session_key@, framed@, p) {
                        assert(chacha_seal(session_key@, nonce@, p) == sealed@);
                    }
                }
                assert forall|n: Seq<u8>, t: Seq<char>|
                    n.len() == NONCE_LEN && sealable(encode_utf8(t)) implies #[trigger] envelope_of(
                        session_key@,
                        n,
                        t,
                    ) != encrypted_data@ by {
                    if envelope_of(session_key@, n, t) == encrypted_data@ {
                        assert(chacha_seal(session_key@, nonce@, encode_utf8(t)) == sealed@);
                    }
                }
            }
            return Err(GatewayError::Cryptographic);
        },
        Some(p) => p,
    };
    assert(opens_to(session_key@, framed@, plain@));
    let ghost plain_bytes = plain@;
    proof {
        assert forall|p: Seq<u8>| #[trigger] opens_to(session_key@, framed@, p) implies p
            == plain_bytes by {
            assert(chacha_seal(session_key@, nonce@, p) == sealed@);
        }
    }
    match utf8_to_string(plain) {
        Some(s) => {
            proof {
                decode_utf8_encode_utf8(plain_bytes);
                assert forall|n: Seq<u8>, t: Seq<char>|
                    n.len() == NONCE_LEN && sealable(encode_utf8(t)) && #[trigger] envelope_of(
                        session_key@,
                        n,
                        t,
                    ) == encrypted_data@ implies s@ == t by {
                    assert(chacha_seal(session_key@, nonce@, encode_utf8(t)) == sealed@);
                    encode_utf8_decode_utf8(t);
                }
                assert(opens_to(session_key@, framed@, encode_utf8(s@)));
            }
            let ghost text = s@;
            let r = Ok(s);
            assert(string_result(r) == Ok::<Seq<char>, GatewayError>(text));
            assert(exists|b: Seq<u8>|
                base64_of(b) == encrypted_data@ && #[trigger] opens_to(
                    session_key@,
                    b,
                    encode_utf8(text),
                ));
            r
        },
        None => {
            proof {
                assert forall|n: Seq<u8>, t: Seq<char>|
                    n.len() == NONCE_LEN && sealable(encode_utf8(t)) implies #[trigger] envelope_of(
                        session_key@,
                        n,
                        t,
                    ) != encrypted_data@ by {
                    if envelope_of(session_key@, n, t) == encrypted_data@ {
                        assert(chacha_seal(session_key@, nonce@, encode_utf8(t)) == sealed@);
                        encode_utf8_valid_utf8(t);
                    }
                }
            }
            Err(GatewayError::Encoding)
        },
    }
}

/// Holds the service's RSA private key, as PKCS#8 DER bytes, and the PEM text
/// of its public half.
pub struct CryptoService {
    key_der: Vec<u8>,
    public_pem: String,
}

impl CryptoService {
    /// The private key, as PKCS#8 DER bytes.
    pub closed spec fn key_der(&self) -> Seq<u8> {
        self.key_der@
    }

    /// The exported public key, fixed for the lifetime of the service.
    pub closed spec fn pem(&self) -> Seq<char> {
        self.public_pem@
    }

    /// The exported key is the public half of the held private key, in PEM form.
    #[verifier::type_invariant]
    spec fn inv(&self) -> bool {
        &&& public_pem_of(self.key_der@) == Some(self.public_pem@)
        &&& is_public_key_pem(self.public_pem@)
    }

    /// A service with a freshly generated 2048-bit RSA keypair.
    pub fn new() -> (r: Result<Self, GatewayError>)
        ensures
            r matches Ok(s) ==> {
                &&& modulus_bits_of(s.key_der()) == Some(RSA_BITS as nat)
                &&& public_pem_of(s.key_der()) == Some(s.pem())
                &&& is_public_key_pem(s.pem())
            },
            r matches Err(e) ==> e == GatewayError::Internal,
    {
        let seed = match random_bytes(32) {
            Some(s) => s,
            None => return Err(GatewayError::Internal),
        };
        match generate_rsa_key_der(seed.as_slice(), RSA_BITS) {
            Some(der) => Self::from_private_key(der),
            None => Err(GatewayError::Internal),
        }
    }

    /// A service around a private key given as PKCS#8 DER bytes.
    pub fn from_private_key(key_der: Vec<u8>) -> (r: Result<Self, GatewayError>)
        ensures
            r is Ok <==> public_pem_of(key_der@) is Some,
            r matches Ok(s) ==> {
                &&& s.key_der() == key_der@
                &&& public_pem_of(key_der@) == Some(s.pem())
                &&& is_public_key_pem(s.pem())
            },
            r matches Err(e) ==> e == GatewayError::Internal,
    {
        match public_key_pem(key_der.as_slice()) {
            Some(public_pem) => Ok(CryptoService { key_der, public_pem }),
            None => Err(GatewayError::Internal),
        }
    }

    /// The public key in PEM form; the same text on every call, the public
    /// half of the held private key.
    pub fn get_public_key(&self) -> (r: Result<String, GatewayError>)
        ensures
            r matches Ok(p) && p@ == self.pem() && public_pem_of(self.key_der()) == Some(p@)
                && is_public_key_pem(p@),
    {
        proof {
            use_type_invariant(self);
        }
        Ok(self.public_pem.clone())
    }

    /// The bit length of the held key's modulus.
    pub fn key_size_bits(&self) -> (r: Option<usize>)
        ensures
            r is Some <==> modulus_bits_of(self.key_der()) is Some,
            r is Some ==> modulus_bits_of(self.key_der()) == Some(r->0 as nat),
    {
        modulus_bits(self.key_der.as_slice())
    }

    /// Recovers a session key from its base64 text, RSA-OAEP(SHA-256) wrapped
    /// under this service's public key.
    pub fn decrypt_session_key(&self, encrypted_session_key: &str) -> (r: Result<
        Vec<u8>,
        GatewayError,
    >)
        ensures
            (forall|b: Seq<u8>| base64_of(b) != encrypted_session_key@) ==> r == Err::<
                Vec<u8>,
                GatewayError,
            >(GatewayError::Encoding),
            forall|b: Seq<u8>|
                #[trigger] base64_of(b) == encrypted_session_key@ ==> bytes_result(r)
                    == unwrap_outcome(self.key_der(), b),
    {
        match decode_base64(encrypted_session_key) {
            None => Err(GatewayError::Encoding),
            Some(wrapped) => {
                assert(base64_of(wrapped@) == encrypted_session_key@);
                match oaep_sha256_decrypt(self.key_der.as_slice(), wrapped.as_slice()) {
                    Some(k) => Ok(k),
                    None => Err(GatewayError::Cryptographic),
                }
            },
        }
    }

    /// Opens a base64 envelope (nonce, then ChaCha20-Poly1305 output) with
    /// `session_key` and reads the plaintext as UTF-8 text.
    pub fn decrypt_file_with_session_key(&self, encrypted_data: &str, session_key: &[u8]) -> (r:
        Result<String, GatewayError>)
        ensures
            envelope_outcome(session_key@, encrypted_data@, string_result(r)),
    {
        open_envelope(encrypted_data, session_key)
    }
}

} // verus!
