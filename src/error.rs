use vstd::prelude::*;

verus! {

/// Every way a request through the gateway can fail.
#[derive(Clone, Copy, Debug, PartialEq, Eq, Structural)]
pub enum GatewayError {
    /// A client-supplied payload is not valid base64, or the decrypted bytes are not text.
    Encoding,
    /// The session key could not be unwrapped, or the ciphertext did not authenticate.
    Cryptographic,
    /// The redaction service was unreachable or gave an unusable answer.
    Upstream,
    /// No artifact is stored under the requested identifier.
    NotFound,
    /// An unexpected failure inside the service itself.
    Internal,
}

/// The HTTP status that each error is reported with.
pub open spec fn status_of(e: GatewayError) -> u16 {
    match e {
        GatewayError::Encoding => 400,
        GatewayError::Cryptographic => 400,
        GatewayError::Upstream => 500,
        GatewayError::NotFound => 404,
        GatewayError::Internal => 500,
    }
}

/// The description each error is reported with.
pub open spec fn message_of(e: GatewayError) -> Seq<char> {
    match e {
        GatewayError::Encoding => "malformed encoding"@,
        GatewayError::Cryptographic => "cryptographic failure"@,
        GatewayError::Upstream => "redaction service failure"@,
        GatewayError::NotFound => "File not found"@,
        GatewayError::Internal => "internal error"@,
    }
}

impl GatewayError {
    /// The HTTP status code this error maps to at the request boundary.
    pub fn status_code(&self) -> (r: u16)
        ensures
            r == status_of(*self),
    {
        match self {
            GatewayError::Encoding => 400,
            GatewayError::Cryptographic => 400,
            GatewayError::Upstream => 500,
            GatewayError::NotFound => 404,
            GatewayError::Internal => 500,
        }
    }

    /// A short human-readable description of the error.
    pub fn message(&self) -> (r: String)
        ensures
            r@ == message_of(*self),
    {
        match self {
            GatewayError::Encoding => "malformed encoding".to_owned(),
            GatewayError::Cryptographic => "cryptographic failure".to_owned(),
            GatewayError::Upstream => "redaction service failure".to_owned(),
            GatewayError::NotFound => "File not found".to_owned(),
            GatewayError::Internal => "internal error".to_owned(),
        }
    }
}

} // verus!
