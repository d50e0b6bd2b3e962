//! Confidential-ingestion gateway: hybrid decryption of client uploads, an
//! addressable store for the scrubbed results, and the decisions that tie
//! the two together around an external redaction service.

pub mod crypto;
pub mod encoding;
pub mod error;
pub mod gateway;
pub mod redaction;
pub mod storage;
