//! Client core for a signed RPC API: canonical request construction, HMAC
//! signing, retry orchestration, response-envelope decoding, error
//! classification, and secret redaction.

pub mod auth;
pub mod baseurl;
pub mod client;
pub mod encode;
pub mod envelope;
pub mod error;
pub mod json;
pub mod params;
pub mod redact;
pub mod retry;
pub mod sign;
pub mod text;
pub mod timestamp;
pub mod transport;
pub mod types;
