//! Construction of OAuth 1.0a signed requests: percent-encoding, parameter
//! normalization, the canonical signature base string, HMAC-SHA1 signing,
//! and assembly of the `Authorization` header.

pub mod client;
pub mod header;
pub mod params;
pub mod percent;
pub mod sigbase;
pub mod signer;
