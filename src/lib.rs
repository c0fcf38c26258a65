//! Client-secret hash for identity-provider logins: an HMAC-SHA256 digest of a
//! username followed by a client id, keyed by the client secret, written as
//! standard base64; and the resolution of the client credentials from an INI
//! configuration file.
pub mod config;
pub mod encoding;
pub mod hash;

pub use config::{Config, LoadedConfig};
pub use hash::{compute, digest_to_base64, message_bytes};
