//! Configuration model: the policy values loaded once at startup, immutable
//! for the life of the process, and shared read-only by every request.

use vstd::prelude::*;

verus! {

/// One ordered whitelist rule: a textual address-or-network pattern with
/// optional limit overrides.
#[derive(Clone, Debug, PartialEq)]
pub struct IpLimitEntry {
    pub ip: String,
    pub message_max_length: Option<u16>,
    pub file_max_size: Option<u64>,
}

/// Per-origin policy: whether it is enforced, the ordered whitelist, and the
/// proxies whose forwarded headers are trusted.
#[derive(Clone, Debug, PartialEq)]
pub struct IpLimitsConfig {
    pub enabled: bool,
    pub whitelist: Vec<IpLimitEntry>,
    pub trusted_proxies: Vec<String>,
}

/// The application configuration, constructed once from a validated document.
#[derive(Clone, Debug, PartialEq)]
pub struct AppConfig {
    pub listen: String,
    pub log_level: String,
    pub log_target: String,
    /// Message max length; larger payloads are rejected.
    pub message_max_length: u16,
    pub file_upload_enabled: bool,
    /// File max size in bytes.
    pub file_max_size: u64,
    /// Encrypted message max length. When absent it is derived dynamically
    /// from the other limits.
    pub encrypted_message_max_length: Option<u64>,
    pub redis_url: String,
    pub ip_limits: Option<IpLimitsConfig>,
}

} // verus!
