//! Core of a secret-sharing web service: the request-time trust and
//! resource-limiting pipeline.
//!
//! The library determines a request's true origin IP in the presence of
//! possibly spoofed proxy headers, resolves per-origin resource limits from an
//! ordered rule set, derives the transport-level body-size ceiling, validates
//! the rule set before it is trusted, and rate-limits requests with a token
//! bucket while exempting whitelisted origins.

pub mod text;
pub mod ip;
pub mod cidr;
pub mod config;
pub mod dto;
pub mod validation;
pub mod limits;
pub mod client_ip;
pub mod rate_limit;
pub mod metrics;
pub mod locale;
pub mod secret;
pub mod crypto;
pub mod url;

use vstd::prelude::*;

verus! {

/// Application version reported by the version route and build metrics.
pub const VERSION: &'static str = "1.10.3 #1";

/// The process-wide state handed to every request: the configuration, the
/// store, the limits resolver, and the body ceiling chosen at startup.
pub struct AppState<S> {
    pub config: crate::config::AppConfig,
    pub secret_storage: S,
    pub limits_service: crate::limits::LimitsService,
    pub body_limit: usize,
}

} // verus!
