//! Resolution of a request's true origin address.
//!
//! Forwarded headers are consulted only when the connection peer is trusted
//! to supply them: with no policy, or a disabled one, they are trusted
//! unconditionally for compatibility; with an enabled policy they are
//! trusted only when the peer matches a configured trusted proxy, and an
//! enabled policy with no trusted proxies never trusts them (fail closed).
//! Resolution never fails: whatever the headers hold, it falls back to the
//! connection address.

use vstd::prelude::*;

verus! {

use vstd::string::StrSliceExecFns;
use crate::text::{trim, trim_spec, split_str, split_spec};
use crate::ip::{IpAddress, parse_ip, parse_ip_spec};
use crate::cidr::{matches_ip_or_cidr, matches_ip_or_cidr_spec};
use crate::config::IpLimitsConfig;

/// The proxy-supplied header values the resolver consults, case-insensitive
/// lookup already done by the transport.
#[derive(Clone, Debug)]
pub struct RequestHeaders {
    pub x_forwarded_for: Option<String>,
    pub x_real_ip: Option<String>,
}

/// The resolved client address, attached once per request and read-only
/// thereafter.
#[derive(Clone, Copy, Debug, PartialEq, Eq, Structural)]
pub struct ClientIp(pub IpAddress);

/// Computes the trusted client address from connection info, headers, and
/// the per-origin policy.
pub struct ClientIpExtractor;

/// A single header token accepted as a client address: non-empty, at most 45
/// characters, and a syntactically valid address — no port, no brackets, no
/// trailing garbage.
pub open spec fn valid_header_ip_spec(t: Seq<char>) -> bool {
    0 < t.len() <= 45 && parse_ip_spec(t) is Some
}

/// The address taken from a forwarded-for header value: the first
/// comma-separated token, trimmed, accepted only under the single-token
/// validation.
pub open spec fn forwarded_for_spec(s: Seq<char>) -> Option<IpAddress> {
    let t = trim_spec(split_spec(s, ',')[0]);
    if valid_header_ip_spec(t) {
        parse_ip_spec(t)
    } else {
        None
    }
}

/// The address taken from a real-ip header value: the whole value, trimmed,
/// under the same single-token validation.
pub open spec fn real_ip_spec(s: Seq<char>) -> Option<IpAddress> {
    let t = trim_spec(s);
    if valid_header_ip_spec(t) {
        parse_ip_spec(t)
    } else {
        None
    }
}

/// The address the headers yield when they are trusted: the forwarded-for
/// header first, then the real-ip header, then the connection address.
pub open spec fn header_choice_spec(h: RequestHeaders, conn: IpAddress) -> IpAddress {
    let from_forwarded = match h.x_forwarded_for {
        Some(f) => forwarded_for_spec(f@),
        None => None,
    };
    let from_real = match h.x_real_ip {
        Some(r) => real_ip_spec(r@),
        None => None,
    };
    match from_forwarded {
        Some(a) => a,
        None => match from_real {
            Some(a) => a,
            None => conn,
        },
    }
}

/// Whether the connection peer is one of the trusted proxies, by exact
/// address or network containment.
pub open spec fn is_trusted_proxy_spec(conn: IpAddress, proxies: Seq<String>) -> bool {
    exists|j: int| 0 <= j < proxies.len() && matches_ip_or_cidr_spec(conn, #[trigger] proxies[j]@)
}

/// Whether forwarded headers are trusted: unconditionally with no policy or
/// a disabled one; never with an enabled policy without trusted proxies;
/// else only for a trusted peer.
pub open spec fn should_trust_headers_spec(conn: IpAddress, config: Option<IpLimitsConfig>) -> bool {
    match config {
        None => true,
        Some(c) => if !c.enabled {
            true
        } else if c.trusted_proxies@.len() == 0 {
            false
        } else {
            is_trusted_proxy_spec(conn, c.trusted_proxies@)
        },
    }
}

/// The resolved client address: the headers' choice when they are trusted,
/// else the connection address.
pub open spec fn resolve_spec(
    h: RequestHeaders,
    conn: IpAddress,
    config: Option<IpLimitsConfig>,
) -> IpAddress {
    if should_trust_headers_spec(conn, config) {
        header_choice_spec(h, conn)
    } else {
        conn
    }
}

/// The policy value behind an optional reference.
pub open spec fn opt_config_view(config: Option<&IpLimitsConfig>) -> Option<IpLimitsConfig> {
    match config {
        Some(c) => Some(*c),
        None => None,
    }
}

impl ClientIpExtractor {
    /// Accepts a header token only if it is a syntactically valid address of
    /// bounded length.
    pub fn is_valid_ip_format(ip_str: &str) -> (r: bool)
        ensures
            r == valid_header_ip_spec(ip_str@),
    {
        let n = ip_str.unicode_len();
        if n == 0 || n > 45 {
            return false;
        }
        parse_ip(ip_str).is_some()
    }

    /// Reads the first comma-separated token of a forwarded-for header
    /// value; later tokens are never consulted.
    pub fn parse_forwarded_for(header_value: &str) -> (r: Option<IpAddress>)
        ensures
            r == forwarded_for_spec(header_value@),
    {
        let parts = split_str(header_value, ',');
        proof {
            crate::text::lemma_split_spec_len(header_value@, ',');
        }
        let first = trim(parts[0].as_str());
        if Self::is_valid_ip_format(first) {
            parse_ip(first)
        } else {
            None
        }
    }

    /// Reads a real-ip header value under the same single-token validation.
    pub fn parse_real_ip(header_value: &str) -> (r: Option<IpAddress>)
        ensures
            r == real_ip_spec(header_value@),
    {
        let t = trim(header_value);
        if Self::is_valid_ip_format(t) {
            parse_ip(t)
        } else {
            None
        }
    }

    /// Whether an address matches a textual rule pattern.
    pub fn matches_ip_or_cidr(ip: &IpAddress, pattern: &str) -> (r: bool)
        ensures
            r == matches_ip_or_cidr_spec(*ip, pattern@),
    {
        matches_ip_or_cidr(ip, pattern)
    }

    /// Whether the connection peer is one of the trusted proxies.
    pub fn is_trusted_proxy(connection_ip: &IpAddress, trusted_proxies: &Vec<String>) -> (r: bool)
        ensures
            r == is_trusted_proxy_spec(*connection_ip, trusted_proxies@),
    {
        let mut j: usize = 0;
        while j < trusted_proxies.len()
            invariant
                0 <= j <= trusted_proxies@.len(),
                forall|m: int| 0 <= m < j ==> !matches_ip_or_cidr_spec(
                    *connection_ip,
                    #[trigger] trusted_proxies@[m]@,
                ),
            decreases trusted_proxies@.len() - j,
        {
            if matches_ip_or_cidr(connection_ip, trusted_proxies[j].as_str()) {
                return true;
            }
            j = j + 1;
        }
        false
    }

    /// Resolves the request's client address from the connection address,
    /// the headers, and the policy. Never fails: every fall-through returns
    /// the connection address.
    pub fn extract_client_ip(
        headers: &RequestHeaders,
        connection_ip: IpAddress,
        ip_limits_config: Option<&IpLimitsConfig>,
    ) -> (r: IpAddress)
        ensures
            r == resolve_spec(*headers, connection_ip, opt_config_view(ip_limits_config)),
    {
        let should_trust_headers: bool = match ip_limits_config {
            None => true,
            Some(config) => {
                if !config.enabled {
                    true
                } else if config.trusted_proxies.len() == 0 {
                    false
                } else {
                    Self::is_trusted_proxy(&connection_ip, &config.trusted_proxies)
                }
            },
        };
        if !should_trust_headers {
            return connection_ip;
        }
        match &headers.x_forwarded_for {
            Some(forwarded_for) => {
                match Self::parse_forwarded_for(forwarded_for.as_str()) {
                    Some(ip) => {
                        return ip;
                    },
                    None => {},
                }
            },
            None => {},
        }
        match &headers.x_real_ip {
            Some(real_ip) => {
                match Self::parse_real_ip(real_ip.as_str()) {
                    Some(ip) => {
                        return ip;
                    },
                    None => {},
                }
            },
            None => {},
        }
        connection_ip
    }
}

/// With the policy absent or disabled, resolution follows the precedence
/// forwarded-for header, then real-ip header, then connection address — for
/// every header set.
pub proof fn lemma_resolve_precedence_when_unrestricted(
    h: RequestHeaders,
    conn: IpAddress,
    config: Option<IpLimitsConfig>,
)
    requires
        config is None || !config.unwrap().enabled,
    ensures
        resolve_spec(h, conn, config) == (match (match h.x_forwarded_for {
            Some(f) => forwarded_for_spec(f@),
            None => None,
        }) {
            Some(a) => a,
            None => (match (match h.x_real_ip {
                Some(r) => real_ip_spec(r@),
                None => None,
            }) {
                Some(a) => a,
                None => conn,
            }),
        }),
{
}

/// An enabled policy whose trusted-proxy list is empty never trusts
/// headers: resolution returns the connection address for every header set.
pub proof fn lemma_resolve_empty_trusted_proxies(
    h: RequestHeaders,
    conn: IpAddress,
    c: IpLimitsConfig,
)
    requires
        c.enabled,
        c.trusted_proxies@.len() == 0,
    ensures
        resolve_spec(h, conn, Some(c)) == conn,
{
}

} // verus!
