//! Per-origin resource limits.
//!
//! A client address is matched against the ordered whitelist; the first
//! matching rule wins — deliberately not the most specific one, so that a
//! broad rule listed first keeps its values for hosts it covers. The
//! effective limits take each override from the matched rule when present,
//! else the default, and derive the encrypted ceiling by a fixed overhead
//! factor. A process-wide body ceiling is the largest encrypted ceiling any
//! origin can reach.

use vstd::prelude::*;

verus! {

use vstd::arithmetic::div_mod::{lemma_div_is_ordered, lemma_div_multiples_vanish};
use crate::config::{AppConfig, IpLimitEntry};
use crate::ip::{IpAddress, parse_ip, parse_ip_spec};
use crate::cidr::{matches_ip_or_cidr, matches_ip_or_cidr_spec};

/// Numerator of the encrypted-size overhead factor (27/20 = 1.35).
pub const ENCRYPTED_OVERHEAD_NUM: u64 = 27;

/// Denominator of the encrypted-size overhead factor.
pub const ENCRYPTED_OVERHEAD_DEN: u64 = 20;

/// Numerator of the body-ceiling safety margin (21/20 = 1.05).
pub const BODY_MARGIN_NUM: u64 = 21;

/// Denominator of the body-ceiling safety margin.
pub const BODY_MARGIN_DEN: u64 = 20;

/// The effective size ceilings for one request.
#[derive(Clone, Copy, Debug, PartialEq, Eq, Structural)]
pub struct ClientLimits {
    pub message_max_length: u16,
    pub file_max_size: u64,
    pub encrypted_message_max_length: u64,
}

/// The encrypted ceiling derived from the plain ceilings: the larger of the
/// two, grown by the overhead factor, rounded up, saturating at the type's
/// maximum.
pub open spec fn derived_encrypted_spec(m: u16, f: u64) -> u64 {
    let v = if m as int > f as int {
        m as int
    } else {
        f as int
    };
    let c = (v * ENCRYPTED_OVERHEAD_NUM + (ENCRYPTED_OVERHEAD_DEN - 1)) / (
    ENCRYPTED_OVERHEAD_DEN as int);
    if c > u64::MAX {
        u64::MAX
    } else {
        c as u64
    }
}

/// The default limits of a configuration: its plain ceilings, and its fixed
/// encrypted ceiling when one is configured, else the derived one. The
/// encrypted ceiling always dominates the plain ceilings; a configured
/// override below the larger plain ceiling would break that and is not
/// honored — the derivation applies instead.
pub open spec fn default_limits_spec(config: AppConfig) -> ClientLimits {
    let floor = if config.message_max_length as int > config.file_max_size as int {
        config.message_max_length as int
    } else {
        config.file_max_size as int
    };
    ClientLimits {
        message_max_length: config.message_max_length,
        file_max_size: config.file_max_size,
        encrypted_message_max_length: match config.encrypted_message_max_length {
            Some(v) => if v as int >= floor {
                v
            } else {
                derived_encrypted_spec(config.message_max_length, config.file_max_size)
            },
            None => derived_encrypted_spec(config.message_max_length, config.file_max_size),
        },
    }
}

/// The limits a matched rule yields: each override when present, else the
/// default, with the encrypted ceiling derived from the effective values.
pub open spec fn entry_limits_spec(entry: IpLimitEntry, defaults: ClientLimits) -> ClientLimits {
    let m = match entry.message_max_length {
        Some(l) => l,
        None => defaults.message_max_length,
    };
    let f = match entry.file_max_size {
        Some(s) => s,
        None => defaults.file_max_size,
    };
    ClientLimits {
        message_max_length: m,
        file_max_size: f,
        encrypted_message_max_length: derived_encrypted_spec(m, f),
    }
}

/// The position of the first rule the address matches, if any.
pub open spec fn first_match_spec(ws: Seq<IpLimitEntry>, ip: IpAddress) -> Option<int>
    decreases ws.len(),
{
    if ws.len() == 0 {
        None
    } else if matches_ip_or_cidr_spec(ip, ws[0].ip@) {
        Some(0int)
    } else {
        match first_match_spec(ws.drop_first(), ip) {
            Some(i) => Some(i + 1),
            None => None,
        }
    }
}

/// Maps a client address to its effective limits using the same rule set as
/// every other component.
#[derive(Clone, Debug)]
pub struct LimitsService {
    pub default_limits: ClientLimits,
    pub ip_limits_enabled: bool,
    pub ip_whitelist: Vec<IpLimitEntry>,
}

/// The limits resolved for a client address: the defaults when the feature
/// is off or no rule matches; else the first matching rule's limits.
pub open spec fn limits_for_addr_spec(s: LimitsService, addr: IpAddress) -> ClientLimits {
    if !s.ip_limits_enabled {
        s.default_limits
    } else {
        match first_match_spec(s.ip_whitelist@, addr) {
            Some(i) => entry_limits_spec(s.ip_whitelist@[i], s.default_limits),
            None => s.default_limits,
        }
    }
}

/// The limits resolved for a textual client address: the defaults when the
/// feature is off, the address does not parse, or no rule matches; else the
/// first matching rule's limits.
pub open spec fn limits_for_ip_spec(s: LimitsService, client_ip: Seq<char>) -> ClientLimits {
    if !s.ip_limits_enabled {
        s.default_limits
    } else {
        match parse_ip_spec(client_ip) {
            None => s.default_limits,
            Some(addr) => limits_for_addr_spec(s, addr),
        }
    }
}

/// The largest encrypted ceiling over the defaults and the given rules.
pub open spec fn max_encrypted_spec(ws: Seq<IpLimitEntry>, defaults: ClientLimits) -> u64
    decreases ws.len(),
{
    if ws.len() == 0 {
        defaults.encrypted_message_max_length
    } else {
        let rest = max_encrypted_spec(ws.drop_last(), defaults);
        let e = entry_limits_spec(ws.last(), defaults).encrypted_message_max_length;
        if e > rest {
            e
        } else {
            rest
        }
    }
}

/// The process-wide body ceiling of a service: the largest encrypted ceiling
/// across the defaults and every whitelist rule.
pub open spec fn max_body_limit_spec(s: LimitsService) -> u64 {
    max_encrypted_spec(s.ip_whitelist@, s.default_limits)
}

/// The body ceiling with the safety margin applied, rounded up, saturating
/// at the platform's maximum.
pub open spec fn body_limit_usize_spec(s: LimitsService) -> usize {
    let c = (max_body_limit_spec(s) as int * BODY_MARGIN_NUM + (BODY_MARGIN_DEN - 1)) / (
    BODY_MARGIN_DEN as int);
    if c > usize::MAX {
        usize::MAX
    } else {
        c as usize
    }
}

fn clone_entry(e: &IpLimitEntry) -> (r: IpLimitEntry)
    ensures
        r == *e,
{
    IpLimitEntry {
        ip: e.ip.clone(),
        message_max_length: e.message_max_length,
        file_max_size: e.file_max_size,
    }
}

proof fn lemma_first_match_at(ws: Seq<IpLimitEntry>, ip: IpAddress, i: int)
    requires
        0 <= i < ws.len(),
        matches_ip_or_cidr_spec(ip, ws[i].ip@),
        forall|j: int| 0 <= j < i ==> !matches_ip_or_cidr_spec(ip, #[trigger] ws[j].ip@),
    ensures
        first_match_spec(ws, ip) == Some(i),
    decreases i,
{
    if i == 0 {
    } else {
        let t = ws.drop_first();
        assert(forall|j: int| 0 <= j < i - 1 ==> !matches_ip_or_cidr_spec(
            ip,
            #[trigger] t[j].ip@,
        ));
        lemma_first_match_at(t, ip, i - 1);
        assert(!matches_ip_or_cidr_spec(ip, ws[0].ip@));
    }
}

proof fn lemma_first_match_none(ws: Seq<IpLimitEntry>, ip: IpAddress)
    requires
        forall|j: int| 0 <= j < ws.len() ==> !matches_ip_or_cidr_spec(ip, #[trigger] ws[j].ip@),
    ensures
        first_match_spec(ws, ip) is None,
    decreases ws.len(),
{
    if ws.len() > 0 {
        lemma_first_match_none(ws.drop_first(), ip);
    }
}

proof fn lemma_first_match_in_range(ws: Seq<IpLimitEntry>, ip: IpAddress)
    ensures
        first_match_spec(ws, ip) matches Some(i) ==> 0 <= i < ws.len(),
    decreases ws.len(),
{
    if ws.len() > 0 && !matches_ip_or_cidr_spec(ip, ws[0].ip@) {
        lemma_first_match_in_range(ws.drop_first(), ip);
    }
}

proof fn lemma_max_encrypted_ge_defaults(ws: Seq<IpLimitEntry>, defaults: ClientLimits)
    ensures
        max_encrypted_spec(ws, defaults) >= defaults.encrypted_message_max_length,
    decreases ws.len(),
{
    if ws.len() > 0 {
        lemma_max_encrypted_ge_defaults(ws.drop_last(), defaults);
    }
}

proof fn lemma_max_encrypted_ge_entry(ws: Seq<IpLimitEntry>, defaults: ClientLimits, i: int)
    requires
        0 <= i < ws.len(),
    ensures
        max_encrypted_spec(ws, defaults) >= entry_limits_spec(
            ws[i],
            defaults,
        ).encrypted_message_max_length,
    decreases ws.len(),
{
    if i == ws.len() - 1 {
    } else {
        lemma_max_encrypted_ge_entry(ws.drop_last(), defaults, i);
    }
}

impl LimitsService {
    /// Builds the service from a configuration: its defaults, and the
    /// whitelist when per-origin limits are configured.
    pub fn new(config: &AppConfig) -> (r: LimitsService)
        ensures
            r.default_limits == default_limits_spec(*config),
            r.ip_limits_enabled == (match config.ip_limits {
                Some(l) => l.enabled,
                None => false,
            }),
            r.ip_whitelist@ == (match config.ip_limits {
                Some(l) => l.whitelist@,
                None => Seq::<IpLimitEntry>::empty(),
            }),
    {
        let floor: u64 = if (config.message_max_length as u64) > config.file_max_size {
            config.message_max_length as u64
        } else {
            config.file_max_size
        };
        let encrypted = match config.encrypted_message_max_length {
            Some(v) => {
                if v >= floor {
                    v
                } else {
                    Self::calculate_encrypted_message_limit(
                        config.message_max_length,
                        config.file_max_size,
                    )
                }
            },
            None => Self::calculate_encrypted_message_limit(
                config.message_max_length,
                config.file_max_size,
            ),
        };
        let default_limits = ClientLimits {
            message_max_length: config.message_max_length,
            file_max_size: config.file_max_size,
            encrypted_message_max_length: encrypted,
        };
        match &config.ip_limits {
            Some(ip_limits) => {
                let mut whitelist: Vec<IpLimitEntry> = Vec::new();
                let mut i: usize = 0;
                while i < ip_limits.whitelist.len()
                    invariant
                        0 <= i <= ip_limits.whitelist@.len(),
                        whitelist@ =~= ip_limits.whitelist@.take(i as int),
                    decreases ip_limits.whitelist@.len() - i,
                {
                    whitelist.push(clone_entry(&ip_limits.whitelist[i]));
                    i = i + 1;
                }
                proof {
                    assert(ip_limits.whitelist@.take(ip_limits.whitelist@.len() as int)
                        =~= ip_limits.whitelist@);
                }
                LimitsService {
                    default_limits,
                    ip_limits_enabled: ip_limits.enabled,
                    ip_whitelist: whitelist,
                }
            },
            None => {
                let svc = LimitsService {
                    default_limits,
                    ip_limits_enabled: false,
                    ip_whitelist: Vec::new(),
                };
                proof {
                    assert(svc.ip_whitelist@ =~= Seq::<IpLimitEntry>::empty());
                }
                svc
            },
        }
    }

    /// Derives the encrypted ceiling from the effective plain ceilings by
    /// the fixed overhead factor, rounding up and saturating.
    pub fn calculate_encrypted_message_limit(message_max_length: u16, file_max_size: u64) -> (r:
        u64)
        ensures
            r == derived_encrypted_spec(message_max_length, file_max_size),
    {
        let v: u64 = if (message_max_length as u64) > file_max_size {
            message_max_length as u64
        } else {
            file_max_size
        };
        let c: u128 = ((v as u128) * (ENCRYPTED_OVERHEAD_NUM as u128) + ((ENCRYPTED_OVERHEAD_DEN
            - 1) as u128)) / (ENCRYPTED_OVERHEAD_DEN as u128);
        if c > u64::MAX as u128 {
            u64::MAX
        } else {
            c as u64
        }
    }

    /// Whether the address matches a rule pattern.
    pub fn matches_ip(&self, client_ip: &IpAddress, rule_ip: &str) -> (r: bool)
        ensures
            r == matches_ip_or_cidr_spec(*client_ip, rule_ip@),
    {
        matches_ip_or_cidr(client_ip, rule_ip)
    }

    /// Resolves a matched rule to its effective limits.
    fn calculate_limits_for_entry(&self, entry: &IpLimitEntry) -> (r: ClientLimits)
        ensures
            r == entry_limits_spec(*entry, self.default_limits),
    {
        let message_max_length = match entry.message_max_length {
            Some(l) => l,
            None => self.default_limits.message_max_length,
        };
        let file_max_size = match entry.file_max_size {
            Some(s) => s,
            None => self.default_limits.file_max_size,
        };
        let encrypted_message_max_length = Self::calculate_encrypted_message_limit(
            message_max_length,
            file_max_size,
        );
        ClientLimits { message_max_length, file_max_size, encrypted_message_max_length }
    }

    /// Resolves the effective limits for a textual client address. Never
    /// fails: an address that does not parse, or matches no rule, gets the
    /// defaults.
    pub fn get_limits_for_ip(&self, client_ip: &str) -> (r: ClientLimits)
        ensures
            r == limits_for_ip_spec(*self, client_ip@),
    {
        if !self.ip_limits_enabled {
            return self.default_limits;
        }
        let addr = match parse_ip(client_ip) {
            Some(a) => a,
            None => {
                return self.default_limits;
            },
        };
        self.get_limits_for_addr(&addr)
    }

    /// Resolves the effective limits for an already-parsed client address.
    pub fn get_limits_for_addr(&self, client_ip: &IpAddress) -> (r: ClientLimits)
        ensures
            r == limits_for_addr_spec(*self, *client_ip),
    {
        if !self.ip_limits_enabled {
            return self.default_limits;
        }
        let addr = *client_ip;
        let ghost ws = self.ip_whitelist@;
        let mut i: usize = 0;
        while i < self.ip_whitelist.len()
            invariant
                0 <= i <= ws.len(),
                self.ip_whitelist@ == ws,
                self.ip_limits_enabled,
                addr == *client_ip,
                forall|j: int| 0 <= j < i ==> !matches_ip_or_cidr_spec(
                    addr,
                    #[trigger] ws[j].ip@,
                ),
            decreases ws.len() - i,
        {
            let entry = &self.ip_whitelist[i];
            if self.matches_ip(&addr, entry.ip.as_str()) {
                proof {
                    lemma_first_match_at(ws, addr, i as int);
                }
                return self.calculate_limits_for_entry(entry);
            }
            i = i + 1;
        }
        proof {
            lemma_first_match_none(ws, addr);
        }
        self.default_limits
    }

    /// The largest encrypted ceiling any origin can reach under this
    /// service: the single process-wide body ceiling.
    pub fn compute_max_body_limit(&self) -> (r: u64)
        ensures
            r == max_body_limit_spec(*self),
    {
        let ghost ws = self.ip_whitelist@;
        let mut acc: u64 = self.default_limits.encrypted_message_max_length;
        let mut i: usize = 0;
        while i < self.ip_whitelist.len()
            invariant
                0 <= i <= ws.len(),
                self.ip_whitelist@ == ws,
                acc == max_encrypted_spec(ws.take(i as int), self.default_limits),
            decreases ws.len() - i,
        {
            let e = self.calculate_limits_for_entry(
                &self.ip_whitelist[i],
            ).encrypted_message_max_length;
            proof {
                assert(ws.take(i + 1).drop_last() =~= ws.take(i as int));
                assert(ws.take(i + 1).last() == ws[i as int]);
            }
            if e > acc {
                acc = e;
            }
            i = i + 1;
        }
        proof {
            assert(ws.take(ws.len() as int) =~= ws);
        }
        acc
    }

    /// The body ceiling with the safety margin applied, saturating rather
    /// than overflowing at the platform's maximum representable size.
    pub fn body_limit_as_usize(&self) -> (r: usize)
        ensures
            r == body_limit_usize_spec(*self),
    {
        let m = self.compute_max_body_limit();
        let c: u128 = ((m as u128) * (BODY_MARGIN_NUM as u128) + ((BODY_MARGIN_DEN - 1) as u128))
            / (BODY_MARGIN_DEN as u128);
        if c > usize::MAX as u128 {
            usize::MAX
        } else {
            c as usize
        }
    }
}

proof fn lemma_derived_dominates(m: u16, f: u64)
    ensures
        derived_encrypted_spec(m, f) as int >= m as int,
        derived_encrypted_spec(m, f) as int >= f as int,
{
    let v = if m as int > f as int {
        m as int
    } else {
        f as int
    };
    let c = (v * ENCRYPTED_OVERHEAD_NUM + (ENCRYPTED_OVERHEAD_DEN - 1)) / (
    ENCRYPTED_OVERHEAD_DEN as int);
    if c > u64::MAX {
    } else {
        lemma_div_multiples_vanish(v, ENCRYPTED_OVERHEAD_DEN as int);
        assert(ENCRYPTED_OVERHEAD_DEN as int * v <= v * ENCRYPTED_OVERHEAD_NUM + (
        ENCRYPTED_OVERHEAD_DEN - 1));
        lemma_div_is_ordered(
            ENCRYPTED_OVERHEAD_DEN as int * v,
            v * ENCRYPTED_OVERHEAD_NUM + (ENCRYPTED_OVERHEAD_DEN - 1),
            ENCRYPTED_OVERHEAD_DEN as int,
        );
    }
}

proof fn lemma_default_limits_dominate(config: AppConfig)
    ensures
        default_limits_spec(config).encrypted_message_max_length as int >= default_limits_spec(
            config,
        ).message_max_length as int,
        default_limits_spec(config).encrypted_message_max_length as int >= default_limits_spec(
            config,
        ).file_max_size as int,
{
    lemma_derived_dominates(config.message_max_length, config.file_max_size);
}

/// The encrypted ceiling dominates the plain ceilings: whatever client
/// address is asked about, the resolved encrypted ceiling is at least as
/// large as both the resolved message ceiling and the resolved file ceiling
/// — for any service built from a configuration.
pub proof fn lemma_encrypted_ceiling_dominates(
    config: AppConfig,
    s: LimitsService,
    client_ip: Seq<char>,
)
    requires
        s.default_limits == default_limits_spec(config),
    ensures
        limits_for_ip_spec(s, client_ip).encrypted_message_max_length as int >= limits_for_ip_spec(
            s,
            client_ip,
        ).message_max_length as int,
        limits_for_ip_spec(s, client_ip).encrypted_message_max_length as int >= limits_for_ip_spec(
            s,
            client_ip,
        ).file_max_size as int,
{
    lemma_default_limits_dominate(config);
    if s.ip_limits_enabled {
        match parse_ip_spec(client_ip) {
            Some(addr) => {
                lemma_first_match_in_range(s.ip_whitelist@, addr);
                match first_match_spec(s.ip_whitelist@, addr) {
                    Some(i) => {
                        let e = s.ip_whitelist@[i];
                        let em = match e.message_max_length {
                            Some(l) => l,
                            None => s.default_limits.message_max_length,
                        };
                        let ef = match e.file_max_size {
                            Some(v) => v,
                            None => s.default_limits.file_max_size,
                        };
                        lemma_derived_dominates(em, ef);
                    },
                    None => {},
                }
            },
            None => {},
        }
    }
}

/// Resolution is deterministic: the same client address and the same service
/// always give the same effective limits.
pub proof fn lemma_limits_resolution_deterministic(
    s1: LimitsService,
    s2: LimitsService,
    ip1: Seq<char>,
    ip2: Seq<char>,
)
    requires
        s1.default_limits == s2.default_limits,
        s1.ip_limits_enabled == s2.ip_limits_enabled,
        s1.ip_whitelist@ == s2.ip_whitelist@,
        ip1 == ip2,
    ensures
        limits_for_ip_spec(s1, ip1) == limits_for_ip_spec(s2, ip2),
{
}

/// The process-wide body ceiling covers every resolution: whatever client
/// address is asked about — matching any rule, matching none, or not parsing
/// at all — its resolved encrypted ceiling never exceeds the ceiling.
pub proof fn lemma_max_body_limit_covers(s: LimitsService, client_ip: Seq<char>)
    ensures
        limits_for_ip_spec(s, client_ip).encrypted_message_max_length <= max_body_limit_spec(s),
{
    lemma_max_encrypted_ge_defaults(s.ip_whitelist@, s.default_limits);
    if s.ip_limits_enabled {
        match parse_ip_spec(client_ip) {
            Some(addr) => {
                lemma_first_match_in_range(s.ip_whitelist@, addr);
                match first_match_spec(s.ip_whitelist@, addr) {
                    Some(i) => {
                        lemma_max_encrypted_ge_entry(s.ip_whitelist@, s.default_limits, i);
                    },
                    None => {},
                }
            },
            None => {},
        }
    }
}

} // verus!
