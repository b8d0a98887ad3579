//! Token-bucket admission keyed by the resolved client address.
//!
//! A request whose address matches an enabled whitelist bypasses the limiter
//! entirely. A request whose address could not be resolved is denied
//! admission: the fail-closed choice for unresolvable keys, made explicit
//! here. The bucket works on a nanosecond timeline scaled by the sustained
//! rate, so the fractional period `60 s / requestsPerMinute` is represented
//! exactly — one request's worth of time is always `60·10⁹` scaled units.
//! Idle keys can be evicted so an attacker rotating source addresses cannot
//! grow the table without bound.

use vstd::prelude::*;

verus! {

use crate::config::IpLimitsConfig;
use crate::ip::IpAddress;
use crate::cidr::{matches_ip_or_cidr, matches_ip_or_cidr_spec};

/// Nanoseconds per minute: one request's worth of scaled time.
pub const NANOS_PER_MINUTE: u64 = 60_000_000_000;

/// The admission-gate policy.
#[derive(Clone, Copy, Debug, PartialEq, Eq, Structural)]
pub struct RateLimitPolicy {
    pub enabled: bool,
    pub requests_per_minute: u32,
    pub burst_size: u32,
}

/// Whether the address matches any entry of the whitelist — the same match
/// rules as limits resolution, though any match suffices here.
pub open spec fn is_whitelisted_spec(ip: IpAddress, config: IpLimitsConfig) -> bool {
    exists|j: int|
        0 <= j < config.whitelist@.len() && matches_ip_or_cidr_spec(
            ip,
            #[trigger] config.whitelist@[j].ip@,
        )
}

/// Tests whether the address is exempt from rate limiting under the policy.
pub fn is_whitelisted(ip: &IpAddress, config: &IpLimitsConfig) -> (r: bool)
    ensures
        r == is_whitelisted_spec(*ip, *config),
{
    let mut j: usize = 0;
    while j < config.whitelist.len()
        invariant
            0 <= j <= config.whitelist@.len(),
            forall|m: int| 0 <= m < j ==> !matches_ip_or_cidr_spec(
                *ip,
                #[trigger] config.whitelist@[m].ip@,
            ),
        decreases config.whitelist@.len() - j,
    {
        if matches_ip_or_cidr(ip, config.whitelist[j].ip.as_str()) {
            return true;
        }
        j = j + 1;
    }
    false
}

/// The limiter's verdict on how to treat a request.
#[derive(Clone, Copy, Debug, PartialEq, Eq, Structural)]
pub enum RateLimitKey {
    /// Whitelisted: allowed without touching any counter.
    Bypass,
    /// Counted and gated under this key.
    Limit(IpAddress),
    /// No key could be extracted: denied admission (fail closed).
    Deny,
}

/// The key decision: bypass when marked exempt; deny when no client address
/// was resolved — the explicit fail-closed policy for key-extraction
/// failure; else gate under the address.
pub open spec fn extract_key_spec(bypass: bool, client_ip: Option<IpAddress>) -> RateLimitKey {
    if bypass {
        RateLimitKey::Bypass
    } else {
        match client_ip {
            Some(a) => RateLimitKey::Limit(a),
            None => RateLimitKey::Deny,
        }
    }
}

/// Extracts the rate-limiting key for a request.
pub struct IpKeyExtractor;

impl IpKeyExtractor {
    /// Decides how the limiter treats a request, from the bypass mark and
    /// the resolved client address.
    pub fn extract(bypass: bool, client_ip: Option<IpAddress>) -> (r: RateLimitKey)
        ensures
            r == extract_key_spec(bypass, client_ip),
    {
        if bypass {
            RateLimitKey::Bypass
        } else {
            match client_ip {
                Some(a) => RateLimitKey::Limit(a),
                None => RateLimitKey::Deny,
            }
        }
    }
}

/// One key's bucket state: the theoretical arrival time of its next
/// conforming request, on the scaled timeline (nanoseconds × rate).
#[derive(Clone, Copy, Debug, PartialEq, Eq, Structural)]
pub struct TokenBucket {
    pub tat: u128,
}

/// The current instant on the scaled timeline.
pub open spec fn scaled_now_spec(now_ns: u64, requests_per_minute: u32) -> int {
    now_ns as int * requests_per_minute as int
}

/// Whether a request conforms: its bucket's arrival time lies within the
/// burst allowance of the current instant.
pub open spec fn bucket_admits_spec(
    tat: u128,
    now_ns: u64,
    requests_per_minute: u32,
    burst_size: u32,
) -> bool {
    tat as int <= scaled_now_spec(now_ns, requests_per_minute) + (burst_size - 1)
        * NANOS_PER_MINUTE as int
}

/// The bucket state after an allowed request: pushed forward by one
/// request's worth of scaled time, saturating at the type's maximum.
pub open spec fn bucket_after_admit_spec(tat: u128, now_ns: u64, requests_per_minute: u32) -> u128 {
    let t = scaled_now_spec(now_ns, requests_per_minute);
    let base = if tat as int > t {
        tat as int
    } else {
        t
    };
    if base + NANOS_PER_MINUTE as int > u128::MAX {
        u128::MAX
    } else {
        (base + NANOS_PER_MINUTE as int) as u128
    }
}

proof fn lemma_scaled_time_bounds(now_ns: u64, requests_per_minute: u32, burst_size: u32)
    by (nonlinear_arith)
    requires
        burst_size >= 1,
    ensures
        0 <= (now_ns as int) * (requests_per_minute as int),
        (now_ns as int) * (requests_per_minute as int) < 0x1000000000000000000000000,
        0 <= ((burst_size - 1) as int) * (NANOS_PER_MINUTE as int),
        ((burst_size - 1) as int) * (NANOS_PER_MINUTE as int) <= 0xffffffff * 60_000_000_000,
{
}

impl TokenBucket {
    /// A fresh bucket: its whole burst allowance available.
    pub fn new() -> (r: TokenBucket)
        ensures
            r.tat == 0,
    {
        TokenBucket { tat: 0 }
    }

    /// Admits or rejects a request at the given instant. Only an allowed
    /// request moves the bucket: a rejected one commits nothing.
    pub fn allow(&mut self, now_ns: u64, requests_per_minute: u32, burst_size: u32) -> (r: bool)
        requires
            requests_per_minute >= 1,
            burst_size >= 1,
        ensures
            r == bucket_admits_spec(old(self).tat, now_ns, requests_per_minute, burst_size),
            r ==> final(self).tat == bucket_after_admit_spec(
                old(self).tat,
                now_ns,
                requests_per_minute,
            ),
            !r ==> final(self).tat == old(self).tat,
    {
        proof {
            lemma_scaled_time_bounds(now_ns, requests_per_minute, burst_size);
        }
        let t: u128 = (now_ns as u128) * (requests_per_minute as u128);
        let allowance: u128 = ((burst_size - 1) as u128) * (NANOS_PER_MINUTE as u128);
        if self.tat <= t + allowance {
            let base: u128 = if self.tat > t {
                self.tat
            } else {
                t
            };
            if base > u128::MAX - NANOS_PER_MINUTE as u128 {
                self.tat = u128::MAX;
            } else {
                self.tat = base + NANOS_PER_MINUTE as u128;
            }
            true
        } else {
            false
        }
    }
}

/// One tracked key: its bucket and when it was last seen.
#[derive(Clone, Copy, Debug, PartialEq, Eq, Structural)]
pub struct BucketEntry {
    pub key: IpAddress,
    pub bucket: TokenBucket,
    pub last_seen_ns: u64,
}

/// The position of the first entry for a key, if any.
pub open spec fn find_entry_spec(entries: Seq<BucketEntry>, key: IpAddress) -> Option<int>
    decreases entries.len(),
{
    if entries.len() == 0 {
        None
    } else if entries[0].key == key {
        Some(0int)
    } else {
        match find_entry_spec(entries.drop_first(), key) {
            Some(i) => Some(i + 1),
            None => None,
        }
    }
}

/// The entries that survive eviction: those seen within the idle window.
pub open spec fn retained_spec(entries: Seq<BucketEntry>, now_ns: u64, idle_ns: u64) -> Seq<
    BucketEntry,
>
    decreases entries.len(),
{
    if entries.len() == 0 {
        Seq::<BucketEntry>::empty()
    } else {
        retained_spec(entries.drop_last(), now_ns, idle_ns) + (if entries.last().last_seen_ns as int
            + idle_ns as int >= now_ns as int {
            seq![entries.last()]
        } else {
            Seq::<BucketEntry>::empty()
        })
    }
}

/// The token-bucket gate over all keys. Shared mutable state: the enclosing
/// transport wraps it in its own lock for concurrent callers.
#[derive(Clone, Debug)]
pub struct RateLimiter {
    pub requests_per_minute: u32,
    pub burst_size: u32,
    pub entries: Vec<BucketEntry>,
}

proof fn lemma_find_entry_at(entries: Seq<BucketEntry>, key: IpAddress, i: int)
    requires
        0 <= i < entries.len(),
        entries[i].key == key,
        forall|j: int| 0 <= j < i ==> (#[trigger] entries[j].key) != key,
    ensures
        find_entry_spec(entries, key) == Some(i),
    decreases i,
{
    if i > 0 {
        let t = entries.drop_first();
        assert(forall|j: int| 0 <= j < i - 1 ==> (#[trigger] t[j].key) != key);
        lemma_find_entry_at(t, key, i - 1);
    }
}

proof fn lemma_find_entry_none(entries: Seq<BucketEntry>, key: IpAddress)
    requires
        forall|j: int| 0 <= j < entries.len() ==> (#[trigger] entries[j].key) != key,
    ensures
        find_entry_spec(entries, key) is None,
    decreases entries.len(),
{
    if entries.len() > 0 {
        lemma_find_entry_none(entries.drop_first(), key);
    }
}

impl RateLimiter {
    /// Creates a gate enforcing the given admission policy.
    pub fn new(policy: &RateLimitPolicy) -> (r: RateLimiter)
        requires
            policy.requests_per_minute >= 1,
            policy.burst_size >= 1,
        ensures
            r.requests_per_minute == policy.requests_per_minute,
            r.burst_size == policy.burst_size,
            r.entries@ == Seq::<BucketEntry>::empty(),
    {
        let r = RateLimiter {
            requests_per_minute: policy.requests_per_minute,
            burst_size: policy.burst_size,
            entries: Vec::new(),
        };
        proof {
            assert(r.entries@ =~= Seq::<BucketEntry>::empty());
        }
        r
    }

    /// Admits or rejects a request under its key at the given instant. A
    /// key not yet tracked starts with a fresh bucket; only an allowed
    /// request commits any state.
    pub fn check(&mut self, key: IpAddress, now_ns: u64) -> (r: bool)
        requires
            old(self).requests_per_minute >= 1,
            old(self).burst_size >= 1,
        ensures
            final(self).requests_per_minute == old(self).requests_per_minute,
            final(self).burst_size == old(self).burst_size,
            ({
                let rpm = old(self).requests_per_minute;
                let burst = old(self).burst_size;
                match find_entry_spec(old(self).entries@, key) {
                    Some(i) => {
                        let tat = old(self).entries@[i].bucket.tat;
                        &&& r == bucket_admits_spec(tat, now_ns, rpm, burst)
                        &&& r ==> final(self).entries@ == old(self).entries@.update(
                            i,
                            BucketEntry {
                                key,
                                bucket: TokenBucket {
                                    tat: bucket_after_admit_spec(tat, now_ns, rpm),
                                },
                                last_seen_ns: now_ns,
                            },
                        )
                        &&& !r ==> final(self).entries@ == old(self).entries@.update(
                            i,
                            BucketEntry {
                                key,
                                bucket: old(self).entries@[i].bucket,
                                last_seen_ns: now_ns,
                            },
                        )
                    },
                    None => {
                        &&& r == bucket_admits_spec(0u128, now_ns, rpm, burst)
                        &&& r ==> final(self).entries@ == old(self).entries@.push(
                            BucketEntry {
                                key,
                                bucket: TokenBucket {
                                    tat: bucket_after_admit_spec(0u128, now_ns, rpm),
                                },
                                last_seen_ns: now_ns,
                            },
                        )
                        &&& !r ==> final(self).entries@ == old(self).entries@.push(
                            BucketEntry { key, bucket: TokenBucket { tat: 0 }, last_seen_ns: now_ns },
                        )
                    },
                }
            }),
    {
        let ghost entries0 = self.entries@;
        let rpm = self.requests_per_minute;
        let burst = self.burst_size;
        let n = self.entries.len();
        let mut i: usize = 0;
        while i < n
            invariant
                0 <= i <= n,
                n == self.entries@.len(),
                entries0 == old(self).entries@,
                self.entries@ == entries0,
                rpm == old(self).requests_per_minute,
                burst == old(self).burst_size,
                self.requests_per_minute == rpm,
                self.burst_size == burst,
                rpm >= 1,
                burst >= 1,
                forall|j: int| 0 <= j < i ==> (#[trigger] entries0[j].key) != key,
            decreases n - i,
        {
            if self.entries[i].key == key {
                proof {
                    lemma_find_entry_at(entries0, key, i as int);
                }
                let mut bucket = self.entries[i].bucket;
                let allowed = bucket.allow(now_ns, rpm, burst);
                if allowed {
                    self.entries.set(i, BucketEntry { key, bucket, last_seen_ns: now_ns });
                } else {
                    let kept = self.entries[i].bucket;
                    self.entries.set(i, BucketEntry { key, bucket: kept, last_seen_ns: now_ns });
                }
                return allowed;
            }
            i = i + 1;
        }
        proof {
            lemma_find_entry_none(entries0, key);
        }
        let mut bucket = TokenBucket::new();
        let allowed = bucket.allow(now_ns, rpm, burst);
        if allowed {
            self.entries.push(BucketEntry { key, bucket, last_seen_ns: now_ns });
        } else {
            self.entries.push(
                BucketEntry { key, bucket: TokenBucket { tat: 0 }, last_seen_ns: now_ns },
            );
        }
        allowed
    }

    /// Evicts every key not seen within the idle window, bounding the
    /// table's growth under high-cardinality traffic.
    pub fn evict_idle(&mut self, now_ns: u64, idle_ns: u64)
        ensures
            final(self).requests_per_minute == old(self).requests_per_minute,
            final(self).burst_size == old(self).burst_size,
            final(self).entries@ == retained_spec(old(self).entries@, now_ns, idle_ns),
    {
        let ghost entries0 = self.entries@;
        let n = self.entries.len();
        let mut kept: Vec<BucketEntry> = Vec::new();
        let mut i: usize = 0;
        while i < n
            invariant
                0 <= i <= n,
                n == self.entries@.len(),
                entries0 == old(self).entries@,
                self.entries@ == entries0,
                self.requests_per_minute == old(self).requests_per_minute,
                self.burst_size == old(self).burst_size,
                kept@ == retained_spec(entries0.take(i as int), now_ns, idle_ns),
            decreases n - i,
        {
            let e = self.entries[i];
            proof {
                assert(entries0.take(i + 1).drop_last() =~= entries0.take(i as int));
                assert(entries0.take(i + 1).last() == entries0[i as int]);
            }
            if e.last_seen_ns <= u64::MAX - idle_ns && e.last_seen_ns + idle_ns >= now_ns {
                kept.push(e);
            } else if e.last_seen_ns > u64::MAX - idle_ns {
                // The sum exceeds the timeline's maximum, so the entry is
                // certainly within the window.
                kept.push(e);
            }
            proof {
                assert(kept@ =~= retained_spec(entries0.take(i + 1), now_ns, idle_ns));
            }
            i = i + 1;
        }
        proof {
            assert(entries0.take(n as int) =~= entries0);
        }
        self.entries = kept;
    }
}

} // verus!
