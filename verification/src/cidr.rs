//! Address-range rules: a rule pattern is either a single address or a
//! network in prefix notation (`10.0.0.0/8`), and a client address matches a
//! rule by exact equality or by containment in the network.
//!
//! Containment keeps the high `prefix` bits and compares: it is inclusive of
//! the lowest (network) and highest (broadcast) address of the block.

use vstd::prelude::*;

verus! {

use vstd::arithmetic::power2::{pow2, lemma_pow2_pos, lemma_pow2_adds, lemma_pow2_strictly_increases, lemma2_to64, lemma2_to64_rest};
use vstd::arithmetic::div_mod::{lemma_fundamental_div_mod, lemma_fundamental_div_mod_converse};
use crate::text::{split_str, split_spec, dec_val};
use crate::ip::{IpAddress, parse_ip, parse_ip_spec, parse_octet, valid_octet};

/// A parsed network pattern: base address and prefix length.
#[derive(Clone, Copy, Debug, PartialEq, Eq, Structural)]
pub struct IpNetwork {
    pub base: IpAddress,
    pub prefix: u8,
}

/// A prefix-notation pattern: an address, `/`, and a prefix length no larger
/// than the address width. The prefix length is written like an octet: one to
/// three digits without leading zeros.
pub open spec fn parse_cidr_spec(s: Seq<char>) -> Option<IpNetwork> {
    let ps = split_spec(s, '/');
    if ps.len() == 2 {
        match parse_ip_spec(ps[0]) {
            Some(a) => {
                if valid_octet(ps[1]) && dec_val(ps[1]) <= (match a {
                    IpAddress::V4(_) => 32int,
                    IpAddress::V6(_) => 128int,
                }) {
                    Some(IpNetwork { base: a, prefix: dec_val(ps[1]) as u8 })
                } else {
                    None
                }
            },
            None => None,
        }
    } else {
        None
    }
}

/// Whether two 32-bit addresses share their high `prefix` bits.
pub open spec fn in_net_v4(ip: u32, net: u32, prefix: int) -> bool {
    ip as int / pow2((32 - prefix) as nat) as int == net as int / pow2((32 - prefix) as nat) as int
}

/// Whether two 128-bit addresses share their high `prefix` bits.
pub open spec fn in_net_v6(ip: u128, net: u128, prefix: int) -> bool {
    ip as int / pow2((128 - prefix) as nat) as int == net as int / pow2(
        (128 - prefix) as nat,
    ) as int
}

/// Whether an address lies in a network; addresses of the other family never
/// match.
pub open spec fn network_contains(net: IpNetwork, ip: IpAddress) -> bool {
    match (net.base, ip) {
        (IpAddress::V4(n), IpAddress::V4(a)) => net.prefix <= 32 && in_net_v4(
            a,
            n,
            net.prefix as int,
        ),
        (IpAddress::V6(n), IpAddress::V6(a)) => net.prefix <= 128 && in_net_v6(
            a,
            n,
            net.prefix as int,
        ),
        _ => false,
    }
}

/// Whether an address matches a textual rule pattern: equality when the
/// pattern is a single address, containment when it is a network, and no
/// match when it is neither.
pub open spec fn matches_ip_or_cidr_spec(ip: IpAddress, pattern: Seq<char>) -> bool {
    match parse_ip_spec(pattern) {
        Some(p) => ip == p,
        None => match parse_cidr_spec(pattern) {
            Some(net) => network_contains(net, ip),
            None => false,
        },
    }
}

/// Computes 2^e.
fn pow2_u128(e: usize) -> (r: u128)
    requires
        e <= 127,
    ensures
        r as nat == pow2(e as nat),
        r >= 1,
{
    proof {
        lemma2_to64();
        lemma2_to64_rest();
        lemma_pow2_adds(64, 63);
        assert(pow2(127) == 0x80000000000000000000000000000000) by {
            assert(pow2(64) == 0x10000000000000000);
            assert(pow2(63) == 0x8000000000000000);
        }
    }
    let mut r: u128 = 1;
    let mut i: usize = 0;
    while i < e
        invariant
            0 <= i <= e <= 127,
            r as nat == pow2(i as nat),
        decreases e - i,
    {
        proof {
            lemma2_to64();
            lemma2_to64_rest();
            lemma_pow2_adds(64, 63);
            assert(pow2(127) == 0x80000000000000000000000000000000) by {
                assert(pow2(64) == 0x10000000000000000);
                assert(pow2(63) == 0x8000000000000000);
            }
            if i < 127 {
                lemma_pow2_strictly_increases(i as nat, 127);
            }
            lemma_pow2_adds(i as nat, 1);
            assert(pow2(1) == 2);
        }
        r = r * 2;
        i = i + 1;
    }
    proof {
        lemma_pow2_pos(e as nat);
    }
    r
}

/// Parses a prefix-notation pattern.
pub fn parse_cidr(s: &str) -> (r: Option<IpNetwork>)
    ensures
        r == parse_cidr_spec(s@),
{
    let parts = split_str(s, '/');
    if parts.len() != 2 {
        return None;
    }
    let addr = match parse_ip(parts[0].as_str()) {
        Some(a) => a,
        None => {
            return None;
        },
    };
    let bits: u32 = match addr {
        IpAddress::V4(_) => 32,
        IpAddress::V6(_) => 128,
    };
    match parse_octet(parts[1].as_str()) {
        Some(p) => {
            if p <= bits {
                Some(IpNetwork { base: addr, prefix: p as u8 })
            } else {
                None
            }
        },
        None => None,
    }
}

/// Tests whether an address lies in a network.
pub fn network_contains_ip(net: &IpNetwork, ip: &IpAddress) -> (r: bool)
    ensures
        r == network_contains(*net, *ip),
{
    match (net.base, ip) {
        (IpAddress::V4(n), IpAddress::V4(a)) => {
            if net.prefix > 32 {
                return false;
            }
            let shift = (32 - net.prefix) as usize;
            let block = pow2_u128(shift);
            proof {
                lemma_pow2_pos(shift as nat);
            }
            (*a as u128) / block == (n as u128) / block
        },
        (IpAddress::V6(n), IpAddress::V6(a)) => {
            if net.prefix > 128 {
                return false;
            }
            let shift = (128 - net.prefix) as usize;
            if shift == 128 {
                // The whole address space: every address matches.
                proof {
                    lemma_pow2_adds(64, 64);
                    lemma2_to64();
                    lemma2_to64_rest();
                    assert(pow2(128) == 0x100000000000000000000000000000000) by {
                        assert(pow2(64) == 0x10000000000000000);
                    }
                    assert(*a as int / pow2(128) as int == 0);
                    assert(n as int / pow2(128) as int == 0);
                }
                return true;
            }
            let block = pow2_u128(shift);
            proof {
                lemma_pow2_pos(shift as nat);
            }
            (*a as u128) / block == (n as u128) / block
        },
        _ => false,
    }
}

/// Tests whether an address matches a textual rule pattern.
pub fn matches_ip_or_cidr(ip: &IpAddress, pattern: &str) -> (r: bool)
    ensures
        r == matches_ip_or_cidr_spec(*ip, pattern@),
{
    match parse_ip(pattern) {
        Some(p) => *ip == p,
        None => {
            match parse_cidr(pattern) {
                Some(net) => network_contains_ip(&net, ip),
                None => false,
            }
        },
    }
}

/// Containment is a block: a 32-bit address lies in a network exactly when it
/// lies between the network address and the broadcast address of the block,
/// both inclusive; the address one past the broadcast address lies outside.
pub proof fn lemma_v4_containment_is_block(ip: u32, net: u32, prefix: int)
    requires
        0 <= prefix <= 32,
    ensures
        ({
            let block = pow2((32 - prefix) as nat) as int;
            let lo = (net as int / block) * block;
            in_net_v4(ip, net, prefix) <==> lo <= ip as int <= lo + (block - 1)
        }),
{
    let block = pow2((32 - prefix) as nat) as int;
    lemma_pow2_pos((32 - prefix) as nat);
    let q = net as int / block;
    let lo = q * block;
    lemma_fundamental_div_mod(ip as int, block);
    lemma_fundamental_div_mod(net as int, block);
    if in_net_v4(ip, net, prefix) {
        assert(ip as int == block * q + ip as int % block);
        assert(0 <= ip as int % block < block) by {
            lemma_mod_bound_local(ip as int, block);
        }
        assert(lo <= ip as int <= lo + (block - 1)) by (nonlinear_arith)
            requires
                ip as int == block * q + ip as int % block,
                0 <= ip as int % block < block,
                lo == q * block,
        ;
    }
    if lo <= ip as int <= lo + (block - 1) {
        let r = ip as int - lo;
        assert(ip as int == q * block + r) by (nonlinear_arith)
            requires
                r == ip as int - lo,
                lo == q * block,
        ;
        lemma_fundamental_div_mod_converse(ip as int, block, q, r);
    }
}

/// The same block shape for 128-bit addresses: containment is inclusive of
/// the lowest and highest address of the block, and of nothing outside.
pub proof fn lemma_v6_containment_is_block(ip: u128, net: u128, prefix: int)
    requires
        0 <= prefix <= 128,
    ensures
        ({
            let block = pow2((128 - prefix) as nat) as int;
            let lo = (net as int / block) * block;
            in_net_v6(ip, net, prefix) <==> lo <= ip as int <= lo + (block - 1)
        }),
{
    let block = pow2((128 - prefix) as nat) as int;
    lemma_pow2_pos((128 - prefix) as nat);
    let q = net as int / block;
    let lo = q * block;
    lemma_fundamental_div_mod(ip as int, block);
    lemma_fundamental_div_mod(net as int, block);
    if in_net_v6(ip, net, prefix) {
        assert(ip as int == block * q + ip as int % block);
        assert(0 <= ip as int % block < block) by {
            lemma_mod_bound_local(ip as int, block);
        }
        assert(lo <= ip as int <= lo + (block - 1)) by (nonlinear_arith)
            requires
                ip as int == block * q + ip as int % block,
                0 <= ip as int % block < block,
                lo == q * block,
        ;
    }
    if lo <= ip as int <= lo + (block - 1) {
        let r = ip as int - lo;
        assert(ip as int == q * block + r) by (nonlinear_arith)
            requires
                r == ip as int - lo,
                lo == q * block,
        ;
        lemma_fundamental_div_mod_converse(ip as int, block, q, r);
    }
}

proof fn lemma_mod_bound_local(x: int, d: int)
    requires
        0 <= x,
        0 < d,
    ensures
        0 <= x % d < d,
{
    assert(0 <= x % d < d) by (nonlinear_arith)
        requires
            0 <= x,
            0 < d,
    ;
}

} // verus!
