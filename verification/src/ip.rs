//! IP addresses as plain values, and the grammar of their textual form.
//!
//! An address is either 32 bits (dotted-quad form) or 128 bits (colon-grouped
//! form, with an optional `::` gap and an optional dotted-quad tail). The
//! accepted grammar follows the usual strict rules: exactly four decimal
//! octets without leading zeros for the 32-bit form; one-to-four-digit hex
//! groups, at most one `::`, and eight groups in total for the 128-bit form.
//! Ports, brackets and zone identifiers are not part of an address and are
//! rejected, not repaired.

use vstd::prelude::*;

verus! {

use vstd::string::StrSliceExecFns;
use crate::text::{split_str, split_spec, is_dec_digit, dec_digit_val, all_dec_digits, dec_val, lemma_dec_val_bounds};

/// A client or rule address, IPv4 or IPv6, as a plain value.
#[derive(Clone, Copy, Debug, PartialEq, Eq, Structural, Hash)]
pub enum IpAddress {
    V4(u32),
    V6(u128),
}

impl IpAddress {
    /// Builds a 32-bit address from its four dotted-quad octets.
    pub fn from_v4_octets(a: u8, b: u8, c: u8, d: u8) -> (r: IpAddress)
        ensures
            r == IpAddress::V4(
                (((a as u32) * 0x1000000 + (b as u32) * 0x10000 + (c as u32) * 0x100 + (
                d as u32)) as u32),
            ),
    {
        IpAddress::V4(
            (a as u32) * 0x1000000 + (b as u32) * 0x10000 + (c as u32) * 0x100 + (d as u32),
        )
    }

    /// Builds a 128-bit address from its eight 16-bit groups.
    pub fn from_v6_groups(g: [u16; 8]) -> (r: IpAddress)
        ensures
            r == IpAddress::V6(
                ((((g[0] as u128) * 0x10000000000000000000000000000) + ((g[1] as u128)
                    * 0x1000000000000000000000000) + ((g[2] as u128) * 0x100000000000000000000) + ((
                g[3] as u128) * 0x10000000000000000) + ((g[4] as u128) * 0x1000000000000) + ((
                g[5] as u128) * 0x100000000) + ((g[6] as u128) * 0x10000) + (g[7] as u128)) as u128),
            ),
    {
        let mut v: u128 = g[0] as u128;
        v = v * 0x10000 + (g[1] as u128);
        v = v * 0x10000 + (g[2] as u128);
        v = v * 0x10000 + (g[3] as u128);
        v = v * 0x10000 + (g[4] as u128);
        v = v * 0x10000 + (g[5] as u128);
        v = v * 0x10000 + (g[6] as u128);
        v = v * 0x10000 + (g[7] as u128);
        IpAddress::V6(v)
    }
}

/// The hexadecimal digit characters.
pub open spec fn is_hex_digit(c: char) -> bool {
    is_dec_digit(c) || ('a' <= c && c <= 'f') || ('A' <= c && c <= 'F')
}

/// The numeric value of a hexadecimal digit character.
pub open spec fn hex_digit_val(c: char) -> int {
    if is_dec_digit(c) {
        dec_digit_val(c)
    } else if 'a' <= c && c <= 'f' {
        c as int - 'a' as int + 10
    } else {
        c as int - 'A' as int + 10
    }
}

/// The value of a sequence of hexadecimal digits, most significant first.
pub open spec fn hex_val(s: Seq<char>) -> int
    decreases s.len(),
{
    if s.len() == 0 {
        0
    } else {
        hex_val(s.drop_last()) * 16 + hex_digit_val(s.last())
    }
}

/// A decimal octet: one to three digits, no leading zero, value at most 255.
pub open spec fn valid_octet(s: Seq<char>) -> bool {
    &&& 1 <= s.len() <= 3
    &&& all_dec_digits(s)
    &&& (s.len() > 1 ==> s[0] != '0')
    &&& dec_val(s) <= 255
}

/// The dotted-quad form: four valid octets joined by `.`.
pub open spec fn parse_ipv4_spec(s: Seq<char>) -> Option<u32> {
    let ps = split_spec(s, '.');
    if ps.len() == 4 && valid_octet(ps[0]) && valid_octet(ps[1]) && valid_octet(ps[2])
        && valid_octet(ps[3]) {
        Some(
            (dec_val(ps[0]) * 0x1000000 + dec_val(ps[1]) * 0x10000 + dec_val(ps[2]) * 0x100
                + dec_val(ps[3])) as u32,
        )
    } else {
        None
    }
}

/// A hex group: one to four hexadecimal digits.
pub open spec fn valid_hex_group(s: Seq<char>) -> bool {
    &&& 1 <= s.len() <= 4
    &&& forall|k: int| 0 <= k < s.len() ==> is_hex_digit(#[trigger] s[k])
}

/// The position of the first `::`, if any.
pub open spec fn find_dc(s: Seq<char>) -> Option<int>
    decreases s.len(),
{
    if s.len() < 2 {
        None
    } else if s[0] == ':' && s[1] == ':' {
        Some(0)
    } else {
        match find_dc(s.drop_first()) {
            Some(i) => Some(i + 1),
            None => None,
        }
    }
}

/// Whether the sequence contains the given character.
pub open spec fn contains_char(s: Seq<char>, c: char) -> bool {
    exists|k: int| 0 <= k < s.len() && s[k] == c
}

/// The group values of a list of colon-separated parts. Each part must be a
/// hex group, except that the final part may be a dotted quad (two groups)
/// where a tail in that form is allowed.
pub open spec fn parse_groups_spec(parts: Seq<Seq<char>>, v4_tail: bool) -> Option<Seq<int>>
    decreases parts.len(),
{
    if parts.len() == 0 {
        Some(Seq::<int>::empty())
    } else if parts.len() == 1 {
        let p = parts[0];
        if v4_tail && contains_char(p, '.') {
            match parse_ipv4_spec(p) {
                Some(v) => Some(seq![v as int / 0x10000, v as int % 0x10000]),
                None => None,
            }
        } else if valid_hex_group(p) {
            Some(seq![hex_val(p)])
        } else {
            None
        }
    } else {
        if valid_hex_group(parts[0]) {
            match parse_groups_spec(parts.drop_first(), v4_tail) {
                Some(r) => Some(seq![hex_val(parts[0])] + r),
                None => None,
            }
        } else {
            None
        }
    }
}

/// The 128-bit value of eight 16-bit groups, most significant first.
pub open spec fn groups_val(gs: Seq<int>) -> int
    decreases gs.len(),
{
    if gs.len() == 0 {
        0
    } else {
        groups_val(gs.drop_last()) * 0x10000 + gs.last()
    }
}

/// The colon-grouped form: eight hex groups, or fewer with one `::` gap
/// standing for the missing zero groups, with an optional dotted-quad tail.
pub open spec fn parse_ipv6_spec(s: Seq<char>) -> Option<u128> {
    match find_dc(s) {
        None => {
            match parse_groups_spec(split_spec(s, ':'), true) {
                Some(gs) => if gs.len() == 8 {
                    Some(groups_val(gs) as u128)
                } else {
                    None
                },
                None => None,
            }
        },
        Some(i) => {
            let left = s.take(i);
            let right = s.skip(i + 2);
            if find_dc(right) is Some {
                None
            } else {
                let lg = if left.len() == 0 {
                    Some(Seq::<Seq<char>>::empty())
                } else {
                    Some(split_spec(left, ':'))
                };
                let rg = if right.len() == 0 {
                    Some(Seq::<Seq<char>>::empty())
                } else {
                    Some(split_spec(right, ':'))
                };
                match (parse_groups_spec(lg.unwrap(), false), parse_groups_spec(rg.unwrap(), true)) {
                    (Some(l), Some(r)) => if l.len() + r.len() <= 7 {
                        Some(
                            groups_val(l + Seq::<int>::new((8 - l.len() - r.len()) as nat, |k: int| 0) + r) as u128,
                        )
                    } else {
                        None
                    },
                    _ => None,
                }
            }
        },
    }
}

/// The textual form of an address: dotted quad, else colon-grouped.
pub open spec fn parse_ip_spec(s: Seq<char>) -> Option<IpAddress> {
    if parse_ipv4_spec(s) is Some {
        Some(IpAddress::V4(parse_ipv4_spec(s).unwrap()))
    } else if parse_ipv6_spec(s) is Some {
        Some(IpAddress::V6(parse_ipv6_spec(s).unwrap()))
    } else {
        None
    }
}

proof fn lemma_hex_val_bounds(s: Seq<char>)
    requires
        forall|k: int| 0 <= k < s.len() ==> is_hex_digit(#[trigger] s[k]),
    ensures
        0 <= hex_val(s),
        s.len() <= 1 ==> hex_val(s) <= 0xf,
        s.len() <= 2 ==> hex_val(s) <= 0xff,
        s.len() <= 3 ==> hex_val(s) <= 0xfff,
        s.len() <= 4 ==> hex_val(s) <= 0xffff,
    decreases s.len(),
{
    if s.len() > 0 {
        let t = s.drop_last();
        lemma_hex_val_bounds(t);
        assert(is_hex_digit(s.last()));
        assert(0 <= hex_digit_val(s.last()) <= 15);
    }
}

/// Reads one decimal octet; accepts exactly the strings `valid_octet` allows.
pub(crate) fn parse_octet(p: &str) -> (r: Option<u32>)
    ensures
        r is Some <==> valid_octet(p@),
        r matches Some(v) ==> v == dec_val(p@),
{
    let n = p.unicode_len();
    if n < 1 || n > 3 {
        return None;
    }
    let mut acc: u32 = 0;
    let mut i: usize = 0;
    while i < n
        invariant
            0 <= i <= n,
            1 <= n <= 3,
            n == p@.len(),
            forall|k: int| 0 <= k < i ==> is_dec_digit(#[trigger] p@[k]),
            acc == dec_val(p@.take(i as int)),
            acc <= 999,
        decreases n - i,
    {
        let c = p.get_char(i);
        if !(c >= '0' && c <= '9') {
            return None;
        }
        proof {
            assert(p@.take(i + 1).drop_last() =~= p@.take(i as int));
            assert(p@.take(i + 1).last() == p@[i as int]);
            assert(dec_val(p@.take(i as int)) <= 99) by {
                assert(all_dec_digits(p@.take(i as int)));
                lemma_dec_val_bounds(p@.take(i as int));
            }
        }
        acc = acc * 10 + (c as u32 - '0' as u32);
        i = i + 1;
    }
    proof {
        assert(p@.take(n as int) =~= p@);
    }
    if n > 1 && p.get_char(0) == '0' {
        return None;
    }
    if acc > 255 {
        return None;
    }
    Some(acc)
}

/// Parses the dotted-quad form of an address.
pub fn parse_ipv4(s: &str) -> (r: Option<u32>)
    ensures
        r == parse_ipv4_spec(s@),
{
    let parts = split_str(s, '.');
    if parts.len() != 4 {
        return None;
    }
    let o0 = parse_octet(parts[0].as_str());
    let o1 = parse_octet(parts[1].as_str());
    let o2 = parse_octet(parts[2].as_str());
    let o3 = parse_octet(parts[3].as_str());
    match (o0, o1, o2, o3) {
        (Some(a), Some(b), Some(c), Some(d)) => Some(
            a * 0x1000000 + b * 0x10000 + c * 0x100 + d,
        ),
        _ => None,
    }
}

/// Reads one hex group; accepts exactly the strings `valid_hex_group` allows.
fn parse_hex_group(p: &str) -> (r: Option<u32>)
    ensures
        r is Some <==> valid_hex_group(p@),
        r matches Some(v) ==> v == hex_val(p@) && v <= 0xffff,
{
    let n = p.unicode_len();
    if n < 1 || n > 4 {
        return None;
    }
    let mut acc: u32 = 0;
    let mut i: usize = 0;
    while i < n
        invariant
            0 <= i <= n,
            1 <= n <= 4,
            n == p@.len(),
            forall|k: int| 0 <= k < i ==> is_hex_digit(#[trigger] p@[k]),
            acc == hex_val(p@.take(i as int)),
            acc <= 0xffff,
        decreases n - i,
    {
        let c = p.get_char(i);
        let d: u32;
        if c >= '0' && c <= '9' {
            d = c as u32 - '0' as u32;
        } else if c >= 'a' && c <= 'f' {
            d = c as u32 - 'a' as u32 + 10;
        } else if c >= 'A' && c <= 'F' {
            d = c as u32 - 'A' as u32 + 10;
        } else {
            return None;
        }
        proof {
            assert(p@.take(i + 1).drop_last() =~= p@.take(i as int));
            assert(p@.take(i + 1).last() == p@[i as int]);
            assert(hex_val(p@.take(i as int)) <= 0xfff) by {
                lemma_hex_val_bounds(p@.take(i as int));
            }
        }
        acc = acc * 16 + d;
        i = i + 1;
    }
    proof {
        assert(p@.take(n as int) =~= p@);
    }
    Some(acc)
}

/// Whether the string contains the given character.
pub fn str_contains_char(s: &str, c: char) -> (r: bool)
    ensures
        r == contains_char(s@, c),
{
    let n = s.unicode_len();
    let mut i: usize = 0;
    while i < n
        invariant
            0 <= i <= n,
            n == s@.len(),
            forall|k: int| 0 <= k < i ==> s@[k] != c,
        decreases n - i,
    {
        if s.get_char(i) == c {
            return true;
        }
        i = i + 1;
    }
    false
}

/// The view of a list of strings.
pub open spec fn strs_view(ps: Seq<String>) -> Seq<Seq<char>> {
    ps.map_values(|p: String| p@)
}

/// The int view of a list of group values.
pub open spec fn groups_view(gs: Seq<u16>) -> Seq<int> {
    gs.map_values(|g: u16| g as int)
}

/// Reads the group values of the parts from position `i` on.
fn parse_groups(parts: &Vec<String>, i: usize, v4_tail: bool) -> (r: Option<Vec<u16>>)
    requires
        i <= parts@.len(),
    ensures
        r is Some <==> parse_groups_spec(strs_view(parts@).skip(i as int), v4_tail) is Some,
        r matches Some(v) ==> groups_view(v@) == parse_groups_spec(
            strs_view(parts@).skip(i as int),
            v4_tail,
        ).unwrap(),
    decreases parts@.len() - i,
{
    let ghost tail = strs_view(parts@).skip(i as int);
    if i == parts.len() {
        proof {
            assert(tail =~= Seq::<Seq<char>>::empty());
            assert(groups_view(Seq::<u16>::empty()) =~= Seq::<int>::empty());
        }
        return Some(Vec::new());
    }
    proof {
        assert(tail[0] == parts@[i as int]@);
    }
    if i + 1 == parts.len() {
        let p = &parts[i];
        proof {
            assert(tail.len() == 1);
        }
        if v4_tail && str_contains_char(p.as_str(), '.') {
            match parse_ipv4(p.as_str()) {
                Some(v) => {
                    let hi = (v / 0x10000) as u16;
                    let lo = (v % 0x10000) as u16;
                    let mut out: Vec<u16> = Vec::new();
                    out.push(hi);
                    out.push(lo);
                    proof {
                        assert(groups_view(out@) =~= seq![v as int / 0x10000, v as int % 0x10000]);
                    }
                    Some(out)
                },
                None => None,
            }
        } else {
            match parse_hex_group(p.as_str()) {
                Some(v) => {
                    let mut out: Vec<u16> = Vec::new();
                    out.push(v as u16);
                    proof {
                        assert(groups_view(out@) =~= seq![hex_val(p@)]);
                    }
                    Some(out)
                },
                None => None,
            }
        }
    } else {
        proof {
            assert(tail.len() >= 2);
            assert(tail.drop_first() =~= strs_view(parts@).skip(i + 1));
        }
        match parse_hex_group(parts[i].as_str()) {
            Some(v) => {
                match parse_groups(parts, i + 1, v4_tail) {
                    Some(rest) => {
                        let mut out: Vec<u16> = Vec::new();
                        out.push(v as u16);
                        let mut k: usize = 0;
                        while k < rest.len()
                            invariant
                                0 <= k <= rest@.len(),
                                out@.len() == k + 1,
                                out@[0] == v as u16,
                                forall|m: int| 0 <= m < k ==> out@[m + 1] == rest@[m],
                            decreases rest@.len() - k,
                        {
                            out.push(rest[k]);
                            k = k + 1;
                        }
                        proof {
                            assert(groups_view(out@) =~= seq![hex_val(parts@[i as int]@)]
                                + groups_view(rest@));
                        }
                        Some(out)
                    },
                    None => None,
                }
            },
            None => None,
        }
    }
}

/// Position of the first `::` in the string, if any.
pub(crate) fn find_double_colon(s: &str) -> (r: Option<usize>)
    ensures
        match r {
            Some(i) => find_dc(s@) == Some(i as int),
            None => find_dc(s@) is None,
        },
{
    let n = s.unicode_len();
    if n < 2 {
        proof {
            lemma_find_dc_none(s@, 0);
        }
        return None;
    }
    let mut i: usize = 0;
    while i < n - 1
        invariant
            0 <= i <= n - 1,
            2 <= n,
            n == s@.len(),
            forall|k: int| 0 <= k < i ==> !(#[trigger] s@[k] == ':' && s@[k + 1] == ':'),
        decreases n - i,
    {
        if s.get_char(i) == ':' && s.get_char(i + 1) == ':' {
            proof {
                lemma_find_dc_at(s@, i as int);
            }
            return Some(i);
        }
        i = i + 1;
    }
    proof {
        lemma_find_dc_none(s@, i as int);
    }
    None
}

proof fn lemma_find_dc_at(s: Seq<char>, i: int)
    requires
        0 <= i,
        i + 1 < s.len(),
        s[i] == ':' && s[i + 1] == ':',
        forall|k: int| 0 <= k < i ==> !(#[trigger] s[k] == ':' && s[k + 1] == ':'),
    ensures
        find_dc(s) == Some(i),
    decreases i,
{
    if i == 0 {
    } else {
        let t = s.drop_first();
        assert(forall|k: int| 0 <= k < i - 1 ==> !(#[trigger] t[k] == ':' && t[k + 1] == ':'));
        assert(t[i - 1] == ':' && t[i] == ':');
        lemma_find_dc_at(t, i - 1);
        assert(!(s[0] == ':' && s[1] == ':'));
    }
}

proof fn lemma_find_dc_props(s: Seq<char>)
    ensures
        find_dc(s) matches Some(i) ==> 0 <= i && i + 1 < s.len() && s[i] == ':' && s[i + 1] == ':',
    decreases s.len(),
{
    if s.len() >= 2 && !(s[0] == ':' && s[1] == ':') {
        lemma_find_dc_props(s.drop_first());
    }
}

proof fn lemma_find_dc_none(s: Seq<char>, i: int)
    requires
        0 <= i,
        i >= s.len() - 1,
        forall|k: int| 0 <= k < i ==> !(k + 1 < s.len() && #[trigger] s[k] == ':' && s[k + 1]
            == ':'),
    ensures
        find_dc(s) is None,
    decreases s.len(),
{
    if s.len() < 2 {
    } else {
        assert(!(s[0] == ':' && s[1] == ':'));
        let t = s.drop_first();
        assert(forall|k: int| 0 <= k < i - 1 ==> !(k + 1 < t.len() && #[trigger] t[k] == ':' && t[k
            + 1] == ':'));
        lemma_find_dc_none(t, i - 1);
    }
}

/// An upper bound for group lists: each value below 2^16 keeps the combined
/// value below 2^(16·n).
proof fn lemma_groups_val_bound(gs: Seq<int>)
    requires
        forall|k: int| 0 <= k < gs.len() ==> 0 <= #[trigger] gs[k] < 0x10000,
        gs.len() <= 8,
    ensures
        0 <= groups_val(gs),
        groups_val(gs) < pow16(gs.len() as int),
    decreases gs.len(),
{
    if gs.len() == 0 {
    } else {
        let t = gs.drop_last();
        lemma_groups_val_bound(t);
        assert(groups_val(t) * 0x10000 + gs.last() < pow16(gs.len() as int)) by (nonlinear_arith)
            requires
                0 <= groups_val(t),
                groups_val(t) < pow16(t.len() as int),
                0 <= gs.last() < 0x10000,
                pow16(gs.len() as int) == pow16(t.len() as int) * 0x10000,
                t.len() == gs.len() - 1,
        ;
    }
}

/// 2 raised to 16·k.
pub open spec fn pow16(k: int) -> int
    decreases k,
{
    if k <= 0 {
        1
    } else {
        pow16(k - 1) * 0x10000
    }
}

/// Combines exactly eight group values into the 128-bit address value.
fn assemble_groups(gs: &Vec<u16>) -> (r: u128)
    requires
        gs@.len() == 8,
    ensures
        r == groups_val(groups_view(gs@)),
{
    let ghost gv = groups_view(gs@);
    let mut acc: u128 = 0;
    let mut i: usize = 0;
    while i < 8
        invariant
            0 <= i <= 8,
            gs@.len() == 8,
            gv == groups_view(gs@),
            acc == groups_val(gv.take(i as int)),
        decreases 8 - i,
    {
        proof {
            assert(gv.take(i + 1).drop_last() =~= gv.take(i as int));
            assert(gv.take(i + 1).last() == gs@[i as int] as int);
            assert(forall|k: int| 0 <= k < gv.take(i as int).len() ==> 0 <= #[trigger] gv.take(
                i as int,
            )[k] < 0x10000);
            lemma_groups_val_bound(gv.take(i as int));
            assert(pow16(i as int) <= pow16(7)) by {
                lemma_pow16_le(i as int, 7);
            }
            assert(pow16(7) == 0x10000000000000000000000000000int) by {
                assert(pow16(0) == 1);
                assert(pow16(1) == 0x10000);
                assert(pow16(2) == 0x100000000);
                assert(pow16(3) == 0x1000000000000);
                assert(pow16(4) == 0x10000000000000000);
                assert(pow16(5) == 0x100000000000000000000);
                assert(pow16(6) == 0x1000000000000000000000000);
                assert(pow16(7) == 0x10000000000000000000000000000);
            }
        }
        acc = acc * 0x10000 + (gs[i] as u128);
        i = i + 1;
    }
    proof {
        assert(gv.take(8) =~= gv);
    }
    acc
}

proof fn lemma_pow16_le(a: int, b: int)
    requires
        0 <= a <= b,
    ensures
        pow16(a) <= pow16(b),
        pow16(a) >= 1,
    decreases b - a,
{
    if a < b {
        lemma_pow16_le(a, b - 1);
        assert(pow16(b) == pow16(b - 1) * 0x10000);
    } else {
        lemma_pow16_pos(a);
    }
}

proof fn lemma_pow16_pos(a: int)
    ensures
        pow16(a) >= 1,
    decreases a,
{
    if a > 0 {
        lemma_pow16_pos(a - 1);
    }
}

/// Parses the colon-grouped form of an address.
pub fn parse_ipv6(s: &str) -> (r: Option<u128>)
    ensures
        r == parse_ipv6_spec(s@),
{
    let n = s.unicode_len();
    match find_double_colon(s) {
        None => {
            let parts = split_str(s, ':');
            proof {
                assert(strs_view(parts@).skip(0) =~= strs_view(parts@));
                assert(strs_view(parts@) =~= split_spec(s@, ':')) by {
                    assert(strs_view(parts@).len() == split_spec(s@, ':').len());
                    assert(forall|k: int| 0 <= k < parts@.len() ==> strs_view(parts@)[k]
                        == #[trigger] parts@[k]@);
                }
            }
            match parse_groups(&parts, 0, true) {
                Some(gs) => {
                    if gs.len() == 8 {
                        Some(assemble_groups(&gs))
                    } else {
                        None
                    }
                },
                None => None,
            }
        },
        Some(i) => {
            proof {
                lemma_find_dc_props(s@);
            }
            let left = s.substring_char(0, i);
            let right = s.substring_char(i + 2, n);
            proof {
                assert(left@ =~= s@.take(i as int));
                assert(right@ =~= s@.skip(i + 2));
            }
            if find_double_colon(right).is_some() {
                return None;
            }
            let lparts: Vec<String> = if left.is_empty() {
                Vec::new()
            } else {
                split_str(left, ':')
            };
            let rparts: Vec<String> = if right.is_empty() {
                Vec::new()
            } else {
                split_str(right, ':')
            };
            proof {
                if left@.len() == 0 {
                    assert(strs_view(lparts@) =~= Seq::<Seq<char>>::empty());
                } else {
                    assert(strs_view(lparts@) =~= split_spec(left@, ':')) by {
                        assert(strs_view(lparts@).len() == split_spec(left@, ':').len());
                    }
                }
                if right@.len() == 0 {
                    assert(strs_view(rparts@) =~= Seq::<Seq<char>>::empty());
                } else {
                    assert(strs_view(rparts@) =~= split_spec(right@, ':')) by {
                        assert(strs_view(rparts@).len() == split_spec(right@, ':').len());
                    }
                }
                assert(strs_view(lparts@).skip(0) =~= strs_view(lparts@));
                assert(strs_view(rparts@).skip(0) =~= strs_view(rparts@));
            }
            let lg = parse_groups(&lparts, 0, false);
            let rg = parse_groups(&rparts, 0, true);
            match (lg, rg) {
                (Some(l), Some(r)) => {
                    if l.len() <= 7 && r.len() <= 7 - l.len() {
                        let mut gs: Vec<u16> = Vec::new();
                        let mut k: usize = 0;
                        while k < l.len()
                            invariant
                                0 <= k <= l@.len(),
                                gs@ =~= l@.take(k as int),
                            decreases l@.len() - k,
                        {
                            gs.push(l[k]);
                            k = k + 1;
                        }
                        let zeros = 8 - l.len() - r.len();
                        let mut z: usize = 0;
                        while z < zeros
                            invariant
                                0 <= z <= zeros,
                                zeros == 8 - l@.len() - r@.len(),
                                gs@.len() == l@.len() + z,
                                gs@ =~= l@ + Seq::<u16>::new(z as nat, |m: int| 0u16),
                            decreases zeros - z,
                        {
                            gs.push(0u16);
                            z = z + 1;
                        }
                        let mut m: usize = 0;
                        while m < r.len()
                            invariant
                                0 <= m <= r@.len(),
                                zeros == 8 - l@.len() - r@.len(),
                                gs@ =~= l@ + Seq::<u16>::new(zeros as nat, |q: int| 0u16)
                                    + r@.take(m as int),
                            decreases r@.len() - m,
                        {
                            gs.push(r[m]);
                            m = m + 1;
                        }
                        proof {
                            assert(gs@ =~= l@ + Seq::<u16>::new(zeros as nat, |q: int| 0u16) + r@);
                            assert(gs@.len() == 8);
                            let spec_l = parse_groups_spec(strs_view(lparts@), false).unwrap();
                            let spec_r = parse_groups_spec(strs_view(rparts@), true).unwrap();
                            assert(groups_view(gs@) =~= spec_l + Seq::<int>::new(
                                (8 - spec_l.len() - spec_r.len()) as nat,
                                |q: int| 0,
                            ) + spec_r);
                        }
                        Some(assemble_groups(&gs))
                    } else {
                        None
                    }
                },
                _ => None,
            }
        },
    }
}

/// Parses an address in either textual form.
pub fn parse_ip(s: &str) -> (r: Option<IpAddress>)
    ensures
        r == parse_ip_spec(s@),
{
    match parse_ipv4(s) {
        Some(v) => Some(IpAddress::V4(v)),
        None => {
            match parse_ipv6(s) {
                Some(v) => Some(IpAddress::V6(v)),
                None => None,
            }
        },
    }
}

} // verus!
