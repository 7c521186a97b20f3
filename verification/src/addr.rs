//! The listen-address grammar: `host:port` with an IPv4 dotted quad, or
//! `[host]:port` with an IPv6 group list.  The model keeps exactly what
//! the lifecycle logic reads from an address: the family, whether the
//! host is the unspecified wildcard, whether it is a loopback address,
//! and the port.
use crate::chars::all_digits;
use crate::chars::digits_val;
use crate::chars::is_digit_char;
use crate::chars::parse_decimal_capped;
use crate::chars::spec_trim;
use crate::chars::trim_str;
use crate::scan::first_idx_of;
use crate::scan::last_idx_of;
use crate::scan::lemma_first_idx_of;
use crate::scan::lemma_first_idx_of_at;
use crate::scan::lemma_last_idx_of;
use crate::scan::lemma_last_idx_of_at;
use crate::scan::rfind_char;
use crate::scan::split_char;
use crate::scan::split_on;
use vstd::prelude::*;
use vstd::string::StrSliceExecFns;

verus! {

pub open spec fn is_hex_digit_char(c: char) -> bool {
    ('0' <= c && c <= '9') || ('a' <= c && c <= 'f') || ('A' <= c && c <= 'F')
}

pub open spec fn hex_digit_val(c: char) -> int {
    if '0' <= c && c <= '9' {
        c as int - '0' as int
    } else if 'a' <= c && c <= 'f' {
        10 + (c as int - 'a' as int)
    } else {
        10 + (c as int - 'A' as int)
    }
}

/// The numeric value of a sequence of hexadecimal digits.
pub open spec fn hex_val(s: Seq<char>) -> int
    decreases s.len(),
{
    if s.len() == 0 {
        0
    } else {
        hex_val(s.drop_last()) * 16 + hex_digit_val(s.last())
    }
}

pub open spec fn all_hex_digits(s: Seq<char>) -> bool {
    forall|i: int| 0 <= i < s.len() ==> is_hex_digit_char(#[trigger] s[i])
}

/// One group of an IPv6 address: one to four hexadecimal digits.
pub open spec fn valid_group(g: Seq<char>) -> bool {
    1 <= g.len() <= 4 && all_hex_digits(g)
}

proof fn lemma_hex_val_bound(s: Seq<char>)
    requires
        all_hex_digits(s),
    ensures
        0 <= hex_val(s),
        s.len() <= 1 ==> hex_val(s) <= 0xF,
        s.len() <= 2 ==> hex_val(s) <= 0xFF,
        s.len() <= 3 ==> hex_val(s) <= 0xFFF,
        s.len() <= 4 ==> hex_val(s) <= 0xFFFF,
    decreases s.len(),
{
    if s.len() > 0 {
        assert(all_hex_digits(s.drop_last())) by {
            assert(forall|i: int| 0 <= i < s.len() - 1 ==> s.drop_last()[i] == #[trigger] s[i]);
        }
        lemma_hex_val_bound(s.drop_last());
        assert(0 <= hex_digit_val(s.last()) <= 15);
    }
}

/// Parses one IPv6 group, rejecting empty and over-long groups.
fn parse_hex_group(g: &str) -> (r: Option<u16>)
    ensures
        (r is Some) == valid_group(g@),
        r is Some ==> r->Some_0 == hex_val(g@),
{
    let len: usize = g.unicode_len();
    if len == 0 || len > 4 {
        return None;
    }
    let mut acc: u32 = 0;
    let mut i: usize = 0;
    while i < len
        invariant
            0 <= i <= len,
            1 <= len <= 4,
            len == g@.len(),
            all_hex_digits(g@.subrange(0, i as int)),
            acc == hex_val(g@.subrange(0, i as int)),
            acc <= 0xFFFF,
        decreases len - i,
    {
        let c = g.get_char(i);
        let d: u32 = if '0' <= c && c <= '9' {
            (c as u32) - ('0' as u32)
        } else if 'a' <= c && c <= 'f' {
            10 + ((c as u32) - ('a' as u32))
        } else if 'A' <= c && c <= 'F' {
            10 + ((c as u32) - ('A' as u32))
        } else {
            proof {
                assert(!is_hex_digit_char(g@[i as int]));
            }
            return None;
        };
        proof {
            let p = g@.subrange(0, i as int + 1);
            assert(p.drop_last() =~= g@.subrange(0, i as int));
            lemma_hex_val_bound(g@.subrange(0, i as int));
            assert(hex_val(g@.subrange(0, i as int)) <= 0xFFF) by {
                if i as int >= 3 {
                    assert(i as int == 3 && len == 4);
                }
            }
        }
        acc = acc * 16 + d;
        i = i + 1;
    }
    proof {
        assert(g@.subrange(0, len as int) =~= g@);
        lemma_hex_val_bound(g@);
    }
    Some(acc as u16)
}

pub open spec fn valid_groups(parts: Seq<Seq<char>>) -> bool {
    forall|i: int| 0 <= i < parts.len() ==> valid_group(#[trigger] parts[i])
}

pub open spec fn group_vals(parts: Seq<Seq<char>>) -> Seq<int> {
    parts.map_values(|g: Seq<char>| hex_val(g))
}

/// Parses a non-empty colon-separated list of IPv6 groups.
fn parse_group_list(s: &str) -> (r: Option<Vec<u16>>)
    ensures
        (r is Some) == valid_groups(split_on(s@, ':')),
        r is Some ==> r->Some_0@.map_values(|v: u16| v as int) == group_vals(split_on(s@, ':')),
{
    let parts = split_char(s, ':');
    let n: usize = parts.len();
    proof {
        assert(parts.deep_view().len() == parts@.len());
    }
    let mut vals: Vec<u16> = Vec::new();
    let mut i: usize = 0;
    while i < n
        invariant
            0 <= i <= n,
            n == parts@.len(),
            parts.deep_view() == split_on(s@, ':'),
            vals@.len() == i,
            forall|j: int| 0 <= j < i ==> valid_group(#[trigger] parts.deep_view()[j]),
            forall|j: int|
                0 <= j < i ==> #[trigger] vals@[j] as int == hex_val(parts.deep_view()[j]),
        decreases n - i,
    {
        proof {
            assert(parts.deep_view()[i as int] == parts@[i as int].deep_view());
        }
        match parse_hex_group(parts[i].as_str()) {
            Some(v) => {
                vals.push(v);
            },
            None => {
                return None;
            },
        }
        i = i + 1;
    }
    proof {
        assert(vals@.map_values(|v: u16| v as int) =~= group_vals(split_on(s@, ':')));
    }
    Some(vals)
}

/// Index of the first `::` in `h`, or -1.
pub open spec fn first_cc(h: Seq<char>) -> int
    decreases h.len(),
{
    if h.len() < 2 {
        -1
    } else if h[0] == ':' && h[1] == ':' {
        0
    } else if first_cc(h.drop_first()) < 0 {
        -1
    } else {
        1 + first_cc(h.drop_first())
    }
}

proof fn lemma_first_cc(h: Seq<char>)
    ensures
        first_cc(h) >= -1,
        first_cc(h) == -1 ==> forall|j: int| 0 <= j < h.len() - 1 ==> !(#[trigger] h[j] == ':'
            && h[j + 1] == ':'),
        first_cc(h) >= 0 ==> 0 <= first_cc(h) < h.len() - 1 && h[first_cc(h)] == ':'
            && h[first_cc(h) + 1] == ':' && forall|j: int|
            0 <= j < first_cc(h) ==> !(#[trigger] h[j] == ':' && h[j + 1] == ':'),
    decreases h.len(),
{
    if h.len() >= 2 && !(h[0] == ':' && h[1] == ':') {
        lemma_first_cc(h.drop_first());
        let f = first_cc(h.drop_first());
        if f < 0 {
            assert forall|j: int| 0 <= j < h.len() - 1 implies !(#[trigger] h[j] == ':' && h[j + 1] == ':') by {
                if j > 0 {
                    assert(h.drop_first()[j - 1] == h[j]);
                    assert(h.drop_first()[j] == h[j + 1]);
                }
            }
        } else {
            assert(h.drop_first()[f] == h[f + 1]);
            assert(h.drop_first()[f + 1] == h[f + 2]);
            assert forall|j: int| 0 <= j < 1 + f implies !(#[trigger] h[j] == ':' && h[j + 1] == ':') by {
                if j > 0 {
                    assert(h.drop_first()[j - 1] == h[j]);
                    assert(h.drop_first()[j] == h[j + 1]);
                }
            }
        }
    }
}

proof fn lemma_first_cc_at(h: Seq<char>, k: int)
    requires
        0 <= k < h.len() - 1,
        h[k] == ':' && h[k + 1] == ':',
        forall|j: int| 0 <= j < k ==> !(#[trigger] h[j] == ':' && h[j + 1] == ':'),
    ensures
        first_cc(h) == k,
    decreases h.len(),
{
    if k > 0 {
        assert(h.drop_first()[k - 1] == h[k]);
        assert(h.drop_first()[k] == h[k + 1]);
        assert forall|j: int|
            0 <= j < k - 1 implies !(#[trigger] h.drop_first()[j] == ':' && h.drop_first()[j + 1]
            == ':') by {
            assert(h.drop_first()[j] == h[j + 1]);
            assert(h.drop_first()[j + 1] == h[j + 2]);
        }
        lemma_first_cc_at(h.drop_first(), k - 1);
    }
}

/// Finds the first `::`, as the IPv6 grammar singles it out.
fn find_cc(h: &str) -> (r: Option<usize>)
    ensures
        r is Some ==> first_cc(h@) == r->Some_0,
        r is None ==> first_cc(h@) == -1,
{
    let len: usize = h.unicode_len();
    if len < 2 {
        proof {
            lemma_first_cc(h@);
        }
        return None;
    }
    let mut i: usize = 0;
    while i < len - 1
        invariant
            0 <= i <= len - 1,
            2 <= len,
            len == h@.len(),
            forall|j: int| 0 <= j < i ==> !(#[trigger] h@[j] == ':' && h@[j + 1] == ':'),
        decreases len - i,
    {
        if h.get_char(i) == ':' && h.get_char(i + 1) == ':' {
            proof {
                lemma_first_cc_at(h@, i as int);
            }
            return Some(i);
        }
        i = i + 1;
    }
    proof {
        lemma_first_cc(h@);
    }
    None
}

/// An IPv6 host expands to all-zero groups.
pub open spec fn v6_unspecified(vals: Seq<int>) -> bool {
    forall|i: int| 0 <= i < vals.len() ==> #[trigger] vals[i] == 0
}

/// An IPv6 host expands to `::1`.
pub open spec fn v6_loopback(vals: Seq<int>) -> bool {
    vals.len() == 8 && vals[7] == 1 && forall|i: int| 0 <= i < 7 ==> #[trigger] vals[i] == 0
}

/// The eight group values of a textual IPv6 host, if it is one: either
/// eight explicit groups, or two shorter runs around a single `::`.
pub open spec fn spec_parse_ipv6(h: Seq<char>) -> Option<Seq<int>> {
    let cc = first_cc(h);
    if cc < 0 {
        let parts = split_on(h, ':');
        if parts.len() == 8 && valid_groups(parts) {
            Some(group_vals(parts))
        } else {
            None
        }
    } else if !(0 <= cc <= h.len() - 2) {
        None
    } else {
        let pre = h.subrange(0, cc);
        let post = h.subrange(cc + 2, h.len() as int);
        if first_cc(post) >= 0 {
            None
        } else {
            let pre_parts: Seq<Seq<char>> = if pre.len() == 0 {
                Seq::empty()
            } else {
                split_on(pre, ':')
            };
            let post_parts: Seq<Seq<char>> = if post.len() == 0 {
                Seq::empty()
            } else {
                split_on(post, ':')
            };
            if valid_groups(pre_parts) && valid_groups(post_parts) && pre_parts.len()
                + post_parts.len() <= 7 {
                Some(
                    group_vals(pre_parts) + Seq::new(
                        (8 - pre_parts.len() - post_parts.len()) as nat,
                        |i: int| 0,
                    ) + group_vals(post_parts),
                )
            } else {
                None
            }
        }
    }
}

/// Parses a textual IPv6 host into its wildcard and loopback flags.
fn parse_ipv6_host(h: &str) -> (r: Option<(bool, bool)>)
    ensures
        (r is Some) == (spec_parse_ipv6(h@) is Some),
        r is Some ==> r == Some(
            (
                v6_unspecified(spec_parse_ipv6(h@)->Some_0),
                v6_loopback(spec_parse_ipv6(h@)->Some_0),
            ),
        ),
{
    let len: usize = h.unicode_len();
    match find_cc(h) {
        None => {
            let vals = match parse_group_list(h) {
                Some(v) => v,
                None => {
                    return None;
                },
            };
            if vals.len() != 8 {
                proof {
                    assert(group_vals(split_on(h@, ':')).len() == split_on(h@, ':').len());
                }
                return None;
            }
            let ghost exp = spec_parse_ipv6(h@)->Some_0;
            let ghost m = vals@.map_values(|v: u16| v as int);
            proof {
                assert(exp == m);
                assert(forall|j: int| 0 <= j < 8 ==> #[trigger] exp[j] == vals@[j] as int);
            }
            let unspec = all_zero(&vals, 0, 8);
            let lb = vals[7] == 1 && all_zero(&vals, 0, 7);
            proof {
                assert(v6_unspecified(exp) == unspec) by {
                    if !unspec {
                        let i = choose|i: int| 0 <= i < 8 && #[trigger] vals@[i] as int != 0;
                        assert(exp[i] != 0);
                    }
                }
                assert(v6_loopback(exp) == lb) by {
                    assert(exp[7] == vals@[7] as int);
                    if vals@[7] as int == 1 {
                        let l = forall|i: int| 0 <= i < 7 ==> #[trigger] vals@[i] as int == 0;
                        if !l {
                            let i = choose|i: int| 0 <= i < 7 && #[trigger] vals@[i] as int != 0;
                            assert(exp[i] != 0);
                        }
                    }
                }
            }
            Some((unspec, lb))
        },
        Some(cc) => {
            proof {
                lemma_first_cc(h@);
            }
            let pre = h.substring_char(0, cc);
            let post = h.substring_char(cc + 2, len);
            if find_cc(post).is_some() {
                return None;
            }
            let pre_vals: Vec<u16> = if pre.unicode_len() == 0 {
                Vec::new()
            } else {
                match parse_group_list(pre) {
                    Some(v) => v,
                    None => {
                        return None;
                    },
                }
            };
            let post_vals: Vec<u16> = if post.unicode_len() == 0 {
                Vec::new()
            } else {
                match parse_group_list(post) {
                    Some(v) => v,
                    None => {
                        return None;
                    },
                }
            };
            let a: usize = pre_vals.len();
            let b: usize = post_vals.len();
            proof {
                assert(pre_vals@.map_values(|v: u16| v as int).len() == a);
                assert(post_vals@.map_values(|v: u16| v as int).len() == b);
            }
            if a > 7 {
                return None;
            }
            if b > 7 - a {
                return None;
            }
            let ghost exp = spec_parse_ipv6(h@)->Some_0;
            let ghost pre_m = pre_vals@.map_values(|v: u16| v as int);
            let ghost post_m = post_vals@.map_values(|v: u16| v as int);
            proof {
                assert(exp.len() == 8);
                assert(forall|j: int| 0 <= j < a ==> #[trigger] exp[j] == pre_m[j]);
                assert(forall|j: int| 0 <= j < b ==> #[trigger] exp[8 - b + j] == post_m[j]);
                assert(forall|j: int| a <= j < 8 - b ==> #[trigger] exp[j] == 0);
                assert(forall|j: int| 0 <= j < a ==> #[trigger] pre_m[j] == pre_vals@[j] as int);
                assert(forall|j: int| 0 <= j < b ==> #[trigger] post_m[j] == post_vals@[j] as int);
            }
            let pre_zero = all_zero(&pre_vals, 0, a);
            let post_zero = all_zero(&post_vals, 0, b);
            let unspec = pre_zero && post_zero;
            let lb = pre_zero && b > 0 && post_vals[b - 1] == 1 && all_zero(&post_vals, 0, b - 1);
            proof {
                assert(v6_unspecified(exp) == unspec) by {
                    if unspec {
                        assert forall|i: int| 0 <= i < 8 implies exp[i] == 0 by {
                            if i < a {
                                assert(exp[i] == pre_m[i]);
                            } else if i >= 8 - b {
                                assert(exp[8 - b + (i - (8 - b))] == post_m[i - (8 - b)]);
                            }
                        }
                    } else {
                        if !pre_zero {
                            let i = choose|i: int|
                                0 <= i < a && #[trigger] pre_vals@[i] as int != 0;
                            assert(exp[i] == pre_m[i]);
                        } else {
                            let i = choose|i: int|
                                0 <= i < b && #[trigger] post_vals@[i] as int != 0;
                            assert(exp[8 - b + i] == post_m[i]);
                        }
                    }
                }
                assert(v6_loopback(exp) == lb) by {
                    if lb {
                        assert(exp[8 - b + (b - 1)] == post_m[b - 1]);
                        assert forall|i: int| 0 <= i < 7 implies exp[i] == 0 by {
                            if i < a {
                                assert(exp[i] == pre_m[i]);
                            } else if i >= 8 - b {
                                assert(exp[8 - b + (i - (8 - b))] == post_m[i - (8 - b)]);
                            }
                        }
                    } else if v6_loopback(exp) {
                        assert(exp[7] == 1);
                        assert(b > 0) by {
                            if b == 0 {
                                assert(exp[7] == 0);
                            }
                        }
                        assert(exp[8 - b + (b - 1)] == post_m[b - 1]);
                        assert(post_vals@[b - 1] as int == 1);
                        assert forall|i: int| 0 <= i < a implies pre_vals@[i] as int == 0 by {
                            assert(exp[i] == pre_m[i]);
                            assert(a <= 7);
                        }
                        assert forall|i: int| 0 <= i < b - 1 implies post_vals@[i] as int == 0 by {
                            assert(exp[8 - b + i] == post_m[i]);
                            assert(8 - b + i < 7);
                        }
                        assert(pre_zero);
                    }
                }
            }
            Some((unspec, lb))
        },
    }
}

/// All entries of `v` in `[from, to)` are zero.
fn all_zero(v: &Vec<u16>, from: usize, to: usize) -> (r: bool)
    requires
        from <= to <= v@.len(),
    ensures
        r == forall|i: int| from <= i < to ==> #[trigger] v@[i] as int == 0,
{
    let mut i: usize = from;
    while i < to
        invariant
            from <= i <= to <= v@.len(),
            forall|j: int| from <= j < i ==> #[trigger] v@[j] as int == 0,
        decreases to - i,
    {
        if v[i] != 0 {
            return false;
        }
        i = i + 1;
    }
    true
}

/// One octet of an IPv4 address: decimal, at most 255, no leading zero.
pub open spec fn valid_octet(p: Seq<char>) -> bool {
    p.len() > 0 && all_digits(p) && digits_val(p) <= 255 && (p.len() > 1 ==> p[0] != '0')
}

/// The four octet values of a textual IPv4 host, if it is one.
pub open spec fn spec_parse_ipv4(h: Seq<char>) -> Option<Seq<int>> {
    let parts = split_on(h, '.');
    if parts.len() == 4 && (forall|i: int| 0 <= i < 4 ==> valid_octet(#[trigger] parts[i])) {
        Some(parts.map_values(|p: Seq<char>| digits_val(p)))
    } else {
        None
    }
}

pub open spec fn v4_unspecified(vals: Seq<int>) -> bool {
    vals.len() == 4 && forall|i: int| 0 <= i < 4 ==> #[trigger] vals[i] == 0
}

pub open spec fn v4_loopback(vals: Seq<int>) -> bool {
    vals.len() == 4 && vals[0] == 127
}

fn parse_octet(p: &str) -> (r: Option<u8>)
    ensures
        (r is Some) == valid_octet(p@),
        r is Some ==> r->Some_0 == digits_val(p@),
{
    let len: usize = p.unicode_len();
    if len > 1 && p.get_char(0) == '0' {
        return None;
    }
    match parse_decimal_capped(p, 255) {
        Some(v) => Some(v as u8),
        None => None,
    }
}

/// Parses a textual IPv4 host into its wildcard and loopback flags.
fn parse_ipv4_host(h: &str) -> (r: Option<(bool, bool)>)
    ensures
        (r is Some) == (spec_parse_ipv4(h@) is Some),
        r is Some ==> r == Some(
            (
                v4_unspecified(spec_parse_ipv4(h@)->Some_0),
                v4_loopback(spec_parse_ipv4(h@)->Some_0),
            ),
        ),
{
    let parts = split_char(h, '.');
    let n: usize = parts.len();
    proof {
        assert(parts.deep_view().len() == parts@.len());
    }
    if n != 4 {
        return None;
    }
    let mut vals: Vec<u8> = Vec::new();
    let mut i: usize = 0;
    while i < 4
        invariant
            0 <= i <= 4,
            parts@.len() == 4,
            parts.deep_view() == split_on(h@, '.'),
            vals@.len() == i,
            forall|j: int| 0 <= j < i ==> valid_octet(#[trigger] parts.deep_view()[j]),
            forall|j: int|
                0 <= j < i ==> #[trigger] vals@[j] as int == digits_val(parts.deep_view()[j]),
        decreases 4 - i,
    {
        proof {
            assert(parts.deep_view()[i as int] == parts@[i as int].deep_view());
        }
        match parse_octet(parts[i].as_str()) {
            Some(v) => {
                vals.push(v);
            },
            None => {
                return None;
            },
        }
        i = i + 1;
    }
    let ghost exp = spec_parse_ipv4(h@)->Some_0;
    proof {
        assert(exp =~= vals@.map_values(|v: u8| v as int));
        assert(forall|j: int| 0 <= j < 4 ==> #[trigger] exp[j] == vals@[j] as int);
    }
    let unspec = vals[0] == 0 && vals[1] == 0 && vals[2] == 0 && vals[3] == 0;
    let lb = vals[0] == 127;
    proof {
        assert(v4_unspecified(exp) == unspec) by {
            if unspec {
                assert forall|i: int| 0 <= i < 4 implies exp[i] == 0 by {
                    assert(exp[i] == vals@[i] as int);
                    assert(i == 0 || i == 1 || i == 2 || i == 3);
                }
            } else {
                assert(exp[0] == vals@[0] as int);
                assert(exp[1] == vals@[1] as int);
                assert(exp[2] == vals@[2] as int);
                assert(exp[3] == vals@[3] as int);
            }
        }
        assert(exp[0] == vals@[0] as int);
    }
    Some((unspec, lb))
}

/// What the lifecycle logic reads from a validated socket address.
#[derive(Clone, Copy, Debug, PartialEq, Eq, Structural)]
pub struct SockAddrParts {
    /// The host was an IPv6 group list in brackets.
    pub v6: bool,
    /// The host is the unspecified wildcard (`0.0.0.0` or `::`).
    pub unspecified: bool,
    /// The host is a loopback address (`127.x.y.z` or `::1`).
    pub loopback: bool,
    pub port: u16,
}

/// A valid decimal port: digits only, at most 65535.
pub open spec fn valid_port(p: Seq<char>) -> bool {
    p.len() > 0 && all_digits(p) && digits_val(p) <= 65535
}

/// The socket-address grammar: `v4host:port` or `[v6host]:port`.
pub open spec fn spec_parse_sock_addr(s: Seq<char>) -> Option<SockAddrParts> {
    if s.len() == 0 {
        None
    } else if s[0] == '[' {
        let j = first_idx_of(s, ']');
        if !(0 <= j < s.len()) {
            None
        } else if !(j + 1 < s.len() && s[j + 1] == ':') {
            None
        } else {
            let host = s.subrange(1, j);
            let port = s.subrange(j + 2, s.len() as int);
            if valid_port(port) && spec_parse_ipv6(host) is Some {
                let vals = spec_parse_ipv6(host)->Some_0;
                Some(
                    SockAddrParts {
                        v6: true,
                        unspecified: v6_unspecified(vals),
                        loopback: v6_loopback(vals),
                        port: digits_val(port) as u16,
                    },
                )
            } else {
                None
            }
        }
    } else {
        let j = last_idx_of(s, ':');
        if !(0 <= j < s.len()) {
            None
        } else {
            let host = s.subrange(0, j);
            let port = s.subrange(j + 1, s.len() as int);
            if valid_port(port) && spec_parse_ipv4(host) is Some {
                let vals = spec_parse_ipv4(host)->Some_0;
                Some(
                    SockAddrParts {
                        v6: false,
                        unspecified: v4_unspecified(vals),
                        loopback: v4_loopback(vals),
                        port: digits_val(port) as u16,
                    },
                )
            } else {
                None
            }
        }
    }
}

/// Parses a socket address under this crate's grammar: a dotted-quad
/// IPv4 host, or a bracketed IPv6 group list.  Scope identifiers and
/// the IPv4-in-IPv6 form are not part of the grammar.
pub fn parse_sock_addr(s: &str) -> (r: Option<SockAddrParts>)
    ensures
        r == spec_parse_sock_addr(s@),
{
    let len: usize = s.unicode_len();
    if len == 0 {
        return None;
    }
    if s.get_char(0) == '[' {
        let j = match crate::scan::find_char(s, ']') {
            Some(j) => j,
            None => {
                proof {
                    lemma_first_idx_of(s@, ']');
                }
                return None;
            },
        };
        proof {
            lemma_first_idx_of(s@, ']');
        }
        if j + 1 >= len {
            return None;
        }
        if s.get_char(j + 1) != ':' {
            return None;
        }
        let host = s.substring_char(1, j);
        let port_s = s.substring_char(j + 2, len);
        let port: u16 = match parse_decimal_capped(port_s, 65535) {
            Some(v) => v as u16,
            None => {
                return None;
            },
        };
        match parse_ipv6_host(host) {
            Some((unspec, lb)) => Some(
                SockAddrParts { v6: true, unspecified: unspec, loopback: lb, port },
            ),
            None => None,
        }
    } else {
        let j = match rfind_char(s, ':') {
            Some(j) => j,
            None => {
                proof {
                    lemma_last_idx_of(s@, ':');
                }
                return None;
            },
        };
        proof {
            lemma_last_idx_of(s@, ':');
        }
        let host = s.substring_char(0, j);
        let port_s = s.substring_char(j + 1, len);
        let port: u16 = match parse_decimal_capped(port_s, 65535) {
            Some(v) => v as u16,
            None => {
                return None;
            },
        };
        match parse_ipv4_host(host) {
            Some((unspec, lb)) => Some(
                SockAddrParts { v6: false, unspecified: unspec, loopback: lb, port },
            ),
            None => None,
        }
    }
}

/// The address a probe connects to: a wildcard listen host becomes the
/// loopback host of the same family with the same port, any other valid
/// address passes through trimmed, and an invalid one yields nothing.
pub open spec fn spec_connect_addr(s: Seq<char>) -> Option<Seq<char>> {
    let t = spec_trim(s);
    match spec_parse_sock_addr(t) {
        Option::None => None,
        Option::Some(a) => if a.unspecified {
            if a.v6 {
                Some("[::1]:"@ + crate::chars::dec_digits(a.port as nat))
            } else {
                Some("127.0.0.1:"@ + crate::chars::dec_digits(a.port as nat))
            }
        } else {
            Some(t)
        },
    }
}

/// Rewrites a listen address into the address to probe.
pub fn daemon_connect_addr(listen_addr: &str) -> (r: Option<String>)
    ensures
        (r is Some) == (spec_connect_addr(listen_addr@) is Some),
        r is Some ==> r->Some_0@ == spec_connect_addr(listen_addr@)->Some_0,
{
    let t = trim_str(listen_addr);
    let parsed = match parse_sock_addr(t.as_str()) {
        Some(a) => a,
        None => {
            return None;
        },
    };
    if parsed.unspecified {
        let port_text = crate::chars::u64_to_string(parsed.port as u64);
        if parsed.v6 {
            Some(crate::chars::str_concat("[::1]:", port_text.as_str()))
        } else {
            Some(crate::chars::str_concat("127.0.0.1:", port_text.as_str()))
        }
    } else {
        Some(t)
    }
}

/// The port of a listen address whose host is genuinely local: loopback
/// or the unspecified wildcard.  A remote host yields nothing, so no
/// process discovery ever runs against a remote address.
pub open spec fn spec_local_listener_port(s: Seq<char>) -> Option<u16> {
    match spec_parse_sock_addr(spec_trim(s)) {
        Option::None => None,
        Option::Some(a) => if a.loopback || a.unspecified {
            Some(a.port)
        } else {
            None
        },
    }
}

pub fn local_listener_port(listen_addr: &str) -> (r: Option<u16>)
    ensures
        r == spec_local_listener_port(listen_addr@),
{
    let t = trim_str(listen_addr);
    match parse_sock_addr(t.as_str()) {
        Some(a) => {
            if a.loopback || a.unspecified {
                Some(a.port)
            } else {
                None
            }
        },
        None => None,
    }
}

/// The port named by a settings host string: a full socket address
/// gives its port; otherwise the digits after the last colon, with
/// empty sides and multi-colon hosts (unbracketed IPv6) rejected.
pub open spec fn spec_port_from_remote_host(s: Seq<char>) -> Option<u16> {
    let t = spec_trim(s);
    if t.len() == 0 {
        None
    } else if spec_parse_sock_addr(t) is Some {
        Some(spec_parse_sock_addr(t)->Some_0.port)
    } else {
        let j = last_idx_of(t, ':');
        if !(0 <= j < t.len()) {
            None
        } else {
            let host = t.subrange(0, j);
            let port = t.subrange(j + 1, t.len() as int);
            if host.len() == 0 || port.len() == 0 {
                None
            } else if first_idx_of(host, ':') >= 0 {
                None
            } else if valid_port(port) {
                Some(digits_val(port) as u16)
            } else {
                None
            }
        }
    }
}

pub fn parse_port_from_remote_host(remote_host: &str) -> (r: Option<u16>)
    ensures
        r == spec_port_from_remote_host(remote_host@),
{
    let t_owned = trim_str(remote_host);
    let t = t_owned.as_str();
    let len: usize = t.unicode_len();
    if len == 0 {
        return None;
    }
    if let Some(a) = parse_sock_addr(t) {
        return Some(a.port);
    }
    let j = match rfind_char(t, ':') {
        Some(j) => j,
        None => {
            proof {
                lemma_last_idx_of(t@, ':');
            }
            return None;
        },
    };
    proof {
        lemma_last_idx_of(t@, ':');
    }
    let host = t.substring_char(0, j);
    let port_s = t.substring_char(j + 1, len);
    if j == 0 || j + 1 == len {
        return None;
    }
    if crate::scan::find_char(host, ':').is_some() {
        return None;
    }
    proof {
        lemma_first_idx_of(host@, ':');
    }
    match parse_decimal_capped(port_s, 65535) {
        Some(v) => Some(v as u16),
        None => None,
    }
}

/// The default daemon port when the settings host names none.
pub const DEFAULT_DAEMON_PORT: u16 = 4732;

/// The listen address derived from the settings host: always the
/// wildcard host, with the host's port or the default.
pub open spec fn spec_daemon_listen_addr(remote_host: Seq<char>) -> Seq<char> {
    let port = match spec_port_from_remote_host(remote_host) {
        Option::Some(p) => p,
        Option::None => DEFAULT_DAEMON_PORT,
    };
    "0.0.0.0:"@ + crate::chars::dec_digits(port as nat)
}

pub fn daemon_listen_addr(remote_host: &str) -> (r: String)
    ensures
        r@ == spec_daemon_listen_addr(remote_host@),
{
    let port: u16 = match parse_port_from_remote_host(remote_host) {
        Some(p) => p,
        None => DEFAULT_DAEMON_PORT,
    };
    let port_text = crate::chars::u64_to_string(port as u64);
    crate::chars::str_concat("0.0.0.0:", port_text.as_str())
}

/// The trimmed string, when there is one and it is non-empty.
pub open spec fn spec_trim_non_empty(value: Option<Seq<char>>) -> Option<Seq<char>> {
    match value {
        Option::None => None,
        Option::Some(s) => if spec_trim(s).len() == 0 {
            None
        } else {
            Some(spec_trim(s))
        },
    }
}

pub fn trim_non_empty(value: Option<&str>) -> (r: Option<String>)
    ensures
        (r is Some) == (spec_trim_non_empty(match value {
            Option::Some(v) => Some(v@),
            Option::None => None,
        }) is Some),
        r is Some ==> Some(r->Some_0@) == spec_trim_non_empty(Some(value->Some_0@)),
{
    match value {
        None => None,
        Some(s) => {
            let t = trim_str(s);
            if t.as_str().unicode_len() == 0 {
                None
            } else {
                Some(t)
            }
        },
    }
}


/// Decimal renderings are non-empty digit strings worth their number.
proof fn lemma_dec_digits_props(n: nat)
    ensures
        crate::chars::dec_digits(n).len() >= 1,
        all_digits(crate::chars::dec_digits(n)),
        digits_val(crate::chars::dec_digits(n)) == n,
    decreases n,
{
    let d = crate::chars::dec_digits(n);
    if n < 10 {
        assert(d =~= seq![crate::chars::digit_char(n as int)]);
        assert(d.drop_last() =~= Seq::<char>::empty());
        assert(digits_val(Seq::<char>::empty()) == 0);
        assert(is_digit_char(d[0]));
    } else {
        lemma_dec_digits_props(n / 10);
        let head = crate::chars::dec_digits(n / 10);
        let c = crate::chars::digit_char((n % 10) as int);
        assert(d == head.push(c));
        assert(d.drop_last() =~= head);
        assert(d.last() == c);
        assert(is_digit_char(c));
        assert forall|i: int| 0 <= i < d.len() implies is_digit_char(d[i]) by {
            if i < head.len() {
                assert(d[i] == head[i]);
            }
        }
        assert(digits_val(d) == digits_val(head) * 10 + (c as int - '0' as int));
    }
}

/// A sequence with non-blank ends is already trimmed.
proof fn lemma_trim_clean(s: Seq<char>)
    requires
        s.len() > 0,
        !crate::chars::is_space_char(s[0]),
        !crate::chars::is_space_char(s.last()),
    ensures
        spec_trim(s) == s,
{
    assert(crate::chars::trim_front(s) == s);
    assert(crate::chars::trim_back(s) == s);
}

/// The loopback IPv4 host text parses to octets starting with 127.
proof fn lemma_v4_loopback_host()
    ensures
        spec_parse_ipv4("127.0.0.1"@) is Some,
        spec_parse_ipv4("127.0.0.1"@)->Some_0[0] == 127,
        spec_parse_ipv4("127.0.0.1"@)->Some_0.len() == 4,
{
    reveal_strlit("127.0.0.1");
    let h = "127.0.0.1"@;
    assert(h.len() == 9);
    crate::scan::lemma_split_on_step(h, '.', 3);
    let r1 = h.subrange(4, 9);
    assert(r1.len() == 5 && r1[0] == '0' && r1[1] == '.' && r1[2] == '0' && r1[3] == '.' && r1[4]
        == '1');
    crate::scan::lemma_split_on_step(r1, '.', 1);
    let r2 = r1.subrange(2, 5);
    assert(r2.len() == 3 && r2[0] == '0' && r2[1] == '.' && r2[2] == '1');
    crate::scan::lemma_split_on_step(r2, '.', 1);
    let r3 = r2.subrange(2, 3);
    assert(r3.len() == 1 && r3[0] == '1');
    crate::scan::lemma_split_on_no_sep(r3, '.');
    let o127 = h.subrange(0, 3);
    let o0a = r1.subrange(0, 1);
    let o0b = r2.subrange(0, 1);
    let parts = split_on(h, '.');
    assert(parts =~= seq![o127, o0a, o0b, r3]);
    assert(o127.len() == 3 && o127[0] == '1' && o127[1] == '2' && o127[2] == '7');
    assert(o0a.len() == 1 && o0a[0] == '0');
    assert(o0b.len() == 1 && o0b[0] == '0');
    // The octet values, one digit at a time.
    assert(digits_val(Seq::<char>::empty()) == 0);
    assert(o127.drop_last() =~= seq!['1', '2']);
    assert(seq!['1', '2'].drop_last() =~= seq!['1']);
    assert(seq!['1'].drop_last() =~= Seq::<char>::empty());
    assert(digits_val(seq!['1']) == 1);
    assert(digits_val(seq!['1', '2']) == 12);
    assert(digits_val(o127) == 127);
    assert(o0a.drop_last() =~= Seq::<char>::empty());
    assert(digits_val(o0a) == 0);
    assert(o0b.drop_last() =~= Seq::<char>::empty());
    assert(digits_val(o0b) == 0);
    assert(r3.drop_last() =~= Seq::<char>::empty());
    assert(digits_val(r3) == 1);
    assert forall|i: int| 0 <= i < 4 implies valid_octet(#[trigger] parts[i]) by {
        assert(i == 0 || i == 1 || i == 2 || i == 3);
        assert(all_digits(o127)) by {
            assert(forall|j: int|
                0 <= j < 3 ==> (j == 0 || j == 1 || j == 2) && is_digit_char(#[trigger] o127[j]));
        }
        assert(all_digits(o0a));
        assert(all_digits(o0b));
        assert(all_digits(r3));
    }
    let vals = parts.map_values(|p: Seq<char>| digits_val(p));
    assert(vals[0] == 127);
}

/// The loopback IPv6 host text expands to seven zero groups and a one.
proof fn lemma_v6_loopback_host()
    ensures
        spec_parse_ipv6(seq![':', ':', '1']) is Some,
        spec_parse_ipv6(seq![':', ':', '1'])->Some_0.len() == 8,
        spec_parse_ipv6(seq![':', ':', '1'])->Some_0[7] == 1,
{
    let h = seq![':', ':', '1'];
    assert(first_cc(h) == 0);
    let pre = h.subrange(0, 0);
    let post = h.subrange(2, 3);
    assert(pre.len() == 0);
    assert(post =~= seq!['1']);
    assert(first_cc(post) == -1);
    crate::scan::lemma_split_on_no_sep(post, ':');
    let post_parts = split_on(post, ':');
    assert(post_parts =~= seq![post]);
    assert(valid_groups(post_parts)) by {
        assert(all_hex_digits(post)) by {
            assert(forall|j: int| 0 <= j < 1 ==> j == 0 && is_hex_digit_char(#[trigger] post[j]));
        }
        assert(forall|i: int| 0 <= i < 1 ==> i == 0 && valid_group(#[trigger] post_parts[i]));
    }
    let exp = spec_parse_ipv6(h)->Some_0;
    assert(hex_val(post) == 1) by {
        assert(post.drop_last() =~= Seq::<char>::empty());
        assert(hex_val(Seq::<char>::empty()) == 0);
    }
    assert(group_vals(post_parts).len() == 1 && group_vals(post_parts)[0] == 1);
    assert(exp.len() == 8);
    assert(exp[7] == group_vals(post_parts)[0]);
}

/// Rewriting a listen address for the probe is idempotent: every
/// produced connect address passes through itself unchanged, because a
/// wildcard host becomes a loopback host of the same port and loopback
/// hosts pass through.  Non-wildcard hosts pass through unchanged from
/// the start.
pub proof fn lemma_connect_addr_idempotent(s: Seq<char>)
    ensures
        spec_connect_addr(s) matches Option::Some(t) ==> spec_connect_addr(t) == Some(t),
{
    if spec_connect_addr(s) is Some {
        let t = spec_connect_addr(s)->Some_0;
        let tr = spec_trim(s);
        let a = spec_parse_sock_addr(tr)->Some_0;
        if !a.unspecified {
            crate::chars::lemma_trim_idempotent(s);
            assert(spec_trim(t) == t);
        } else if !a.v6 {
            reveal_strlit("127.0.0.1:");
            reveal_strlit("127.0.0.1");
            let p = "127.0.0.1:"@;
            let d = crate::chars::dec_digits(a.port as nat);
            lemma_dec_digits_props(a.port as nat);
            assert(t == p + d);
            assert(p.len() == 10);
            assert(t[0] == '1');
            assert(t.last() == d.last());
            assert(is_digit_char(d.last()));
            lemma_trim_clean(t);
            // The last colon separates the loopback host from the digits.
            assert(t[9] == ':');
            assert forall|j: int| 9 < j < t.len() implies t[j] != ':' by {
                assert(t[j] == d[j - 10]);
                assert(is_digit_char(d[j - 10]));
            }
            crate::scan::lemma_last_idx_of_at(t, ':', 9);
            let host = t.subrange(0, 9);
            let port = t.subrange(10, t.len() as int);
            assert(host =~= "127.0.0.1"@);
            assert(port =~= d);
            assert(valid_port(port));
            lemma_v4_loopback_host();
            let vals = spec_parse_ipv4(host)->Some_0;
            assert(!v4_unspecified(vals)) by {
                assert(vals[0] == 127);
            }
            assert(t[0] != '[');
            let b = spec_parse_sock_addr(t)->Some_0;
            assert(spec_parse_sock_addr(t) is Some);
            assert(!b.unspecified);
            assert(b.port == a.port) by {
                assert(digits_val(port) == a.port as int);
            }
            assert(spec_connect_addr(t) == Some(t));
        } else {
            reveal_strlit("[::1]:");
            let p = "[::1]:"@;
            let d = crate::chars::dec_digits(a.port as nat);
            lemma_dec_digits_props(a.port as nat);
            assert(t == p + d);
            assert(p.len() == 6);
            assert(t[0] == '[');
            assert(t.last() == d.last());
            assert(is_digit_char(d.last()));
            lemma_trim_clean(t);
            assert(t[4] == ']');
            assert forall|j: int| 0 <= j < 4 implies t[j] != ']' by {
                assert(t[j] == p[j]);
            }
            crate::scan::lemma_first_idx_of_at(t, ']', 4);
            assert(t[5] == ':');
            let host = t.subrange(1, 4);
            let port = t.subrange(6, t.len() as int);
            assert(host =~= seq![':', ':', '1']);
            assert(port =~= d);
            assert(valid_port(port));
            lemma_v6_loopback_host();
            let vals = spec_parse_ipv6(host)->Some_0;
            assert(!v6_unspecified(vals)) by {
                assert(vals[7] == 1);
            }
            let b = spec_parse_sock_addr(t)->Some_0;
            assert(spec_parse_sock_addr(t) is Some);
            assert(!b.unspecified);
            assert(spec_connect_addr(t) == Some(t));
        }
    }
}

} // verus!
