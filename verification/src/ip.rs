//! Validation of textual IP literals: dotted-quad IPv4 and RFC-4291 IPv6,
//! including the single `::` abbreviation and an optional embedded IPv4 tail.

use vstd::prelude::*;
use vstd::string::StrSliceExecFns;
use crate::strutil::{dec_val, digit_val, is_digit, split_on, split_str};

verus! {

pub open spec fn is_hex_digit(c: char) -> bool {
    is_digit(c) || ('a' <= c && c <= 'f') || ('A' <= c && c <= 'F')
}

/// A decimal octet of a dotted-quad address: one to three digits, no leading
/// zero, value at most 255.
pub open spec fn is_dec_octet(p: Seq<char>) -> bool {
    1 <= p.len() <= 3 && (forall|i: int| 0 <= i < p.len() ==> is_digit(p[i])) && (p.len() > 1
        ==> p[0] != '0') && dec_val(p) <= 255
}

/// A dotted-quad IPv4 literal: four decimal octets separated by dots.
pub open spec fn is_ipv4(s: Seq<char>) -> bool {
    let ps = split_on(s, '.');
    ps.len() == 4 && (forall|i: int| 0 <= i < 4 ==> is_dec_octet(ps[i]))
}

/// A group of an IPv6 literal: one to four hexadecimal digits.
pub open spec fn is_hex_group(p: Seq<char>) -> bool {
    1 <= p.len() <= 4 && (forall|i: int| 0 <= i < p.len() ==> is_hex_digit(p[i]))
}

/// Number of groups on the left of a `::`, when that side is well-formed.
pub open spec fn left_groups(l: Seq<char>) -> Option<int> {
    if l.len() == 0 {
        Some(0int)
    } else {
        let ps = split_on(l, ':');
        if forall|i: int| 0 <= i < ps.len() ==> is_hex_group(ps[i]) {
            Some(ps.len() as int)
        } else {
            Option::<int>::None
        }
    }
}

/// Number of groups on the right of a `::`, when that side is well-formed;
/// an embedded IPv4 tail counts as two groups.
pub open spec fn right_groups(r: Seq<char>) -> Option<int> {
    if r.len() == 0 {
        Some(0int)
    } else {
        let ps = split_on(r, ':');
        if forall|i: int| 0 <= i < ps.len() ==> is_hex_group(ps[i]) {
            Some(ps.len() as int)
        } else if (forall|i: int| 0 <= i < ps.len() - 1 ==> is_hex_group(ps[i])) && is_ipv4(
            ps.last(),
        ) {
            Some(ps.len() as int + 1)
        } else {
            Option::<int>::None
        }
    }
}

/// Index of the first `::` at or after `i`, if any.
pub open spec fn first_dc(s: Seq<char>, i: int) -> Option<int>
    decreases s.len() - i,
{
    if i < 0 || i + 1 >= s.len() {
        Option::<int>::None
    } else if s[i] == ':' && s[i + 1] == ':' {
        Some(i)
    } else {
        first_dc(s, i + 1)
    }
}

/// An IPv6 literal: eight hex groups separated by colons, with at most one
/// `::` standing for one or more zero groups, and optionally a dotted-quad
/// IPv4 in place of the last two groups.
pub open spec fn is_ipv6(s: Seq<char>) -> bool {
    match first_dc(s, 0) {
        Some(i) => {
            let l = s.subrange(0, i);
            let r = s.subrange(i + 2, s.len() as int);
            left_groups(l) is Some && right_groups(r) is Some && left_groups(l)->0 + right_groups(
                r,
            )->0 <= 7
        },
        None => {
            let ps = split_on(s, ':');
            (ps.len() == 8 && (forall|i: int| 0 <= i < 8 ==> is_hex_group(ps[i]))) || (ps.len() == 7
                && (forall|i: int| 0 <= i < 6 ==> is_hex_group(ps[i])) && is_ipv4(ps[6]))
        },
    }
}

/// A valid IP literal is either form.
pub open spec fn is_ip_literal(s: Seq<char>) -> bool {
    is_ipv4(s) || is_ipv6(s)
}

fn is_dec_octet_str(p: &str) -> (r: bool)
    ensures
        r == is_dec_octet(p@),
{
    let n = p.unicode_len();
    if n < 1 || n > 3 {
        return false;
    }
    let mut i: usize = 0;
    let mut acc: u32 = 0;
    while i < n
        invariant
            n == p@.len(),
            n <= 3,
            i <= n,
            forall|j: int| 0 <= j < i ==> is_digit(p@[j]),
            acc == dec_val(p@.subrange(0, i as int)),
            acc < (if i == 0 { 1int } else if i == 1 { 10int } else if i == 2 { 100int } else { 1000int }),
        decreases n - i,
    {
        let c = p.get_char(i);
        if !('0' <= c && c <= '9') {
            return false;
        }
        proof {
            let pre = p@.subrange(0, i + 1);
            assert(pre.drop_last() =~= p@.subrange(0, i as int));
            assert(dec_val(pre) == acc * 10 + digit_val(p@[i as int]));
        }
        acc = acc * 10 + ((c as u32) - ('0' as u32));
        i = i + 1;
    }
    proof {
        assert(p@.subrange(0, n as int) =~= p@);
    }
    if n > 1 && p.get_char(0) == '0' {
        return false;
    }
    acc <= 255
}

fn is_hex_group_str(p: &str) -> (r: bool)
    ensures
        r == is_hex_group(p@),
{
    let n = p.unicode_len();
    if n < 1 || n > 4 {
        return false;
    }
    let mut i: usize = 0;
    while i < n
        invariant
            n == p@.len(),
            i <= n,
            forall|j: int| 0 <= j < i ==> is_hex_digit(p@[j]),
        decreases n - i,
    {
        let c = p.get_char(i);
        if !(('0' <= c && c <= '9') || ('a' <= c && c <= 'f') || ('A' <= c && c <= 'F')) {
            return false;
        }
        i = i + 1;
    }
    true
}

/// Whether a string is a dotted-quad IPv4 literal.
pub fn is_ipv4_str(s: &str) -> (r: bool)
    ensures
        r == is_ipv4(s@),
{
    let parts = split_str(s, '.');
    let ghost ps = split_on(s@, '.');
    if parts.len() != 4 {
        proof {
            assert(ps.len() == parts@.len());
        }
        return false;
    }
    let mut i: usize = 0;
    while i < 4
        invariant
            parts@.len() == 4,
            parts@.map_values(|t: String| t@) == split_on(s@, '.'),
            i <= 4,
            forall|j: int| 0 <= j < i ==> is_dec_octet(split_on(s@, '.')[j]),
        decreases 4 - i,
    {
        proof {
            assert(split_on(s@, '.')[i as int] == parts@[i as int]@);
        }
        if !is_dec_octet_str(parts[i].as_str()) {
            return false;
        }
        i = i + 1;
    }
    true
}

/// Checks every part of `parts` for being a hex group; used for the plain
/// form and for the sides of a `::`. The ghost sequence is the parts' views.
fn all_hex_groups(parts: &Vec<String>, upto: usize, gs: Ghost<Seq<Seq<char>>>) -> (r: bool)
    requires
        upto <= parts@.len(),
        gs@ == parts@.map_values(|t: String| t@),
    ensures
        r == forall|j: int| 0 <= j < upto ==> #[trigger] is_hex_group(gs@[j]),
{
    let mut i: usize = 0;
    while i < upto
        invariant
            upto <= parts@.len(),
            gs@ == parts@.map_values(|t: String| t@),
            i <= upto,
            forall|j: int| 0 <= j < i ==> #[trigger] is_hex_group(gs@[j]),
        decreases upto - i,
    {
        proof {
            assert(gs@[i as int] == parts@[i as int]@);
        }
        if !is_hex_group_str(parts[i].as_str()) {
            return false;
        }
        i = i + 1;
    }
    true
}

fn left_side_groups(l: &str) -> (r: Option<usize>)
    ensures
        r is Some <==> left_groups(l@) is Some,
        r is Some ==> r->0 == left_groups(l@)->0,
{
    if l.unicode_len() == 0 {
        return Some(0);
    }
    let parts = split_str(l, ':');
    if all_hex_groups(&parts, parts.len(), Ghost(split_on(l@, ':'))) {
        Some(parts.len())
    } else {
        None
    }
}

fn right_side_groups(r: &str) -> (res: Option<usize>)
    ensures
        res is Some <==> right_groups(r@) is Some,
        res is Some ==> res->0 == right_groups(r@)->0 || (res->0 >= 8 && right_groups(r@)->0 >= 8),
{
    if r.unicode_len() == 0 {
        return Some(0);
    }
    let parts = split_str(r, ':');
    let n = parts.len();
    if all_hex_groups(&parts, n, Ghost(split_on(r@, ':'))) {
        return Some(n);
    }
    proof {
        assert(split_on(r@, ':').last() == parts@[n - 1]@);
    }
    if all_hex_groups(&parts, n - 1, Ghost(split_on(r@, ':'))) && is_ipv4_str(
        parts[n - 1].as_str(),
    ) {
        // an embedded IPv4 tail stands for two groups; counts past 8 can
        // never belong to a valid address, so they are capped
        if n >= 8 {
            return Some(8);
        }
        return Some(n + 1);
    }
    None
}

/// Whether a string is an IPv6 literal.
pub fn is_ipv6_str(s: &str) -> (r: bool)
    ensures
        r == is_ipv6(s@),
{
    let n = s.unicode_len();
    // find the first "::", if any
    let mut i: usize = 0;
    let mut dc: Option<usize> = None;
    while i + 1 < n && dc.is_none()
        invariant
            n == s@.len(),
            i + 1 <= n || i == 0,
            dc is None ==> first_dc(s@, 0) == first_dc(s@, i as int),
            dc is Some ==> first_dc(s@, 0) == Some(dc->0 as int) && dc->0 == i && i + 1 < n,
        decreases n - i, (if dc is Some { 0int } else { 1int }),
    {
        if s.get_char(i) == ':' && s.get_char(i + 1) == ':' {
            dc = Some(i);
        } else {
            i = i + 1;
        }
    }
    match dc {
        Some(p) => {
            let left = s.substring_char(0, p);
            let right = s.substring_char(p + 2, n);
            let lg = left_side_groups(left);
            let rg = right_side_groups(right);
            match (lg, rg) {
                (Some(a), Some(b)) => a <= 7 && b <= 7 - a,
                _ => false,
            }
        },
        None => {
            proof {
                assert(first_dc(s@, 0) is None);
            }
            let parts = split_str(s, ':');
            let np = parts.len();
            if np == 8 {
                all_hex_groups(&parts, 8, Ghost(split_on(s@, ':')))
            } else if np == 7 {
                proof {
                    assert(split_on(s@, ':')[6] == parts@[6]@);
                }
                all_hex_groups(&parts, 6, Ghost(split_on(s@, ':'))) && is_ipv4_str(
                    parts[6].as_str(),
                )
            } else {
                false
            }
        },
    }
}

/// Whether a string is a valid IP literal of either family.
pub fn is_ip_literal_str(s: &str) -> (r: bool)
    ensures
        r == is_ip_literal(s@),
{
    if is_ipv4_str(s) {
        true
    } else {
        is_ipv6_str(s)
    }
}

} // verus!
