//! Character and string utilities: ASCII case folding, case-insensitive
//! comparison, splitting on a separator, trimming, and decimal parsing.

use vstd::prelude::*;
use vstd::string::StrSliceExecFns;

verus! {

/// ASCII lower-casing of a single character; other characters are unchanged.
pub open spec fn lower_char(c: char) -> char {
    if 'A' <= c && c <= 'Z' {
        ((c as u8) + 32) as char
    } else {
        c
    }
}

/// ASCII lower-casing of a whole character sequence.
pub open spec fn lower_seq(s: Seq<char>) -> Seq<char> {
    s.map_values(|c: char| lower_char(c))
}

/// Relies on char::to_ascii_lowercase: maps 'A'..='Z' to 'a'..='z' and
/// leaves every other character unchanged.
pub assume_specification[ char::to_ascii_lowercase ](c: &char) -> (r: char)
    ensures
        r == lower_char(*c),
;

/// Relies on String::push: appends one character at the end.
pub assume_specification[ String::push ](s: &mut String, c: char)
    ensures
        final(s)@ == old(s)@.push(c),
;

/// Lower-cases the ASCII letters of a string, leaving other characters as
/// they are.
pub fn ascii_lowercase(s: &str) -> (r: String)
    ensures
        r@ == lower_seq(s@),
{
    let n = s.unicode_len();
    let mut r = String::new();
    let mut i: usize = 0;
    while i < n
        invariant
            n == s@.len(),
            i <= n,
            r@ == lower_seq(s@.subrange(0, i as int)),
        decreases n - i,
    {
        let c = s.get_char(i);
        r.push(c.to_ascii_lowercase());
        i = i + 1;
        proof {
            assert(r@ =~= lower_seq(s@.subrange(0, i as int)));
        }
    }
    proof {
        assert(s@.subrange(0, n as int) =~= s@);
    }
    r
}

/// ASCII lower-casing is idempotent.
pub proof fn lemma_lower_seq_idempotent(s: Seq<char>)
    ensures
        lower_seq(lower_seq(s)) == lower_seq(s),
{
    assert(lower_seq(lower_seq(s)) =~= lower_seq(s));
}

/// Exact string comparison.
pub fn str_eq(a: &str, b: &str) -> (r: bool)
    ensures
        r == (a@ == b@),
{
    let na = a.unicode_len();
    let nb = b.unicode_len();
    if na != nb {
        return false;
    }
    let mut i: usize = 0;
    while i < na
        invariant
            na == a@.len(),
            na == b@.len(),
            i <= na,
            forall|j: int| 0 <= j < i ==> a@[j] == b@[j],
        decreases na - i,
    {
        if a.get_char(i) != b.get_char(i) {
            return false;
        }
        i = i + 1;
    }
    proof {
        assert(a@ =~= b@);
    }
    true
}

/// Two character sequences are equal up to ASCII case.
pub open spec fn eq_ignore_case(a: Seq<char>, b: Seq<char>) -> bool {
    lower_seq(a) == lower_seq(b)
}

/// Compares two strings for equality ignoring ASCII case.
pub fn str_eq_ignore_case(a: &str, b: &str) -> (r: bool)
    ensures
        r == eq_ignore_case(a@, b@),
{
    let na = a.unicode_len();
    let nb = b.unicode_len();
    if na != nb {
        proof {
            assert(lower_seq(a@).len() == a@.len());
            assert(lower_seq(b@).len() == b@.len());
        }
        return false;
    }
    let mut i: usize = 0;
    while i < na
        invariant
            na == a@.len(),
            na == b@.len(),
            i <= na,
            forall|j: int| 0 <= j < i ==> lower_char(a@[j]) == lower_char(b@[j]),
        decreases na - i,
    {
        let ca = a.get_char(i).to_ascii_lowercase();
        let cb = b.get_char(i).to_ascii_lowercase();
        if ca != cb {
            proof {
                assert(lower_seq(a@)[i as int] != lower_seq(b@)[i as int]);
            }
            return false;
        }
        i = i + 1;
    }
    proof {
        assert(lower_seq(a@) =~= lower_seq(b@));
    }
    true
}

/// Splitting a character sequence on a separator character: the parts between
/// occurrences of the separator, in order. The result always has at least one
/// part; an empty input yields one empty part.
pub open spec fn split_on(s: Seq<char>, sep: char) -> Seq<Seq<char>>
    decreases s.len(),
{
    if s.len() == 0 {
        seq![s]
    } else {
        let rest = split_on(s.drop_last(), sep);
        if s.last() == sep {
            rest.push(Seq::<char>::empty())
        } else {
            rest.update(rest.len() - 1, rest.last().push(s.last()))
        }
    }
}

/// Splits a string on a separator character, returning owned parts.
pub fn split_str(s: &str, sep: char) -> (r: Vec<String>)
    ensures
        r@.map_values(|t: String| t@) == split_on(s@, sep),
        r@.len() >= 1,
{
    let n = s.unicode_len();
    let mut parts: Vec<String> = Vec::new();
    parts.push(String::new());
    let mut i: usize = 0;
    proof {
        assert(s@.subrange(0, 0) =~= Seq::<char>::empty());
        assert(parts@.map_values(|t: String| t@) =~= split_on(s@.subrange(0, 0), sep));
    }
    while i < n
        invariant
            n == s@.len(),
            i <= n,
            parts@.len() >= 1,
            parts@.map_values(|t: String| t@) == split_on(s@.subrange(0, i as int), sep),
        decreases n - i,
    {
        let c = s.get_char(i);
        proof {
            assert(s@.subrange(0, i + 1).drop_last() =~= s@.subrange(0, i as int));
            assert(s@.subrange(0, i + 1).last() == s@[i as int]);
        }
        if c == sep {
            parts.push(String::new());
        } else {
            let mut last = parts.pop().unwrap();
            last.push(c);
            parts.push(last);
            proof {
                let prev = split_on(s@.subrange(0, i as int), sep);
                assert(parts@.map_values(|t: String| t@) =~= prev.update(
                    prev.len() - 1,
                    prev.last().push(s@[i as int]),
                ));
            }
        }
        i = i + 1;
        proof {
            assert(parts@.map_values(|t: String| t@) =~= split_on(s@.subrange(0, i as int), sep));
        }
    }
    proof {
        assert(s@.subrange(0, n as int) =~= s@);
    }
    parts
}

/// The whitespace characters removed by trimming.
pub open spec fn is_ws(c: char) -> bool {
    c == ' ' || c == '\t' || c == '\n' || c == '\r'
}

/// Index of the first non-whitespace character at or after `i`, or the length
/// when none remains.
pub open spec fn first_non_ws(s: Seq<char>, i: int) -> int
    decreases s.len() - i,
{
    if i < 0 || i >= s.len() {
        s.len() as int
    } else if is_ws(s[i]) {
        first_non_ws(s, i + 1)
    } else {
        i
    }
}

/// One past the index of the last non-whitespace character strictly before
/// `i`, or 0 when none exists there.
pub open spec fn last_non_ws(s: Seq<char>, i: int) -> int
    decreases i,
{
    if i <= 0 || i > s.len() {
        0
    } else if is_ws(s[i - 1]) {
        last_non_ws(s, i - 1)
    } else {
        i
    }
}

/// A character sequence with leading and trailing whitespace removed.
pub open spec fn trim_seq(s: Seq<char>) -> Seq<char> {
    let a = first_non_ws(s, 0);
    let b = last_non_ws(s, s.len() as int);
    if a <= b {
        s.subrange(a, b)
    } else {
        Seq::<char>::empty()
    }
}

proof fn lemma_first_non_ws_bounds(s: Seq<char>, i: int)
    requires
        0 <= i <= s.len(),
    ensures
        i <= first_non_ws(s, i) <= s.len(),
        forall|j: int| i <= j < first_non_ws(s, i) ==> is_ws(s[j]),
        first_non_ws(s, i) < s.len() ==> !is_ws(s[first_non_ws(s, i)]),
    decreases s.len() - i,
{
    if i < s.len() && is_ws(s[i]) {
        lemma_first_non_ws_bounds(s, i + 1);
    }
}

proof fn lemma_last_non_ws_bounds(s: Seq<char>, i: int)
    requires
        0 <= i <= s.len(),
    ensures
        0 <= last_non_ws(s, i) <= i,
        forall|j: int| last_non_ws(s, i) <= j < i ==> is_ws(s[j]),
        last_non_ws(s, i) > 0 ==> !is_ws(s[last_non_ws(s, i) - 1]),
    decreases i,
{
    if i > 0 && is_ws(s[i - 1]) {
        lemma_last_non_ws_bounds(s, i - 1);
    }
}

fn ws_at(s: &str, i: usize) -> (r: bool)
    requires
        i < s@.len(),
    ensures
        r == is_ws(s@[i as int]),
{
    let c = s.get_char(i);
    c == ' ' || c == '\t' || c == '\n' || c == '\r'
}

/// Removes leading and trailing whitespace from a string.
pub fn trim_str(s: &str) -> (r: String)
    ensures
        r@ == trim_seq(s@),
{
    let n = s.unicode_len();
    let mut a: usize = 0;
    while a < n && ws_at(s, a)
        invariant
            n == s@.len(),
            0 <= a <= n,
            first_non_ws(s@, 0) == first_non_ws(s@, a as int),
            forall|j: int| 0 <= j < a ==> is_ws(s@[j]),
        decreases n - a,
    {
        a = a + 1;
    }
    proof {
        lemma_first_non_ws_bounds(s@, a as int);
        assert(first_non_ws(s@, a as int) == a);
    }
    let mut b: usize = n;
    while b > a && ws_at(s, b - 1)
        invariant
            n == s@.len(),
            a <= b <= n,
            a == first_non_ws(s@, 0),
            forall|j: int| 0 <= j < a ==> is_ws(s@[j]),
            last_non_ws(s@, n as int) == last_non_ws(s@, b as int),
        decreases b,
    {
        b = b - 1;
    }
    proof {
        if b > a {
            assert(last_non_ws(s@, b as int) == b);
        } else {
            // only whitespace lies before a, so no non-whitespace remains at all
            lemma_last_non_ws_bounds(s@, a as int);
            let l = last_non_ws(s@, a as int);
            if l > 0 {
                assert(!is_ws(s@[l - 1]));
                assert(is_ws(s@[l - 1]));
            }
        }
    }
    let piece = s.substring_char(a, b);
    let r = piece.to_owned();
    proof {
        assert(r@ =~= trim_seq(s@));
    }
    r
}

/// Decimal digits.
pub open spec fn is_digit(c: char) -> bool {
    '0' <= c && c <= '9'
}

pub open spec fn digit_val(c: char) -> int {
    c as int - '0' as int
}

/// The value of a sequence of decimal digits, most significant first.
pub open spec fn dec_val(s: Seq<char>) -> int
    decreases s.len(),
{
    if s.len() == 0 {
        0
    } else {
        dec_val(s.drop_last()) * 10 + digit_val(s.last())
    }
}

/// How many characters an optional leading `+` sign occupies.
pub open spec fn plus_skip(s: Seq<char>) -> int {
    if s.len() > 0 && s[0] == '+' {
        1
    } else {
        0
    }
}

/// The digit part of a decimal token, after any leading `+`.
pub open spec fn digits_of(s: Seq<char>) -> Seq<char> {
    s.subrange(plus_skip(s), s.len() as int)
}

/// A decimal-number token as `usize::from_str` accepts it: an optional
/// leading `+`, then at least one digit, with a value that fits in `usize`.
pub open spec fn parses_as_usize(s: Seq<char>) -> bool {
    digits_of(s).len() > 0 && (forall|i: int|
        0 <= i < digits_of(s).len() ==> is_digit(digits_of(s)[i])) && dec_val(digits_of(s))
        <= usize::MAX
}

/// The numeric value of such a token.
pub open spec fn usize_val(s: Seq<char>) -> int {
    dec_val(digits_of(s))
}

proof fn lemma_dec_val_nonneg(s: Seq<char>)
    requires
        forall|i: int| 0 <= i < s.len() ==> is_digit(s[i]),
    ensures
        dec_val(s) >= 0,
    decreases s.len(),
{
    if s.len() > 0 {
        lemma_dec_val_nonneg(s.drop_last());
    }
}

/// Parses a string as a decimal `usize`, as `str::parse::<usize>` does:
/// an optional leading `+`, then decimal digits, rejecting overflow.
pub fn parse_usize(s: &str) -> (r: Option<usize>)
    ensures
        r is Some <==> parses_as_usize(s@),
        r is Some ==> r->0 == usize_val(s@),
{
    let n = s.unicode_len();
    let start: usize = if n > 0 && s.get_char(0) == '+' {
        1
    } else {
        0
    };
    if start >= n {
        return None;
    }
    let mut acc: usize = 0;
    let mut i: usize = start;
    while i < n
        invariant
            n == s@.len(),
            start <= i <= n,
            start < n,
            start == plus_skip(s@),
            forall|j: int| start <= j < i ==> is_digit(s@[j]),
            acc == dec_val(s@.subrange(start as int, i as int)),
        decreases n - i,
    {
        proof {
            assert(digits_of(s@) =~= s@.subrange(start as int, n as int));
        }
        let c = s.get_char(i);
        if !('0' <= c && c <= '9') {
            proof {
                assert(digits_of(s@)[i - start] == s@[i as int]);
            }
            return None;
        }
        let d = (c as u32) - ('0' as u32);
        proof {
            let pre = s@.subrange(start as int, i + 1);
            assert(pre.drop_last() =~= s@.subrange(start as int, i as int));
            assert(dec_val(pre) == acc * 10 + digit_val(s@[i as int]));
        }
        if acc > usize::MAX / 10 || (acc == usize::MAX / 10 && d as usize > usize::MAX % 10) {
            // overflow: the digit string's value exceeds usize::MAX
            proof {
                if parses_as_usize(s@) {
                    let pre = s@.subrange(start as int, i + 1);
                    assert(pre =~= digits_of(s@).subrange(0, i + 1 - start));
                    lemma_dec_val_prefix_monotone(digits_of(s@), i + 1 - start);
                    assert(dec_val(pre) > usize::MAX);
                    assert(false);
                }
            }
            return None;
        }
        acc = acc * 10 + (d as usize);
        i = i + 1;
    }
    proof {
        assert(digits_of(s@) =~= s@.subrange(start as int, n as int));
    }
    Some(acc)
}

/// If some prefix of a digit string already exceeds `usize::MAX`, the whole
/// string does too.
proof fn lemma_dec_val_prefix_monotone(s: Seq<char>, k: int)
    requires
        0 <= k <= s.len(),
        forall|i: int| 0 <= i < s.len() ==> is_digit(s[i]),
    ensures
        dec_val(s) >= dec_val(s.subrange(0, k)),
    decreases s.len() - k,
{
    if k < s.len() {
        lemma_dec_val_prefix_monotone(s, k + 1);
        let a = s.subrange(0, k);
        let b = s.subrange(0, k + 1);
        assert(b.drop_last() =~= a);
        lemma_dec_val_nonneg(a);
        assert(dec_val(b) == dec_val(a) * 10 + digit_val(b.last()));
        assert(dec_val(b) >= dec_val(a));
    } else {
        assert(s.subrange(0, k) =~= s);
    }
}

} // verus!

