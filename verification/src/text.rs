//! Character-level text utilities with exact specifications.
//!
//! Strings are handled as sequences of Unicode scalar values (`Seq<char>`),
//! which is the view that vstd gives to `String` and `&str`.

use vstd::prelude::*;

verus! {

// ---------------------------------------------------------------------------
// Whitespace and trimming
// ---------------------------------------------------------------------------

/// The Unicode `White_Space` property, the set that `char::is_whitespace`
/// and `str::trim` use.
pub open spec fn is_ws(c: char) -> bool {
    ||| ('\u{9}' <= c && c <= '\u{d}')
    ||| c == ' '
    ||| c == '\u{85}'
    ||| c == '\u{a0}'
    ||| c == '\u{1680}'
    ||| ('\u{2000}' <= c && c <= '\u{200a}')
    ||| c == '\u{2028}'
    ||| c == '\u{2029}'
    ||| c == '\u{202f}'
    ||| c == '\u{205f}'
    ||| c == '\u{3000}'
}

/// Executable membership test for `is_ws`.
pub fn is_whitespace(c: char) -> (r: bool)
    ensures
        r == is_ws(c),
{
    ('\u{9}' <= c && c <= '\u{d}') || c == ' ' || c == '\u{85}' || c == '\u{a0}' || c == '\u{1680}'
        || ('\u{2000}' <= c && c <= '\u{200a}') || c == '\u{2028}' || c == '\u{2029}' || c
        == '\u{202f}' || c == '\u{205f}' || c == '\u{3000}'
}

/// `s` with its leading whitespace removed.
pub open spec fn trim_left(s: Seq<char>) -> Seq<char>
    decreases s.len(),
{
    if s.len() > 0 && is_ws(s[0]) {
        trim_left(s.drop_first())
    } else {
        s
    }
}

/// `s` with its trailing whitespace removed.
pub open spec fn trim_right(s: Seq<char>) -> Seq<char>
    decreases s.len(),
{
    if s.len() > 0 && is_ws(s.last()) {
        trim_right(s.drop_last())
    } else {
        s
    }
}

/// `s` with leading and trailing whitespace removed, as `str::trim` does.
pub open spec fn trim(s: Seq<char>) -> Seq<char> {
    trim_right(trim_left(s))
}

proof fn lemma_trim_left_skip(s: Seq<char>, i: int)
    requires
        0 <= i < s.len(),
        is_ws(s[i]),
    ensures
        trim_left(s.subrange(i, s.len() as int)) == trim_left(s.subrange(i + 1, s.len() as int)),
{
    assert(s.subrange(i, s.len() as int).drop_first() =~= s.subrange(i + 1, s.len() as int));
}

proof fn lemma_trim_right_skip(s: Seq<char>, i: int, j: int)
    requires
        0 <= i < j <= s.len(),
        is_ws(s[j - 1]),
    ensures
        trim_right(s.subrange(i, j)) == trim_right(s.subrange(i, j - 1)),
{
    assert(s.subrange(i, j).drop_last() =~= s.subrange(i, j - 1));
}

/// Bounds `(start, end)` of the trimmed part of `s`.
pub fn trim_bounds(s: &Vec<char>) -> (r: (usize, usize))
    ensures
        r.0 <= r.1 <= s.len(),
        s@.subrange(r.0 as int, r.1 as int) == trim(s@),
{
    let n = s.len();
    let mut i: usize = 0;
    assert(s@.subrange(0, n as int) =~= s@);
    while i < n && is_whitespace(s[i])
        invariant
            i <= n == s.len(),
            trim_left(s@) == trim_left(s@.subrange(i as int, n as int)),
        decreases n - i,
    {
        proof {
            lemma_trim_left_skip(s@, i as int);
        }
        i = i + 1;
    }
    proof {
        if i < n {
            assert(!is_ws(s@.subrange(i as int, n as int)[0]));
        }
    }
    let mut j: usize = n;
    while j > i && is_whitespace(s[j - 1])
        invariant
            i <= j <= n == s.len(),
            trim(s@) == trim_right(s@.subrange(i as int, j as int)),
        decreases j,
    {
        proof {
            lemma_trim_right_skip(s@, i as int, j as int);
        }
        j = j - 1;
    }
    proof {
        if j > i {
            assert(s@.subrange(i as int, j as int).last() == s@[j - 1]);
        }
    }
    (i, j)
}

// ---------------------------------------------------------------------------
// Building strings
// ---------------------------------------------------------------------------

/// Collects characters into a `String`.
///
/// Trusted: calls std's `FromIterator<&char> for String`, which appends the
/// characters in order, so the string's characters are exactly `v`.
#[verifier::external_body]
pub(crate) fn string_from_chars(v: &[char]) -> (s: String)
    ensures
        s@ == v@,
{
    v.iter().collect()
}

/// The characters of `s[from..to]` as a `String`.
pub fn string_from_range(s: &Vec<char>, from: usize, to: usize) -> (r: String)
    requires
        from <= to <= s.len(),
    ensures
        r@ == s@.subrange(from as int, to as int),
{
    let mut v: Vec<char> = Vec::new();
    let mut k = from;
    while k < to
        invariant
            from <= k <= to <= s.len(),
            v@ == s@.subrange(from as int, k as int),
        decreases to - k,
    {
        v.push(s[k]);
        k = k + 1;
        assert(v@ =~= s@.subrange(from as int, k as int));
    }
    string_from_chars(v.as_slice())
}

/// `str::trim`, returning an owned string.
pub fn trimmed(s: &str) -> (r: String)
    ensures
        r@ == trim(s@),
{
    let v = chars_of(s);
    let (a, b) = trim_bounds(&v);
    string_from_range(&v, a, b)
}

/// The characters of a string slice, in order.
pub fn chars_of(s: &str) -> (v: Vec<char>)
    ensures
        v@ == s@,
{
    let mut v: Vec<char> = Vec::new();
    for c in it: s.chars()
        invariant
            v@ == it.seq().take(it.index() as int),
    {
        v.push(c);
    }
    v
}

// ---------------------------------------------------------------------------
// Substring search
// ---------------------------------------------------------------------------

/// `p` occurs in `s` starting at index `k`.
pub open spec fn occurs_at(s: Seq<char>, p: Seq<char>, k: int) -> bool {
    0 <= k && k + p.len() <= s.len() && s.subrange(k, k + p.len()) == p
}

/// `p` occurs somewhere in `s`.
pub open spec fn contains_seq(s: Seq<char>, p: Seq<char>) -> bool {
    exists|k: int| occurs_at(s, p, k)
}

/// `s` begins with `p`.
pub open spec fn starts_with_seq(s: Seq<char>, p: Seq<char>) -> bool {
    occurs_at(s, p, 0)
}

/// `s` ends with `p`.
pub open spec fn ends_with_seq(s: Seq<char>, p: Seq<char>) -> bool {
    p.len() <= s.len() && occurs_at(s, p, s.len() - p.len())
}

/// The first index at or after `from` where `p` occurs in `s`, if any.
pub open spec fn find_from_spec(s: Seq<char>, p: Seq<char>, from: int) -> Option<int>
    decreases s.len() + 1 - from,
{
    if from < 0 || from + p.len() > s.len() {
        None
    } else if occurs_at(s, p, from) {
        Some(from)
    } else {
        find_from_spec(s, p, from + 1)
    }
}

/// Whether `p` occurs in `s` at `k`.
pub fn occurs_at_exec(s: &Vec<char>, p: &Vec<char>, k: usize) -> (r: bool)
    ensures
        r == occurs_at(s@, p@, k as int),
{
    if k > s.len() || p.len() > s.len() - k {
        return false;
    }
    let mut i: usize = 0;
    while i < p.len()
        invariant
            k + p.len() <= s.len(),
            i <= p.len(),
            forall|j: int| 0 <= j < i ==> s@[k + j] == p@[j],
        decreases p.len() - i,
    {
        if s[k + i] != p[i] {
            assert(s@.subrange(k as int, k + p.len())[i as int] != p@[i as int]);
            return false;
        }
        i = i + 1;
    }
    assert(s@.subrange(k as int, k + p.len()) =~= p@);
    true
}

/// First occurrence of `p` in `s` at or after `from`.
pub fn find_from(s: &Vec<char>, p: &Vec<char>, from: usize) -> (r: Option<usize>)
    ensures
        match r {
            Some(k) => find_from_spec(s@, p@, from as int) == Some(k as int),
            None => find_from_spec(s@, p@, from as int) is None,
        },
{
    if p.len() > s.len() || from > s.len() - p.len() {
        return None;
    }
    let last = s.len() - p.len();
    let mut k = from;
    loop
        invariant
            from <= k <= last,
            last + p.len() == s.len(),
            find_from_spec(s@, p@, from as int) == find_from_spec(s@, p@, k as int),
        decreases last - k,
    {
        if occurs_at_exec(s, p, k) {
            return Some(k);
        }
        if k == last {
            assert(find_from_spec(s@, p@, k + 1) is None);
            return None;
        }
        k = k + 1;
    }
}

/// Every occurrence found by `find_from_spec` is a real occurrence, and none
/// lies between `from` and it.
pub proof fn lemma_find_from(s: Seq<char>, p: Seq<char>, from: int)
    requires
        0 <= from,
    ensures
        match find_from_spec(s, p, from) {
            Some(k) => from <= k && occurs_at(s, p, k) && forall|j: int|
                from <= j < k ==> !occurs_at(s, p, j),
            None => forall|j: int| from <= j ==> !occurs_at(s, p, j),
        },
    decreases s.len() + 1 - from,
{
    if from + p.len() > s.len() {
    } else if occurs_at(s, p, from) {
    } else {
        lemma_find_from(s, p, from + 1);
    }
}

/// `str::contains` for a pattern string.
pub fn contains_exec(s: &Vec<char>, p: &Vec<char>) -> (r: bool)
    ensures
        r == contains_seq(s@, p@),
{
    proof {
        lemma_find_from(s@, p@, 0);
    }
    match find_from(s, p, 0) {
        Some(_) => true,
        None => {
            assert forall|k: int| !occurs_at(s@, p@, k) by {
                if k >= 0 {
                }
            }
            false
        },
    }
}

/// `str::starts_with` for a pattern string.
pub fn starts_with_exec(s: &Vec<char>, p: &Vec<char>) -> (r: bool)
    ensures
        r == starts_with_seq(s@, p@),
{
    occurs_at_exec(s, p, 0)
}

/// `str::ends_with` for a pattern string.
pub fn ends_with_exec(s: &Vec<char>, p: &Vec<char>) -> (r: bool)
    ensures
        r == ends_with_seq(s@, p@),
{
    if p.len() > s.len() {
        false
    } else {
        occurs_at_exec(s, p, s.len() - p.len())
    }
}

// ---------------------------------------------------------------------------
// Decimal numbers
// ---------------------------------------------------------------------------

/// `c` is one of `'0'..='9'`.
pub open spec fn is_digit(c: char) -> bool {
    '0' <= c && c <= '9'
}

/// The value of an ASCII digit.
pub open spec fn digit_value(c: char) -> nat {
    (c as int - '0' as int) as nat
}

/// The ASCII digit for a value below ten.
pub open spec fn digit_char(d: nat) -> char {
    (d + '0' as int) as char
}

/// Every character of `s` is an ASCII digit.
pub open spec fn all_digits(s: Seq<char>) -> bool {
    forall|i: int| 0 <= i < s.len() ==> is_digit(s[i])
}

/// The value of a string of ASCII digits, read in base ten.
pub open spec fn digits_value(s: Seq<char>) -> nat
    decreases s.len(),
{
    if s.len() == 0 {
        0
    } else {
        digits_value(s.drop_last()) * 10 + digit_value(s.last())
    }
}

/// The decimal notation of `n`, without sign or leading zeros.
pub open spec fn decimal(n: nat) -> Seq<char>
    decreases n,
{
    if n < 10 {
        seq![digit_char(n)]
    } else {
        decimal(n / 10).push(digit_char(n % 10))
    }
}

/// What `str::parse` gives for an unsigned integer type whose largest value
/// is `max`: an optional `+`, then one or more ASCII digits whose value does
/// not exceed `max`.
pub open spec fn parse_unsigned(s: Seq<char>, max: nat) -> Option<nat> {
    let d = if s.len() > 0 && s[0] == '+' {
        s.drop_first()
    } else {
        s
    };
    if d.len() > 0 && all_digits(d) && digits_value(d) <= max {
        Some(digits_value(d))
    } else {
        None
    }
}

/// The decimal notation of `n` as characters.
pub fn decimal_chars(n: u64) -> (v: Vec<char>)
    ensures
        v@ == decimal(n as nat),
    decreases n,
{
    let d = n % 10;
    let c = if d == 0 {
        '0'
    } else if d == 1 {
        '1'
    } else if d == 2 {
        '2'
    } else if d == 3 {
        '3'
    } else if d == 4 {
        '4'
    } else if d == 5 {
        '5'
    } else if d == 6 {
        '6'
    } else if d == 7 {
        '7'
    } else if d == 8 {
        '8'
    } else {
        '9'
    };
    assert(c == digit_char(d as nat));
    if n < 10 {
        let mut v = Vec::new();
        v.push(c);
        v
    } else {
        let mut v = decimal_chars(n / 10);
        v.push(c);
        v
    }
}

/// The decimal notation of `n`, as `u64::to_string` writes it.
pub fn decimal_string(n: u64) -> (s: String)
    ensures
        s@ == decimal(n as nat),
{
    let v = decimal_chars(n);
    string_from_chars(v.as_slice())
}

/// Parses `s` as `str::parse::<u64>` does when the largest accepted value is
/// `max`; `max` is `u32::MAX` for `u32` and `u64::MAX` for `u64`.
pub fn parse_unsigned_exec(s: &Vec<char>, max: u64) -> (r: Option<u64>)
    ensures
        match parse_unsigned(s@, max as nat) {
            Some(v) => r == Some(v as u64),
            None => r is None,
        },
{
    let start: usize = if s.len() > 0 && s[0] == '+' {
        1
    } else {
        0
    };
    let ghost d = if s@.len() > 0 && s@[0] == '+' {
        s@.drop_first()
    } else {
        s@
    };
    assert(d =~= s@.subrange(start as int, s@.len() as int));
    if start >= s.len() {
        return None;
    }
    let mut acc: u64 = 0;
    let mut over = false;
    let mut k = start;
    while k < s.len()
        invariant
            start <= k <= s.len(),
            d == s@.subrange(start as int, s@.len() as int),
            d == (if s@.len() > 0 && s@[0] == '+' {
                s@.drop_first()
            } else {
                s@
            }),
            all_digits(s@.subrange(start as int, k as int)),
            over <==> digits_value(s@.subrange(start as int, k as int)) > max,
            !over ==> acc == digits_value(s@.subrange(start as int, k as int)),
        decreases s.len() - k,
    {
        let c = s[k];
        if !('0' <= c && c <= '9') {
            assert(d[k - start] == c);
            assert(!is_digit(d[k - start]));
            assert(!all_digits(d));
            return None;
        }
        let dv: u64 = (c as u32 - '0' as u32) as u64;
        let ghost prev = s@.subrange(start as int, k as int);
        let ghost next = s@.subrange(start as int, k + 1);
        assert(next.drop_last() =~= prev);
        assert(next.last() == c);
        assert(dv == digit_value(c));
        if !over {
            if dv > max || acc > (max - dv) / 10 {
                over = true;
                assert(digits_value(next) > max) by (nonlinear_arith)
                    requires
                        digits_value(next) == acc * 10 + dv,
                        dv > max || acc > (max - dv) / 10,
                        dv <= 9,
                ;
            } else {
                assert(acc * 10 + dv <= max) by (nonlinear_arith)
                    requires
                        acc <= (max - dv) / 10,
                        dv <= max,
                ;
                acc = acc * 10 + dv;
            }
        } else {
            assert(digits_value(next) >= digits_value(prev));
        }
        k = k + 1;
        assert(all_digits(s@.subrange(start as int, k as int))) by {
            assert forall|i: int| 0 <= i < next.len() implies is_digit(next[i]) by {
                if i < prev.len() {
                    assert(next[i] == prev[i]);
                }
            }
        }
    }
    if over {
        None
    } else {
        Some(acc)
    }
}

// ---------------------------------------------------------------------------
// Laws
// ---------------------------------------------------------------------------

pub(crate) proof fn lemma_decimal_digits(n: nat)
    ensures
        decimal(n).len() > 0,
        all_digits(decimal(n)),
        digits_value(decimal(n)) == n,
    decreases n,
{
    let d = n % 10;
    assert(digit_value(digit_char(d)) == d);
    assert(is_digit(digit_char(d)));
    if n >= 10 {
        lemma_decimal_digits(n / 10);
        let s = decimal(n / 10);
        assert(decimal(n).drop_last() =~= s);
        assert(decimal(n).last() == digit_char(d));
        assert((n / 10) * 10 + n % 10 == n) by (nonlinear_arith);
        assert(digits_value(decimal(n)) == digits_value(decimal(n).drop_last()) * 10 + digit_value(
            decimal(n).last(),
        ));
        assert(digits_value(s) == n / 10);
        assert(digits_value(decimal(n)) == (n / 10) * 10 + d);
        assert forall|i: int| 0 <= i < decimal(n).len() implies is_digit(decimal(n)[i]) by {
            if i < s.len() {
                assert(decimal(n)[i] == s[i]);
            }
        }
    } else {
        assert(decimal(n).drop_last() =~= Seq::<char>::empty());
        assert(digits_value(decimal(n)) == digits_value(decimal(n).drop_last()) * 10 + digit_value(
            decimal(n).last(),
        ));
    }
}

/// Reading back the decimal notation of a number gives the number: for every
/// `n` up to `max`, `parse_unsigned(decimal(n), max) == Some(n)`.
pub proof fn law_decimal_round_trip(n: nat, max: nat)
    requires
        n <= max,
    ensures
        parse_unsigned(decimal(n), max) == Some(n),
{
    lemma_decimal_digits(n);
    assert(is_digit(decimal(n)[0]));
}

proof fn lemma_trim_left_fixed(s: Seq<char>)
    ensures
        s.len() > 0 && trim_left(s) == s ==> !is_ws(s[0]),
        trim_left(s).len() > 0 ==> !is_ws(trim_left(s)[0]),
        trim_left(trim_left(s)) == trim_left(s),
    decreases s.len(),
{
    if s.len() > 0 && is_ws(s[0]) {
        lemma_trim_left_fixed(s.drop_first());
    }
}

proof fn lemma_trim_right_fixed(s: Seq<char>)
    ensures
        trim_right(s).len() > 0 ==> !is_ws(trim_right(s).last()),
        trim_right(trim_right(s)) == trim_right(s),
        trim_right(s).len() <= s.len(),
        trim_right(s) == s.subrange(0, trim_right(s).len() as int),
    decreases s.len(),
{
    if s.len() > 0 && is_ws(s.last()) {
        lemma_trim_right_fixed(s.drop_last());
        assert(s.drop_last().subrange(0, trim_right(s).len() as int) =~= s.subrange(
            0,
            trim_right(s).len() as int,
        ));
    } else {
        assert(s.subrange(0, s.len() as int) =~= s);
    }
}

/// A trimmed text has no whitespace at either end: trimming it again
/// changes nothing.
pub proof fn law_trim_idempotent(s: Seq<char>)
    ensures
        trim(trim(s)) == trim(s),
        trim(s).len() > 0 ==> !is_ws(trim(s)[0]) && !is_ws(trim(s).last()),
{
    let l = trim_left(s);
    lemma_trim_left_fixed(s);
    lemma_trim_right_fixed(l);
    let t = trim_right(l);
    if t.len() > 0 {
        assert(t[0] == l[0]);
        assert(!is_ws(t[0]));
        assert(trim_left(t) == t);
    } else {
        assert(trim_left(t) == t);
    }
}

} // verus!
