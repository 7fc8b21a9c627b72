//! The grammar of manifest scripts: the `addappid`, `addtoken` and
//! `setManifestid` calls that a depot script contains.
//!
//! Each call shape is matched exactly as a Unicode-aware regular expression
//! matcher with leftmost-first semantics matches it; the patterns are
//!
//! * depot:    `addappid\((\d+),\s*\d+,\s*"([^"]*)"\)([^\r\n]*)`
//! * dlc:      `(?m)^\s*addappid\((\d+)\)`
//! * token:    `addtoken\((\d+),\s*"(\d+)"\)`
//! * manifest: `setManifestid\((\d+),\s*"(\d+)"`
//!
//! In every pattern each repetition is followed by a character that its class
//! excludes, so the greedy maximal run is the only way to continue a match;
//! the specifications below therefore describe one match per start position,
//! and a scan takes the leftmost match, then continues after its end.

use vstd::prelude::*;
use crate::text::{is_whitespace, is_ws, occurs_at, occurs_at_exec};

verus! {

/// Unicode general category `Nd` (decimal digits, Unicode 16), the class
/// that `\d` denotes in a Unicode-aware pattern.
pub open spec fn is_nd(c: char) -> bool {
    let v = c as u32;
    ||| (0x30 <= v && v <= 0x39)
    ||| (0x660 <= v && v <= 0x669)
    ||| (0x6f0 <= v && v <= 0x6f9)
    ||| (0x7c0 <= v && v <= 0x7c9)
    ||| (0x966 <= v && v <= 0x96f)
    ||| (0x9e6 <= v && v <= 0x9ef)
    ||| (0xa66 <= v && v <= 0xa6f)
    ||| (0xae6 <= v && v <= 0xaef)
    ||| (0xb66 <= v && v <= 0xb6f)
    ||| (0xbe6 <= v && v <= 0xbef)
    ||| (0xc66 <= v && v <= 0xc6f)
    ||| (0xce6 <= v && v <= 0xcef)
    ||| (0xd66 <= v && v <= 0xd6f)
    ||| (0xde6 <= v && v <= 0xdef)
    ||| (0xe50 <= v && v <= 0xe59)
    ||| (0xed0 <= v && v <= 0xed9)
    ||| (0xf20 <= v && v <= 0xf29)
    ||| (0x1040 <= v && v <= 0x1049)
    ||| (0x1090 <= v && v <= 0x1099)
    ||| (0x17e0 <= v && v <= 0x17e9)
    ||| (0x1810 <= v && v <= 0x1819)
    ||| (0x1946 <= v && v <= 0x194f)
    ||| (0x19d0 <= v && v <= 0x19d9)
    ||| (0x1a80 <= v && v <= 0x1a89)
    ||| (0x1a90 <= v && v <= 0x1a99)
    ||| (0x1b50 <= v && v <= 0x1b59)
    ||| (0x1bb0 <= v && v <= 0x1bb9)
    ||| (0x1c40 <= v && v <= 0x1c49)
    ||| (0x1c50 <= v && v <= 0x1c59)
    ||| (0xa620 <= v && v <= 0xa629)
    ||| (0xa8d0 <= v && v <= 0xa8d9)
    ||| (0xa900 <= v && v <= 0xa909)
    ||| (0xa9d0 <= v && v <= 0xa9d9)
    ||| (0xa9f0 <= v && v <= 0xa9f9)
    ||| (0xaa50 <= v && v <= 0xaa59)
    ||| (0xabf0 <= v && v <= 0xabf9)
    ||| (0xff10 <= v && v <= 0xff19)
    ||| (0x104a0 <= v && v <= 0x104a9)
    ||| (0x10d30 <= v && v <= 0x10d39)
    ||| (0x10d40 <= v && v <= 0x10d49)
    ||| (0x11066 <= v && v <= 0x1106f)
    ||| (0x110f0 <= v && v <= 0x110f9)
    ||| (0x11136 <= v && v <= 0x1113f)
    ||| (0x111d0 <= v && v <= 0x111d9)
    ||| (0x112f0 <= v && v <= 0x112f9)
    ||| (0x11450 <= v && v <= 0x11459)
    ||| (0x114d0 <= v && v <= 0x114d9)
    ||| (0x11650 <= v && v <= 0x11659)
    ||| (0x116c0 <= v && v <= 0x116c9)
    ||| (0x116d0 <= v && v <= 0x116e3)
    ||| (0x11730 <= v && v <= 0x11739)
    ||| (0x118e0 <= v && v <= 0x118e9)
    ||| (0x11950 <= v && v <= 0x11959)
    ||| (0x11bf0 <= v && v <= 0x11bf9)
    ||| (0x11c50 <= v && v <= 0x11c59)
    ||| (0x11d50 <= v && v <= 0x11d59)
    ||| (0x11da0 <= v && v <= 0x11da9)
    ||| (0x11f50 <= v && v <= 0x11f59)
    ||| (0x16130 <= v && v <= 0x16139)
    ||| (0x16a60 <= v && v <= 0x16a69)
    ||| (0x16ac0 <= v && v <= 0x16ac9)
    ||| (0x16b50 <= v && v <= 0x16b59)
    ||| (0x16d70 <= v && v <= 0x16d79)
    ||| (0x1ccf0 <= v && v <= 0x1ccf9)
    ||| (0x1d7ce <= v && v <= 0x1d7ff)
    ||| (0x1e140 <= v && v <= 0x1e149)
    ||| (0x1e2f0 <= v && v <= 0x1e2f9)
    ||| (0x1e4f0 <= v && v <= 0x1e4f9)
    ||| (0x1e5f1 <= v && v <= 0x1e5fa)
    ||| (0x1e950 <= v && v <= 0x1e959)
    ||| (0x1fbf0 <= v && v <= 0x1fbf9)
}

/// Executable test for `is_nd`.
pub fn is_nd_exec(c: char) -> (r: bool)
    ensures
        r == is_nd(c),
{
    let v = c as u32;
    (0x30 <= v && v <= 0x39) ||
        (0x660 <= v && v <= 0x669) ||
        (0x6f0 <= v && v <= 0x6f9) ||
        (0x7c0 <= v && v <= 0x7c9) ||
        (0x966 <= v && v <= 0x96f) ||
        (0x9e6 <= v && v <= 0x9ef) ||
        (0xa66 <= v && v <= 0xa6f) ||
        (0xae6 <= v && v <= 0xaef) ||
        (0xb66 <= v && v <= 0xb6f) ||
        (0xbe6 <= v && v <= 0xbef) ||
        (0xc66 <= v && v <= 0xc6f) ||
        (0xce6 <= v && v <= 0xcef) ||
        (0xd66 <= v && v <= 0xd6f) ||
        (0xde6 <= v && v <= 0xdef) ||
        (0xe50 <= v && v <= 0xe59) ||
        (0xed0 <= v && v <= 0xed9) ||
        (0xf20 <= v && v <= 0xf29) ||
        (0x1040 <= v && v <= 0x1049) ||
        (0x1090 <= v && v <= 0x1099) ||
        (0x17e0 <= v && v <= 0x17e9) ||
        (0x1810 <= v && v <= 0x1819) ||
        (0x1946 <= v && v <= 0x194f) ||
        (0x19d0 <= v && v <= 0x19d9) ||
        (0x1a80 <= v && v <= 0x1a89) ||
        (0x1a90 <= v && v <= 0x1a99) ||
        (0x1b50 <= v && v <= 0x1b59) ||
        (0x1bb0 <= v && v <= 0x1bb9) ||
        (0x1c40 <= v && v <= 0x1c49) ||
        (0x1c50 <= v && v <= 0x1c59) ||
        (0xa620 <= v && v <= 0xa629) ||
        (0xa8d0 <= v && v <= 0xa8d9) ||
        (0xa900 <= v && v <= 0xa909) ||
        (0xa9d0 <= v && v <= 0xa9d9) ||
        (0xa9f0 <= v && v <= 0xa9f9) ||
        (0xaa50 <= v && v <= 0xaa59) ||
        (0xabf0 <= v && v <= 0xabf9) ||
        (0xff10 <= v && v <= 0xff19) ||
        (0x104a0 <= v && v <= 0x104a9) ||
        (0x10d30 <= v && v <= 0x10d39) ||
        (0x10d40 <= v && v <= 0x10d49) ||
        (0x11066 <= v && v <= 0x1106f) ||
        (0x110f0 <= v && v <= 0x110f9) ||
        (0x11136 <= v && v <= 0x1113f) ||
        (0x111d0 <= v && v <= 0x111d9) ||
        (0x112f0 <= v && v <= 0x112f9) ||
        (0x11450 <= v && v <= 0x11459) ||
        (0x114d0 <= v && v <= 0x114d9) ||
        (0x11650 <= v && v <= 0x11659) ||
        (0x116c0 <= v && v <= 0x116c9) ||
        (0x116d0 <= v && v <= 0x116e3) ||
        (0x11730 <= v && v <= 0x11739) ||
        (0x118e0 <= v && v <= 0x118e9) ||
        (0x11950 <= v && v <= 0x11959) ||
        (0x11bf0 <= v && v <= 0x11bf9) ||
        (0x11c50 <= v && v <= 0x11c59) ||
        (0x11d50 <= v && v <= 0x11d59) ||
        (0x11da0 <= v && v <= 0x11da9) ||
        (0x11f50 <= v && v <= 0x11f59) ||
        (0x16130 <= v && v <= 0x16139) ||
        (0x16a60 <= v && v <= 0x16a69) ||
        (0x16ac0 <= v && v <= 0x16ac9) ||
        (0x16b50 <= v && v <= 0x16b59) ||
        (0x16d70 <= v && v <= 0x16d79) ||
        (0x1ccf0 <= v && v <= 0x1ccf9) ||
        (0x1d7ce <= v && v <= 0x1d7ff) ||
        (0x1e140 <= v && v <= 0x1e149) ||
        (0x1e2f0 <= v && v <= 0x1e2f9) ||
        (0x1e4f0 <= v && v <= 0x1e4f9) ||
        (0x1e5f1 <= v && v <= 0x1e5fa) ||
        (0x1e950 <= v && v <= 0x1e959) ||
        (0x1fbf0 <= v && v <= 0x1fbf9)
}

/// The character classes that the script patterns repeat.
#[derive(Clone, Copy, PartialEq, Eq, Debug)]
pub enum CharClass {
    /// `\d`
    Digit,
    /// `\s`
    Space,
    /// `[^"]`
    NotQuote,
    /// `[^\r\n]`
    NotLineEnd,
}

/// Membership of `c` in the class `cls`.
pub open spec fn in_class(cls: CharClass, c: char) -> bool {
    match cls {
        CharClass::Digit => is_nd(c),
        CharClass::Space => is_ws(c),
        CharClass::NotQuote => c != '"',
        CharClass::NotLineEnd => c != '\r' && c != '\n',
    }
}

fn in_class_exec(cls: CharClass, c: char) -> (r: bool)
    ensures
        r == in_class(cls, c),
{
    match cls {
        CharClass::Digit => is_nd_exec(c),
        CharClass::Space => is_whitespace(c),
        CharClass::NotQuote => c != '"',
        CharClass::NotLineEnd => c != '\r' && c != '\n',
    }
}

/// The end of the maximal run of `cls` characters starting at `i`.
pub open spec fn run_end(s: Seq<char>, i: int, cls: CharClass) -> int
    decreases s.len() - i,
{
    if 0 <= i < s.len() && in_class(cls, s[i]) {
        run_end(s, i + 1, cls)
    } else {
        i
    }
}

fn run_end_exec(s: &Vec<char>, i: usize, cls: CharClass) -> (r: usize)
    requires
        i <= s.len(),
    ensures
        r == run_end(s@, i as int, cls),
        i <= r <= s.len(),
{
    let mut k = i;
    while k < s.len() && in_class_exec(cls, s[k])
        invariant
            i <= k <= s.len(),
            run_end(s@, i as int, cls) == run_end(s@, k as int, cls),
        decreases s.len() - k,
    {
        k = k + 1;
    }
    k
}

/// A run of `cls` characters from `i` that stops at `j` (the end of `s` or
/// a character outside the class) ends at `j`.
pub(crate) proof fn lemma_run_end(s: Seq<char>, i: int, j: int, cls: CharClass)
    requires
        0 <= i <= j <= s.len(),
        forall|k: int| i <= k < j ==> in_class(cls, #[trigger] s[k]),
        j == s.len() || !in_class(cls, s[j]),
    ensures
        run_end(s, i, cls) == j,
    decreases j - i,
{
    if i < j {
        lemma_run_end(s, i + 1, j, cls);
    }
}

/// `s[k]` exists and is `c`.
pub open spec fn char_is(s: Seq<char>, k: int, c: char) -> bool {
    0 <= k < s.len() && s[k] == c
}

fn char_is_exec(s: &Vec<char>, k: usize, c: char) -> (r: bool)
    ensures
        r == char_is(s@, k as int, c),
{
    k < s.len() && s[k] == c
}

/// `addappid(`
pub open spec fn lit_addappid() -> Seq<char> {
    seq!['a', 'd', 'd', 'a', 'p', 'p', 'i', 'd', '(']
}

/// `addtoken(`
pub open spec fn lit_addtoken() -> Seq<char> {
    seq!['a', 'd', 'd', 't', 'o', 'k', 'e', 'n', '(']
}

/// `setManifestid(`
pub open spec fn lit_set_manifest() -> Seq<char> {
    seq!['s', 'e', 't', 'M', 'a', 'n', 'i', 'f', 'e', 's', 't', 'i', 'd', '(']
}

fn lit_addappid_exec() -> (v: Vec<char>)
    ensures
        v@ == lit_addappid(),
{
    let v = vec!['a', 'd', 'd', 'a', 'p', 'p', 'i', 'd', '('];
    assert(v@ =~= lit_addappid());
    v
}

fn lit_addtoken_exec() -> (v: Vec<char>)
    ensures
        v@ == lit_addtoken(),
{
    let v = vec!['a', 'd', 'd', 't', 'o', 'k', 'e', 'n', '('];
    assert(v@ =~= lit_addtoken());
    v
}

fn lit_set_manifest_exec() -> (v: Vec<char>)
    ensures
        v@ == lit_set_manifest(),
{
    let v = vec!['s', 'e', 't', 'M', 'a', 'n', 'i', 'f', 'e', 's', 't', 'i', 'd', '('];
    assert(v@ =~= lit_set_manifest());
    v
}

/// The four call shapes of a manifest script.
#[derive(Clone, Copy, PartialEq, Eq, Debug)]
pub enum Pattern {
    /// A depot with its decryption key and trailing comment.
    Depot,
    /// A bare `addappid(id)` at the start of a line: a DLC depot.
    Dlc,
    /// An access token for an app.
    Token,
    /// A pinned manifest id for a depot.
    Manifest,
}

/// Depot call at `i`: end of the match and the captures (id, key, rest of line).
pub open spec fn depot_at(s: Seq<char>, i: int) -> Option<(int, Seq<Seq<char>>)> {
    let a = i + 9;
    if !occurs_at(s, lit_addappid(), i) {
        None
    } else {
        let d1 = run_end(s, a, CharClass::Digit);
        if d1 == a || !char_is(s, d1, ',') {
            None
        } else {
            let w1 = run_end(s, d1 + 1, CharClass::Space);
            let d2 = run_end(s, w1, CharClass::Digit);
            if d2 == w1 || !char_is(s, d2, ',') {
                None
            } else {
                let w2 = run_end(s, d2 + 1, CharClass::Space);
                if !char_is(s, w2, '"') {
                    None
                } else {
                    let q = run_end(s, w2 + 1, CharClass::NotQuote);
                    if !char_is(s, q, '"') || !char_is(s, q + 1, ')') {
                        None
                    } else {
                        let r = run_end(s, q + 2, CharClass::NotLineEnd);
                        Some(
                            (
                                r,
                                seq![s.subrange(a, d1), s.subrange(w2 + 1, q), s.subrange(q + 2, r)],
                            ),
                        )
                    }
                }
            }
        }
    }
}

/// `i` is the start of the text or follows a line feed.
pub open spec fn at_line_start(s: Seq<char>, i: int) -> bool {
    i == 0 || (0 < i <= s.len() && s[i - 1] == '\n')
}

/// DLC call at `i`: end of the match and the capture (id).
pub open spec fn dlc_at(s: Seq<char>, i: int) -> Option<(int, Seq<Seq<char>>)> {
    if !at_line_start(s, i) {
        None
    } else {
        let w = run_end(s, i, CharClass::Space);
        if !occurs_at(s, lit_addappid(), w) {
            None
        } else {
            let a = w + 9;
            let d = run_end(s, a, CharClass::Digit);
            if d == a || !char_is(s, d, ')') {
                None
            } else {
                Some((d + 1, seq![s.subrange(a, d)]))
            }
        }
    }
}

/// Token call at `i`: end of the match and the captures (app id, token).
pub open spec fn token_at(s: Seq<char>, i: int) -> Option<(int, Seq<Seq<char>>)> {
    let a = i + 9;
    if !occurs_at(s, lit_addtoken(), i) {
        None
    } else {
        let d1 = run_end(s, a, CharClass::Digit);
        if d1 == a || !char_is(s, d1, ',') {
            None
        } else {
            let w = run_end(s, d1 + 1, CharClass::Space);
            if !char_is(s, w, '"') {
                None
            } else {
                let d2 = run_end(s, w + 1, CharClass::Digit);
                if d2 == w + 1 || !char_is(s, d2, '"') || !char_is(s, d2 + 1, ')') {
                    None
                } else {
                    Some((d2 + 2, seq![s.subrange(a, d1), s.subrange(w + 1, d2)]))
                }
            }
        }
    }
}

/// Manifest call at `i`: end of the match and the captures (depot id, manifest id).
pub open spec fn manifest_at(s: Seq<char>, i: int) -> Option<(int, Seq<Seq<char>>)> {
    let a = i + 14;
    if !occurs_at(s, lit_set_manifest(), i) {
        None
    } else {
        let d1 = run_end(s, a, CharClass::Digit);
        if d1 == a || !char_is(s, d1, ',') {
            None
        } else {
            let w = run_end(s, d1 + 1, CharClass::Space);
            if !char_is(s, w, '"') {
                None
            } else {
                let d2 = run_end(s, w + 1, CharClass::Digit);
                if d2 == w + 1 || !char_is(s, d2, '"') {
                    None
                } else {
                    Some((d2 + 1, seq![s.subrange(a, d1), s.subrange(w + 1, d2)]))
                }
            }
        }
    }
}

/// The match of `pat` that starts at `i`, if any.
pub open spec fn match_at(pat: Pattern, s: Seq<char>, i: int) -> Option<(int, Seq<Seq<char>>)> {
    match pat {
        Pattern::Depot => depot_at(s, i),
        Pattern::Dlc => dlc_at(s, i),
        Pattern::Token => token_at(s, i),
        Pattern::Manifest => manifest_at(s, i),
    }
}

/// The captures of the successive non-overlapping leftmost matches of `pat`
/// in `s`, searching from `i`.
pub open spec fn matches_from(pat: Pattern, s: Seq<char>, i: int) -> Seq<Seq<Seq<char>>>
    decreases s.len() - i,
{
    if 0 <= i < s.len() {
        match match_at(pat, s, i) {
            Some(m) => if i < m.0 <= s.len() {
                seq![m.1] + matches_from(pat, s, m.0)
            } else {
                matches_from(pat, s, i + 1)
            },
            None => matches_from(pat, s, i + 1),
        }
    } else {
        Seq::empty()
    }
}

/// The number of captures of each pattern.
pub open spec fn cap_count(pat: Pattern) -> nat {
    match pat {
        Pattern::Depot => 3,
        Pattern::Dlc => 1,
        Pattern::Token => 2,
        Pattern::Manifest => 2,
    }
}

/// Every match of `pat` carries exactly `cap_count(pat)` captures.
pub proof fn lemma_match_shape(pat: Pattern, s: Seq<char>, i: int)
    ensures
        forall|k: int|
            0 <= k < matches_from(pat, s, i).len() ==> #[trigger] matches_from(pat, s, i)[k].len()
                == cap_count(pat),
    decreases s.len() - i,
{
    if 0 <= i < s.len() {
        match match_at(pat, s, i) {
            Some(m) => {
                if i < m.0 <= s.len() {
                    assert(m.1.len() == cap_count(pat)) by {
                        match pat {
                            Pattern::Depot => {},
                            Pattern::Dlc => {},
                            Pattern::Token => {},
                            Pattern::Manifest => {},
                        }
                    }
                    lemma_match_shape(pat, s, m.0);
                    let rest = matches_from(pat, s, m.0);
                    assert forall|k: int| 0 <= k < matches_from(pat, s, i).len() implies #[trigger] matches_from(pat, s, i)[k].len() == cap_count(pat) by {
                        if k > 0 {
                            assert(matches_from(pat, s, i)[k] == rest[k - 1]);
                        } else {
                            assert(matches_from(pat, s, i)[k] == m.1);
                        }
                    }
                } else {
                    lemma_match_shape(pat, s, i + 1);
                    assert(matches_from(pat, s, i) == matches_from(pat, s, i + 1));
                }
            },
            None => {
                lemma_match_shape(pat, s, i + 1);
                assert(matches_from(pat, s, i) == matches_from(pat, s, i + 1));
            },
        }
    }
}

/// All matches of `pat` in `s`, in order.
pub open spec fn all_matches(pat: Pattern, s: Seq<char>) -> Seq<Seq<Seq<char>>> {
    matches_from(pat, s, 0)
}

/// The captured texts of one match.
pub open spec fn caps_view(caps: Seq<Vec<char>>) -> Seq<Seq<char>> {
    caps.map_values(|v: Vec<char>| v@)
}

/// The captured texts of a list of matches.
pub open spec fn all_caps_view(ms: Seq<Vec<Vec<char>>>) -> Seq<Seq<Seq<char>>> {
    ms.map_values(|c: Vec<Vec<char>>| caps_view(c@))
}

/// `s[a..b]` as a vector.
pub fn sub_chars(s: &Vec<char>, a: usize, b: usize) -> (v: Vec<char>)
    requires
        a <= b <= s.len(),
    ensures
        v@ == s@.subrange(a as int, b as int),
{
    let mut v: Vec<char> = Vec::new();
    let mut k = a;
    while k < b
        invariant
            a <= k <= b <= s.len(),
            v@ == s@.subrange(a as int, k as int),
        decreases b - k,
    {
        v.push(s[k]);
        k = k + 1;
        assert(v@ =~= s@.subrange(a as int, k as int));
    }
    v
}

fn depot_at_exec(s: &Vec<char>, i: usize) -> (r: Option<(usize, Vec<Vec<char>>)>)
    requires
        i <= s.len(),
    ensures
        match depot_at(s@, i as int) {
            Some(m) => r matches Some(x) && x.0 as int == m.0 && caps_view(x.1@) == m.1,
            None => r is None,
        },
{
    let lit = lit_addappid_exec();
    if !occurs_at_exec(s, &lit, i) {
        return None;
    }
    let a = i + 9;
    let d1 = run_end_exec(s, a, CharClass::Digit);
    if d1 == a || !char_is_exec(s, d1, ',') {
        return None;
    }
    let w1 = run_end_exec(s, d1 + 1, CharClass::Space);
    let d2 = run_end_exec(s, w1, CharClass::Digit);
    if d2 == w1 || !char_is_exec(s, d2, ',') {
        return None;
    }
    let w2 = run_end_exec(s, d2 + 1, CharClass::Space);
    if !char_is_exec(s, w2, '"') {
        return None;
    }
    let q = run_end_exec(s, w2 + 1, CharClass::NotQuote);
    if !char_is_exec(s, q, '"') || !char_is_exec(s, q + 1, ')') {
        return None;
    }
    let r = run_end_exec(s, q + 2, CharClass::NotLineEnd);
    let mut caps: Vec<Vec<char>> = Vec::new();
    caps.push(sub_chars(s, a, d1));
    caps.push(sub_chars(s, w2 + 1, q));
    caps.push(sub_chars(s, q + 2, r));
    assert(caps_view(caps@) =~= seq![
        s@.subrange(a as int, d1 as int),
        s@.subrange(w2 + 1, q as int),
        s@.subrange(q + 2, r as int),
    ]);
    Some((r, caps))
}

fn dlc_at_exec(s: &Vec<char>, i: usize) -> (r: Option<(usize, Vec<Vec<char>>)>)
    requires
        i <= s.len(),
    ensures
        match dlc_at(s@, i as int) {
            Some(m) => r matches Some(x) && x.0 as int == m.0 && caps_view(x.1@) == m.1,
            None => r is None,
        },
{
    if !(i == 0 || s[i - 1] == '\n') {
        return None;
    }
    let w = run_end_exec(s, i, CharClass::Space);
    let lit = lit_addappid_exec();
    if !occurs_at_exec(s, &lit, w) {
        return None;
    }
    let a = w + 9;
    let d = run_end_exec(s, a, CharClass::Digit);
    if d == a || !char_is_exec(s, d, ')') {
        return None;
    }
    let mut caps: Vec<Vec<char>> = Vec::new();
    caps.push(sub_chars(s, a, d));
    assert(caps_view(caps@) =~= seq![s@.subrange(a as int, d as int)]);
    Some((d + 1, caps))
}

fn token_at_exec(s: &Vec<char>, i: usize) -> (r: Option<(usize, Vec<Vec<char>>)>)
    requires
        i <= s.len(),
    ensures
        match token_at(s@, i as int) {
            Some(m) => r matches Some(x) && x.0 as int == m.0 && caps_view(x.1@) == m.1,
            None => r is None,
        },
{
    let lit = lit_addtoken_exec();
    if !occurs_at_exec(s, &lit, i) {
        return None;
    }
    let a = i + 9;
    let d1 = run_end_exec(s, a, CharClass::Digit);
    if d1 == a || !char_is_exec(s, d1, ',') {
        return None;
    }
    let w = run_end_exec(s, d1 + 1, CharClass::Space);
    if !char_is_exec(s, w, '"') {
        return None;
    }
    let d2 = run_end_exec(s, w + 1, CharClass::Digit);
    if d2 == w + 1 || !char_is_exec(s, d2, '"') || !char_is_exec(s, d2 + 1, ')') {
        return None;
    }
    let mut caps: Vec<Vec<char>> = Vec::new();
    caps.push(sub_chars(s, a, d1));
    caps.push(sub_chars(s, w + 1, d2));
    assert(caps_view(caps@) =~= seq![
        s@.subrange(a as int, d1 as int),
        s@.subrange(w + 1, d2 as int),
    ]);
    Some((d2 + 2, caps))
}

fn manifest_at_exec(s: &Vec<char>, i: usize) -> (r: Option<(usize, Vec<Vec<char>>)>)
    requires
        i <= s.len(),
    ensures
        match manifest_at(s@, i as int) {
            Some(m) => r matches Some(x) && x.0 as int == m.0 && caps_view(x.1@) == m.1,
            None => r is None,
        },
{
    let lit = lit_set_manifest_exec();
    if !occurs_at_exec(s, &lit, i) {
        return None;
    }
    let a = i + 14;
    let d1 = run_end_exec(s, a, CharClass::Digit);
    if d1 == a || !char_is_exec(s, d1, ',') {
        return None;
    }
    let w = run_end_exec(s, d1 + 1, CharClass::Space);
    if !char_is_exec(s, w, '"') {
        return None;
    }
    let d2 = run_end_exec(s, w + 1, CharClass::Digit);
    if d2 == w + 1 || !char_is_exec(s, d2, '"') {
        return None;
    }
    let mut caps: Vec<Vec<char>> = Vec::new();
    caps.push(sub_chars(s, a, d1));
    caps.push(sub_chars(s, w + 1, d2));
    assert(caps_view(caps@) =~= seq![
        s@.subrange(a as int, d1 as int),
        s@.subrange(w + 1, d2 as int),
    ]);
    Some((d2 + 1, caps))
}

fn match_at_exec(pat: Pattern, s: &Vec<char>, i: usize) -> (r: Option<(usize, Vec<Vec<char>>)>)
    requires
        i <= s.len(),
    ensures
        match match_at(pat, s@, i as int) {
            Some(m) => r matches Some(x) && x.0 as int == m.0 && caps_view(x.1@) == m.1,
            None => r is None,
        },
{
    match pat {
        Pattern::Depot => depot_at_exec(s, i),
        Pattern::Dlc => dlc_at_exec(s, i),
        Pattern::Token => token_at_exec(s, i),
        Pattern::Manifest => manifest_at_exec(s, i),
    }
}

/// The captures of every match of `pat` in `s`, in order.
pub fn find_all(pat: Pattern, s: &Vec<char>) -> (r: Vec<Vec<Vec<char>>>)
    ensures
        all_caps_view(r@) == all_matches(pat, s@),
        forall|k: int| 0 <= k < r@.len() ==> #[trigger] r@[k]@.len() == cap_count(pat),
{
    proof {
        lemma_match_shape(pat, s@, 0);
    }
    let mut out: Vec<Vec<Vec<char>>> = Vec::new();
    let mut i: usize = 0;
    assert(all_caps_view(out@) + matches_from(pat, s@, 0) =~= matches_from(pat, s@, 0));
    while i < s.len()
        invariant
            i <= s.len(),
            all_caps_view(out@) + matches_from(pat, s@, i as int) == matches_from(pat, s@, 0),
        decreases s.len() - i,
    {
        let ghost before = all_caps_view(out@);
        match match_at_exec(pat, s, i) {
            Some((e, caps)) => {
                if i < e && e <= s.len() {
                    let ghost c = caps_view(caps@);
                    out.push(caps);
                    assert(all_caps_view(out@) =~= before.push(c));
                    assert(before.push(c) + matches_from(pat, s@, e as int) =~= before + (seq![c]
                        + matches_from(pat, s@, e as int)));
                    i = e;
                } else {
                    i = i + 1;
                }
            },
            None => {
                i = i + 1;
            },
        }
    }
    assert(all_caps_view(out@) + matches_from(pat, s@, i as int) =~= all_caps_view(out@));
    assert forall|k: int| 0 <= k < out@.len() implies #[trigger] out@[k]@.len() == cap_count(pat) by {
        assert(all_caps_view(out@)[k] == caps_view(out@[k]@));
    }
    out
}

} // verus!
