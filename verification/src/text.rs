//! Verified text primitives: ASCII classification, lower-casing, trimming,
//! prefix and substring tests. Queries and map names are matched through
//! these, so their contracts pin down exactly which strings match.

use vstd::prelude::*;

verus! {

/// ASCII lower-case letter.
pub open spec fn is_lower_alpha(c: char) -> bool {
    'a' <= c && c <= 'z'
}

/// ASCII upper-case letter.
pub open spec fn is_upper_alpha(c: char) -> bool {
    'A' <= c && c <= 'Z'
}

/// ASCII decimal digit.
pub open spec fn is_digit(c: char) -> bool {
    '0' <= c && c <= '9'
}

/// ASCII letter or digit.
pub open spec fn is_alphanumeric(c: char) -> bool {
    is_lower_alpha(c) || is_upper_alpha(c) || is_digit(c)
}

/// Whitespace, the full set `str::trim` and `\s` recognize: the ASCII
/// blanks plus the Unicode space separators.
pub open spec fn is_space(c: char) -> bool {
    c == ' ' || c == '\t' || c == '\n' || c == '\r' || c == '\u{B}' || c == '\u{C}' || c
        == '\u{85}' || c == '\u{A0}' || c == '\u{1680}' || ('\u{2000}' <= c && c <= '\u{200A}')
        || c == '\u{2028}' || c == '\u{2029}' || c == '\u{202F}' || c == '\u{205F}' || c
        == '\u{3000}'
}

/// The ASCII lower-case image of a character; everything but `A`..`Z` is
/// left alone.
pub open spec fn lower_char(c: char) -> char {
    if is_upper_alpha(c) {
        ((c as u8) + 32) as char
    } else {
        c
    }
}

/// A string lower-cased character by character.
pub open spec fn lower_seq(s: Seq<char>) -> Seq<char> {
    s.map_values(|c: char| lower_char(c))
}

/// A string with leading and trailing ASCII whitespace removed.
pub open spec fn trim_seq(s: Seq<char>) -> Seq<char>
    decreases s.len(),
{
    if s.len() == 0 {
        s
    } else if is_space(s[0]) {
        trim_seq(s.drop_first())
    } else if is_space(s.last()) {
        trim_seq(s.drop_last())
    } else {
        s
    }
}

/// `needle` occurs contiguously in `hay` (every string contains the empty
/// string).
pub open spec fn contains_seq(hay: Seq<char>, needle: Seq<char>) -> bool {
    exists|i: int|
        0 <= i && i + needle.len() <= hay.len() && #[trigger] hay.subrange(i, i + needle.len())
            == needle
}

pub(crate) fn exec_is_space(c: char) -> (r: bool)
    ensures
        r == is_space(c),
{
    c == ' ' || c == '\t' || c == '\n' || c == '\r' || c == '\u{B}' || c == '\u{C}' || c
        == '\u{85}' || c == '\u{A0}' || c == '\u{1680}' || ('\u{2000}' <= c && c <= '\u{200A}')
        || c == '\u{2028}' || c == '\u{2029}' || c == '\u{202F}' || c == '\u{205F}' || c
        == '\u{3000}'
}

fn exec_lower_char(c: char) -> (r: char)
    ensures
        r == lower_char(c),
{
    if 'A' <= c && c <= 'Z' {
        ((c as u8) + 32) as char
    } else {
        c
    }
}

/// Relies on `String::push`: appends exactly the given character.
#[verifier::external_body]
pub(crate) fn push_char(s: &mut String, c: char)
    ensures
        final(s)@ == old(s)@ + seq![c],
{
    s.push(c);
}

/// The ASCII lower-case image of a whole string.
pub fn to_lowercase(s: &str) -> (r: String)
    ensures
        r@ == lower_seq(s@),
{
    let n: usize = s.unicode_len();
    let mut r: String = String::new();
    let mut i: usize = 0;
    while i < n
        invariant
            n == s@.len(),
            0 <= i <= n,
            r@ == lower_seq(s@.subrange(0, i as int)),
        decreases n - i,
    {
        let c = s.get_char(i);
        push_char(&mut r, exec_lower_char(c));
        proof {
            assert(s@.subrange(0, i + 1).drop_last() =~= s@.subrange(0, i as int));
            assert(lower_seq(s@.subrange(0, i + 1)) =~= lower_seq(s@.subrange(0, i as int))
                + seq![lower_char(s@[i as int])]);
        }
        i = i + 1;
    }
    proof {
        assert(s@.subrange(0, n as int) =~= s@);
    }
    r
}

/// Whether `p` is a prefix of `s`.
pub fn starts_with(s: &str, p: &str) -> (r: bool)
    ensures
        r == p@.is_prefix_of(s@),
{
    let sn: usize = s.unicode_len();
    let pn: usize = p.unicode_len();
    if pn > sn {
        return false;
    }
    let mut i: usize = 0;
    while i < pn
        invariant
            sn == s@.len(),
            pn == p@.len(),
            pn <= sn,
            0 <= i <= pn,
            forall|j: int| 0 <= j < i ==> s@[j] == p@[j],
        decreases pn - i,
    {
        if s.get_char(i) != p.get_char(i) {
            assert(!p@.is_prefix_of(s@)) by {
                assert(s@[i as int] != p@[i as int]);
            }
            return false;
        }
        i = i + 1;
    }
    proof {
        assert(p@ =~= s@.subrange(0, pn as int));
    }
    true
}

pub(crate) fn matches_at(s: &str, needle: &str, at: usize) -> (r: bool)
    requires
        at + needle@.len() <= s@.len(),
        s@.len() <= usize::MAX,
    ensures
        r == (s@.subrange(at as int, at + needle@.len()) == needle@),
{
    let n: usize = needle.unicode_len();
    let mut i: usize = 0;
    while i < n
        invariant
            n == needle@.len(),
            at + n <= s@.len(),
            s@.len() <= usize::MAX,
            0 <= i <= n,
            forall|j: int| 0 <= j < i ==> s@[at + j] == needle@[j],
        decreases n - i,
    {
        if s.get_char(at + i) != needle.get_char(i) {
            assert(s@.subrange(at as int, at + needle@.len()) != needle@) by {
                assert(s@.subrange(at as int, at + needle@.len())[i as int] != needle@[i as int]);
            }
            return false;
        }
        i = i + 1;
    }
    proof {
        assert(s@.subrange(at as int, at + needle@.len()) =~= needle@);
    }
    true
}

/// Whether `needle` occurs contiguously anywhere in `s`.
pub fn contains(s: &str, needle: &str) -> (r: bool)
    ensures
        r == contains_seq(s@, needle@),
{
    let sn: usize = s.unicode_len();
    let nn: usize = needle.unicode_len();
    if nn > sn {
        assert(!contains_seq(s@, needle@));
        return false;
    }
    let limit: usize = sn - nn;
    let mut i: usize = 0;
    loop
        invariant
            sn == s@.len(),
            nn == needle@.len(),
            nn <= sn,
            limit == sn - nn,
            0 <= i <= limit,
            forall|j: int|
                0 <= j < i ==> #[trigger] s@.subrange(j, j + needle@.len()) != needle@,
        decreases limit - i,
    {
        if matches_at(s, needle, i) {
            return true;
        }
        if i == limit {
            assert(forall|j: int|
                0 <= j && j + needle@.len() <= s@.len() ==> #[trigger] s@.subrange(
                    j,
                    j + needle@.len(),
                ) != needle@);
            return false;
        }
        i = i + 1;
    }
}

proof fn lemma_trim_bounds(s: Seq<char>, lo: int, hi: int)
    requires
        0 <= lo <= hi <= s.len(),
        forall|i: int| 0 <= i < lo ==> is_space(s[i]),
        forall|i: int| hi <= i < s.len() ==> is_space(s[i]),
        lo == hi || (!is_space(s[lo]) && !is_space(s[hi - 1])),
    ensures
        trim_seq(s) == s.subrange(lo, hi),
    decreases s.len(),
{
    if s.len() == 0 {
        assert(trim_seq(s) =~= s.subrange(lo, hi));
    } else if is_space(s[0]) {
        assert(lo > 0 || lo == hi) by {
            if lo == 0 && lo < hi {
                assert(!is_space(s[lo]));
            }
        }
        if lo == hi {
            // all-whitespace string: the trim is empty
            let t = s.drop_first();
            assert(forall|i: int| 0 <= i < t.len() ==> is_space(#[trigger] t[i]));
            lemma_trim_bounds(t, 0, 0);
            assert(trim_seq(s) == t.subrange(0, 0));
            assert(t.subrange(0, 0) =~= s.subrange(lo, hi));
        } else {
            let t = s.drop_first();
            lemma_trim_bounds(t, lo - 1, hi - 1);
            assert(t.subrange(lo - 1, hi - 1) =~= s.subrange(lo, hi));
        }
    } else if is_space(s.last()) {
        assert(hi < s.len() || lo == hi) by {
            if hi == s.len() && lo < hi {
                assert(!is_space(s[hi - 1]));
            }
        }
        if lo == hi {
            let t = s.drop_last();
            let m: int = if lo <= t.len() {
                lo
            } else {
                t.len() as int
            };
            lemma_trim_bounds(t, m, m);
            assert(trim_seq(s) == trim_seq(t));
            assert(trim_seq(t) =~= s.subrange(lo, hi));
        } else {
            let t = s.drop_last();
            lemma_trim_bounds(t, lo, hi);
            assert(t.subrange(lo, hi) =~= s.subrange(lo, hi));
        }
    } else {
        assert(lo == 0) by {
            if lo > 0 {
                assert(is_space(s[0]));
            }
        }
        assert(hi == s.len()) by {
            if hi < s.len() {
                assert(is_space(s.last()));
            }
        }
        assert(s.subrange(lo, hi) =~= s);
    }
}

/// A copy of `s` with leading and trailing ASCII whitespace removed.
pub fn trim(s: &str) -> (r: String)
    ensures
        r@ == trim_seq(s@),
{
    let n: usize = s.unicode_len();
    let mut lo: usize = 0;
    while lo < n && exec_is_space(s.get_char(lo))
        invariant
            n == s@.len(),
            0 <= lo <= n,
            forall|i: int| 0 <= i < lo ==> is_space(s@[i]),
        decreases n - lo,
    {
        lo = lo + 1;
    }
    let mut hi: usize = n;
    while hi > lo && exec_is_space(s.get_char(hi - 1))
        invariant
            n == s@.len(),
            lo <= hi <= n,
            forall|i: int| hi <= i < n ==> is_space(s@[i]),
            lo == n || !is_space(s@[lo as int]),
        decreases hi,
    {
        hi = hi - 1;
    }
    proof {
        if lo < n {
            lemma_trim_bounds(s@, lo as int, hi as int);
        } else {
            lemma_trim_bounds(s@, lo as int, hi as int);
        }
    }
    let mut r: String = String::new();
    let mut i: usize = lo;
    while i < hi
        invariant
            n == s@.len(),
            lo <= i <= hi <= n,
            r@ == s@.subrange(lo as int, i as int),
        decreases hi - i,
    {
        push_char(&mut r, s.get_char(i));
        proof {
            assert(s@.subrange(lo as int, i + 1) =~= s@.subrange(lo as int, i as int)
                + seq![s@[i as int]]);
        }
        i = i + 1;
    }
    r
}

/// The index of the last slash in a string, or -1 when it has none.
pub open spec fn rfind_slash(s: Seq<char>) -> int
    decreases s.len(),
{
    if s.len() == 0 {
        -1
    } else if s.last() == '/' {
        s.len() - 1
    } else {
        rfind_slash(s.drop_last())
    }
}

/// Finds the last slash in a string, if any.
pub fn exec_rfind_slash(s: &str) -> (r: Option<usize>)
    ensures
        r is Some <==> rfind_slash(s@) >= 0,
        r matches Some(i) ==> i == rfind_slash(s@),
{
    let n: usize = s.unicode_len();
    proof {
        assert(s@.subrange(0, n as int) =~= s@);
    }
    let mut i: usize = n;
    while i > 0
        invariant
            n == s@.len(),
            0 <= i <= n,
            rfind_slash(s@) == rfind_slash(s@.subrange(0, i as int)),
        decreases i,
    {
        proof {
            assert(s@.subrange(0, i as int).last() == s@[i - 1]);
            assert(s@.subrange(0, i as int).drop_last() =~= s@.subrange(0, i - 1));
        }
        if s.get_char(i - 1) == '/' {
            return Some(i - 1);
        }
        i = i - 1;
    }
    proof {
        assert(s@.subrange(0, 0) =~= Seq::<char>::empty());
    }
    None
}

/// Whether two string slices hold the same characters.
pub fn str_eq(a: &str, b: &str) -> (r: bool)
    ensures
        r == (a@ == b@),
{
    let an: usize = a.unicode_len();
    let bn: usize = b.unicode_len();
    if an != bn {
        return false;
    }
    let r = starts_with(a, b);
    proof {
        if b@.is_prefix_of(a@) {
            assert(a@ =~= b@);
        }
    }
    r
}

/// Whether two owned strings hold the same characters.
pub fn string_eq(a: &String, b: &String) -> (r: bool)
    ensures
        r == (a@ == b@),
{
    str_eq(a.as_str(), b.as_str())
}

} // verus!
