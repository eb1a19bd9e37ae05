//! Verified character-level string helpers used by the dispatch and
//! upload layers: equality, prefix tests, trimming, case-insensitive
//! comparison, blank detection and suffix extraction.
use vstd::prelude::*;
use vstd::string::StrSliceExecFns;
use vstd::string::StringExecFns;

verus! {

/// Lower-cases one ASCII character, in specs.
pub open spec fn spec_lower(c: char) -> char {
    if 'A' <= c && c <= 'Z' {
        ((c as u8) + 32) as char
    } else {
        c
    }
}

/// Two character sequences are equal up to ASCII case.
pub open spec fn eq_ignore_case(a: Seq<char>, b: Seq<char>) -> bool {
    a.len() == b.len() && forall|i: int|
        0 <= i < a.len() ==> spec_lower(a[i]) == spec_lower(#[trigger] b[i])
}

/// A character sequence is blank when every character is ASCII whitespace.
pub open spec fn is_blank(s: Seq<char>) -> bool {
    forall|i: int| 0 <= i < s.len() ==> is_space(#[trigger] s[i])
}

/// ASCII whitespace, as `str::trim` treats the ASCII range.
pub open spec fn is_space(c: char) -> bool {
    c == ' ' || c == '\t' || c == '\n' || c == '\r'
}

/// String equality by characters.
pub fn str_eq(a: &str, b: &str) -> (r: bool)
    ensures
        r == (a@ == b@),
{
    let alen = a.unicode_len();
    let blen = b.unicode_len();
    if alen != blen {
        assert(a@ != b@) by {
            assert(a@.len() != b@.len());
        }
        return false;
    }
    let mut i: usize = 0;
    while i < alen
        invariant
            alen == a@.len(),
            alen == b@.len(),
            i <= alen,
            forall|j: int| 0 <= j < i ==> a@[j] == b@[j],
        decreases alen - i,
    {
        if a.get_char(i) != b.get_char(i) {
            return false;
        }
        i = i + 1;
    }
    proof {
        assert(a@ =~= b@);
    }
    true
}

/// Case-insensitive comparison of two individual characters,
/// folding only ASCII letters.
fn char_ieq(a: char, b: char) -> (r: bool)
    ensures
        r == (spec_lower(a) == spec_lower(b)),
{
    let x = a as u32;
    let y = b as u32;
    let xl = if 65 <= x && x <= 90 {
        x + 32
    } else {
        x
    };
    let yl = if 65 <= y && y <= 90 {
        y + 32
    } else {
        y
    };
    xl == yl
}

/// String equality up to ASCII case.
pub fn str_eq_ignore_case(a: &str, b: &str) -> (r: bool)
    ensures
        r == eq_ignore_case(a@, b@),
{
    let alen = a.unicode_len();
    let blen = b.unicode_len();
    if alen != blen {
        return false;
    }
    let mut i: usize = 0;
    while i < alen
        invariant
            alen == a@.len(),
            alen == b@.len(),
            i <= alen,
            forall|j: int| 0 <= j < i ==> spec_lower(a@[j]) == spec_lower(#[trigger] b@[j]),
        decreases alen - i,
    {
        if !char_ieq(a.get_char(i), b.get_char(i)) {
            return false;
        }
        i = i + 1;
    }
    true
}

/// Whether `s` starts with `prefix`, by characters.
pub fn starts_with(s: &str, prefix: &str) -> (r: bool)
    ensures
        r == (s@.len() >= prefix@.len() && s@.subrange(0, prefix@.len() as int) == prefix@),
{
    let slen = s.unicode_len();
    let plen = prefix.unicode_len();
    if slen < plen {
        return false;
    }
    let mut i: usize = 0;
    while i < plen
        invariant
            slen == s@.len(),
            plen == prefix@.len(),
            plen <= slen,
            i <= plen,
            forall|j: int| 0 <= j < i ==> s@[j] == prefix@[j],
        decreases plen - i,
    {
        if s.get_char(i) != prefix.get_char(i) {
            assert(s@.subrange(0, plen as int)[i as int] != prefix@[i as int]);
            return false;
        }
        i = i + 1;
    }
    proof {
        assert(s@.subrange(0, plen as int) =~= prefix@);
    }
    true
}

/// Whether every character of `s` is ASCII whitespace.
pub fn all_blank(s: &str) -> (r: bool)
    ensures
        r == is_blank(s@),
{
    let slen = s.unicode_len();
    let mut i: usize = 0;
    while i < slen
        invariant
            slen == s@.len(),
            i <= slen,
            forall|j: int| 0 <= j < i ==> is_space(#[trigger] s@[j]),
        decreases slen - i,
    {
        let c = s.get_char(i);
        if !(c == ' ' || c == '\t' || c == '\n' || c == '\r') {
            return false;
        }
        i = i + 1;
    }
    true
}

/// Number of leading characters of `s` equal to `c`.
pub open spec fn leading_count(s: Seq<char>, c: char) -> int
    decreases s.len(),
{
    if s.len() == 0 || s[0] != c {
        0
    } else {
        1 + leading_count(s.skip(1), c)
    }
}

/// Number of trailing characters of `s` equal to `c`.
pub open spec fn trailing_count(s: Seq<char>, c: char) -> int
    decreases s.len(),
{
    if s.len() == 0 || s[s.len() - 1] != c {
        0
    } else {
        1 + trailing_count(s.take(s.len() - 1), c)
    }
}

/// `s` with every leading and trailing occurrence of `c` removed.
pub open spec fn spec_trim_char(s: Seq<char>, c: char) -> Seq<char> {
    if leading_count(s, c) == s.len() {
        Seq::empty()
    } else {
        s.subrange(leading_count(s, c), s.len() - trailing_count(s, c))
    }
}

proof fn lemma_leading_count_bounds(s: Seq<char>, c: char)
    ensures
        0 <= leading_count(s, c) <= s.len(),
        forall|j: int| 0 <= j < leading_count(s, c) ==> s[j] == c,
        leading_count(s, c) < s.len() ==> s[leading_count(s, c)] != c,
    decreases s.len(),
{
    if s.len() > 0 && s[0] == c {
        lemma_leading_count_bounds(s.skip(1), c);
        assert forall|j: int| 0 <= j < leading_count(s, c) implies s[j] == c by {
            if j > 0 {
                assert(s.skip(1)[j - 1] == c);
            }
        }
    }
}

proof fn lemma_trailing_count_bounds(s: Seq<char>, c: char)
    ensures
        0 <= trailing_count(s, c) <= s.len(),
        forall|j: int| s.len() - trailing_count(s, c) <= j < s.len() ==> s[j] == c,
        trailing_count(s, c) < s.len() ==> s[s.len() - trailing_count(s, c) - 1] != c,
    decreases s.len(),
{
    if s.len() > 0 && s[s.len() - 1] == c {
        let t = s.take(s.len() - 1);
        lemma_trailing_count_bounds(t, c);
        assert forall|j: int| s.len() - trailing_count(s, c) <= j < s.len() implies s[j] == c by {
            if j < s.len() - 1 {
                assert(t[j] == c);
            }
        }
        if trailing_count(s, c) < s.len() {
            assert(s[s.len() - trailing_count(s, c) - 1] == t[t.len() - trailing_count(t, c) - 1]);
        }
    }
}

/// Counts how many leading characters of `s` equal `c`, executably.
fn count_leading(s: &str, c: char) -> (r: usize)
    ensures
        r == leading_count(s@, c),
{
    proof {
        lemma_leading_count_bounds(s@, c);
    }
    let slen = s.unicode_len();
    let mut i: usize = 0;
    while i < slen
        invariant
            slen == s@.len(),
            i <= slen,
            forall|j: int| 0 <= j < i ==> s@[j] == c,
            i <= leading_count(s@, c),
        decreases slen - i,
    {
        if s.get_char(i) != c {
            proof {
                lemma_leading_count_bounds(s@, c);
                if leading_count(s@, c) > i {
                    assert(s@[i as int] == c);
                }
            }
            return i;
        }
        i = i + 1;
        proof {
            lemma_leading_count_bounds(s@, c);
            if leading_count(s@, c) < i {
                assert(s@[leading_count(s@, c)] == c);
            }
        }
    }
    proof {
        lemma_leading_count_bounds(s@, c);
    }
    i
}

/// Counts how many trailing characters of `s` equal `c`, executably.
fn count_trailing(s: &str, c: char) -> (r: usize)
    ensures
        r == trailing_count(s@, c),
{
    proof {
        lemma_trailing_count_bounds(s@, c);
    }
    let slen = s.unicode_len();
    let mut i: usize = 0;
    while i < slen
        invariant
            slen == s@.len(),
            i <= slen,
            forall|j: int| s@.len() - i <= j < s@.len() ==> s@[j] == c,
            i <= trailing_count(s@, c),
        decreases slen - i,
    {
        if s.get_char(slen - 1 - i) != c {
            proof {
                lemma_trailing_count_bounds(s@, c);
                if trailing_count(s@, c) > i {
                    assert(s@[s@.len() - 1 - i] == c);
                }
            }
            return i;
        }
        i = i + 1;
        proof {
            lemma_trailing_count_bounds(s@, c);
            if trailing_count(s@, c) < i {
                assert(s@[s@.len() - trailing_count(s@, c) - 1] == c);
            }
        }
    }
    proof {
        lemma_trailing_count_bounds(s@, c);
    }
    i
}

/// `s` with all leading and trailing occurrences of `c` removed,
/// as `str::trim_matches` does for a single pattern character.
pub fn trim_char(s: &str, c: char) -> (r: String)
    ensures
        r@ == spec_trim_char(s@, c),
{
    proof {
        lemma_leading_count_bounds(s@, c);
        lemma_trailing_count_bounds(s@, c);
    }
    let slen = s.unicode_len();
    let lead = count_leading(s, c);
    if lead == slen {
        let r = String::new();
        assert(r@ =~= spec_trim_char(s@, c));
        return r;
    }
    let trail = count_trailing(s, c);
    proof {
        if trail > slen - lead {
            assert(s@[lead as int] == c);
        }
    }
    let sub = s.substring_char(lead, slen - trail);
    let r = String::from_str(sub);
    assert(r@ =~= spec_trim_char(s@, c));
    r
}

/// `s` with every leading occurrence of `c` removed.
pub fn trim_start_char(s: &str, c: char) -> (r: String)
    ensures
        r@ == s@.skip(leading_count(s@, c)),
{
    proof {
        lemma_leading_count_bounds(s@, c);
    }
    let slen = s.unicode_len();
    let lead = count_leading(s, c);
    let sub = s.substring_char(lead, slen);
    let r = String::from_str(sub);
    assert(r@ =~= s@.skip(leading_count(s@, c)));
    r
}

/// `s` with every trailing occurrence of `c` removed.
pub fn trim_end_char(s: &str, c: char) -> (r: String)
    ensures
        r@ == s@.take(s@.len() - trailing_count(s@, c)),
{
    proof {
        lemma_trailing_count_bounds(s@, c);
    }
    let slen = s.unicode_len();
    let trail = count_trailing(s, c);
    let sub = s.substring_char(0, slen - trail);
    let r = String::from_str(sub);
    assert(r@ =~= s@.take(s@.len() - trailing_count(s@, c)));
    r
}

/// The text after the last `sep` in `s`, or `None` when `sep` does not occur.
pub open spec fn spec_after_last(s: Seq<char>, sep: char) -> Option<Seq<char>> {
    if exists|i: int| 0 <= i < s.len() && s[i] == sep {
        let i = last_index_of(s, sep);
        Some(s.subrange(i + 1, s.len() as int))
    } else {
        None
    }
}

/// Index of the last occurrence of `sep` in `s` (meaningful only when present).
pub open spec fn last_index_of(s: Seq<char>, sep: char) -> int
    decreases s.len(),
{
    if s.len() == 0 {
        -1
    } else if s[s.len() - 1] == sep {
        s.len() - 1
    } else {
        last_index_of(s.take(s.len() - 1), sep)
    }
}

proof fn lemma_last_index_of(s: Seq<char>, sep: char)
    ensures
        (exists|i: int| 0 <= i < s.len() && s[i] == sep) ==> {
            let li = last_index_of(s, sep);
            &&& 0 <= li < s.len()
            &&& s[li] == sep
            &&& forall|j: int| li < j < s.len() ==> s[j] != sep
        },
        !(exists|i: int| 0 <= i < s.len() && s[i] == sep) ==> last_index_of(s, sep) == -1,
    decreases s.len(),
{
    if s.len() > 0 && s[s.len() - 1] != sep {
        let t = s.take(s.len() - 1);
        lemma_last_index_of(t, sep);
        if exists|i: int| 0 <= i < s.len() && s[i] == sep {
            let w = choose|i: int| 0 <= i < s.len() && s[i] == sep;
            assert(w < s.len() - 1);
            assert(t[w] == sep);
            let li = last_index_of(t, sep);
            assert(last_index_of(s, sep) == li);
            assert forall|j: int| li < j < s.len() implies s[j] != sep by {
                if j < s.len() - 1 {
                    assert(t[j] != sep);
                }
            }
        }
    }
}

/// The text after the last occurrence of `sep`, or the whole string
/// when `sep` does not occur; the trailing-segment reduction used on
/// URN-shaped asset handles.
pub fn after_last(s: &str, sep: char) -> (r: String)
    ensures
        spec_after_last(s@, sep) is Some ==> r@ == spec_after_last(s@, sep)->0,
        spec_after_last(s@, sep) is None ==> r@ == s@,
{
    proof {
        lemma_last_index_of(s@, sep);
    }
    let slen = s.unicode_len();
    let mut i: usize = slen;
    while i > 0
        invariant
            slen == s@.len(),
            i <= slen,
            forall|j: int| i <= j < slen ==> s@[j] != sep,
        decreases i,
    {
        if s.get_char(i - 1) == sep {
            let sub = s.substring_char(i, slen);
            let r = String::from_str(sub);
            proof {
                lemma_last_index_of(s@, sep);
                assert(last_index_of(s@, sep) == i - 1);
            }
            return r;
        }
        i = i - 1;
    }
    String::from_str(s)
}

} // verus!
