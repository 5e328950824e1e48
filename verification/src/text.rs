//! Character-level utilities over `&str`: locating a separator, splitting on
//! it, trimming leading whitespace, and prefix/suffix tests. Every executable
//! function is specified against a recursive spec over the string's view.

use vstd::prelude::*;

verus! {

/// A whitespace character, in the sense of Unicode's White_Space property,
/// which is what leading-whitespace trimming skips.
pub open spec fn is_space(c: char) -> bool {
    c == ' ' || c == '\t' || c == '\n' || c == '\r'
        || c as u32 == 0x0b || c as u32 == 0x0c || c as u32 == 0x85 || c as u32 == 0xa0
        || c as u32 == 0x1680 || (0x2000 <= c as u32 && c as u32 <= 0x200a)
        || c as u32 == 0x2028 || c as u32 == 0x2029 || c as u32 == 0x202f
        || c as u32 == 0x205f || c as u32 == 0x3000
}

/// Runtime test for `is_space`.
pub fn is_space_char(c: char) -> (r: bool)
    ensures
        r == is_space(c),
{
    let v = c as u32;
    c == ' ' || c == '\t' || c == '\n' || c == '\r'
        || v == 0x0b || v == 0x0c || v == 0x85 || v == 0xa0
        || v == 0x1680 || (0x2000 <= v && v <= 0x200a)
        || v == 0x2028 || v == 0x2029 || v == 0x202f
        || v == 0x205f || v == 0x3000
}

/// Index of the first occurrence of `c` in `s`, if any.
pub open spec fn find_char(s: Seq<char>, c: char) -> Option<int>
    decreases s.len(),
{
    if s.len() == 0 {
        None
    } else if s[0] == c {
        Some(0int)
    } else {
        match find_char(s.drop_first(), c) {
            None => None,
            Some(i) => Some(i + 1),
        }
    }
}

/// `find_char` returns the least index holding `c`, or `None` when `c` is absent.
pub proof fn lemma_find_char(s: Seq<char>, c: char)
    ensures
        match find_char(s, c) {
            Some(i) => 0 <= i < s.len() && s[i] == c && (forall|j: int| 0 <= j < i ==> s[j] != c),
            None => forall|j: int| 0 <= j < s.len() ==> s[j] != c,
        },
    decreases s.len(),
{
    if s.len() > 0 && s[0] != c {
        lemma_find_char(s.drop_first(), c);
        match find_char(s.drop_first(), c) {
            None => {
                assert forall|j: int| 0 <= j < s.len() implies s[j] != c by {
                    if j > 0 {
                        assert(s.drop_first()[j - 1] != c);
                    }
                }
            },
            Some(i) => {
                assert(s[i + 1] == s.drop_first()[i]);
                assert forall|j: int| 0 <= j < i + 1 implies s[j] != c by {
                    if j > 0 {
                        assert(s.drop_first()[j - 1] != c);
                    }
                }
            },
        }
    }
}

/// The pieces of `s` between occurrences of `sep`: splitting on `sep` yields
/// one piece more than there are separators, so the result is never empty.
pub open spec fn split_char(s: Seq<char>, sep: char) -> Seq<Seq<char>>
    decreases s.len(),
    via split_char_decreases
{
    match find_char(s, sep) {
        None => seq![s],
        Some(i) => seq![s.take(i)] + split_char(s.skip(i + 1), sep),
    }
}

#[via_fn]
proof fn split_char_decreases(s: Seq<char>, sep: char) {
    lemma_find_char(s, sep);
}

/// The views of a sequence of strings.
pub open spec fn seq_views(v: Seq<String>) -> Seq<Seq<char>> {
    v.map_values(|s: String| s@)
}

/// Splits `s` at every occurrence of `sep`, keeping empty pieces.
pub fn split_str(s: &str, sep: char) -> (parts: Vec<String>)
    ensures
        seq_views(parts@) == split_char(s@, sep),
        parts@.len() >= 1,
    decreases s@.len(),
{
    let n = s.unicode_len();
    let mut i: usize = 0;
    while i < n && s.get_char(i) != sep
        invariant
            i <= n == s@.len(),
            forall|j: int| 0 <= j < i ==> s@[j] != sep,
        decreases n - i,
    {
        i = i + 1;
    }
    proof {
        lemma_find_char(s@, sep);
    }
    if i == n {
        assert(find_char(s@, sep) is None);
        let mut parts: Vec<String> = Vec::new();
        parts.push(s.to_owned());
        assert(seq_views(parts@) =~= split_char(s@, sep));
        parts
    } else {
        assert(find_char(s@, sep) == Some(i as int));
        let head = s.substring_char(0, i);
        let tail = s.substring_char(i + 1, n);
        let mut parts = split_str(tail, sep);
        parts.insert(0, head.to_owned());
        assert(seq_views(parts@) =~= seq![s@.take(i as int)] + split_char(s@.skip(i as int + 1), sep));
        parts
    }
}

/// `s` with its leading whitespace removed.
pub open spec fn trim_start(s: Seq<char>) -> Seq<char>
    decreases s.len(),
{
    if s.len() > 0 && is_space(s[0]) {
        trim_start(s.drop_first())
    } else {
        s
    }
}

/// Trimming removes exactly the chars before the first non-space position.
proof fn lemma_trim_start_at(s: Seq<char>, t: int)
    requires
        0 <= t <= s.len(),
        forall|j: int| 0 <= j < t ==> is_space(s[j]),
        t == s.len() || !is_space(s[t]),
    ensures
        trim_start(s) == s.skip(t),
    decreases t,
{
    if t == 0 {
        assert(s.skip(0) =~= s);
    } else {
        let d = s.drop_first();
        assert forall|j: int| 0 <= j < t - 1 implies is_space(d[j]) by {
            assert(d[j] == s[j + 1]);
        }
        lemma_trim_start_at(d, t - 1);
        assert(d.skip(t - 1) =~= s.skip(t));
    }
}

/// Index of the first non-whitespace character of `s` (its length when all
/// of `s` is whitespace); everything before it is what trimming removes.
pub fn first_non_space(s: &str) -> (t: usize)
    ensures
        t <= s@.len(),
        trim_start(s@) == s@.skip(t as int),
        forall|j: int| 0 <= j < t ==> is_space(s@[j]),
        t < s@.len() ==> !is_space(s@[t as int]),
{
    let n = s.unicode_len();
    let mut t: usize = 0;
    while t < n && is_space_char(s.get_char(t))
        invariant
            t <= n == s@.len(),
            forall|j: int| 0 <= j < t ==> is_space(s@[j]),
        decreases n - t,
    {
        t = t + 1;
    }
    proof {
        lemma_trim_start_at(s@, t as int);
    }
    t
}

/// Whether `p`'s view is a prefix of `s`'s view.
pub fn str_starts_with(s: &str, p: &str) -> (r: bool)
    ensures
        r == p@.is_prefix_of(s@),
{
    let n = s.unicode_len();
    let m = p.unicode_len();
    if m > n {
        return false;
    }
    let mut j: usize = 0;
    while j < m
        invariant
            j <= m == p@.len(),
            m <= n == s@.len(),
            forall|k: int| 0 <= k < j ==> s@[k] == p@[k],
        decreases m - j,
    {
        if s.get_char(j) != p.get_char(j) {
            assert(!(p@ =~= s@.subrange(0, m as int))) by {
                assert(s@.subrange(0, m as int)[j as int] == s@[j as int]);
            }
            return false;
        }
        j = j + 1;
    }
    assert(p@ =~= s@.subrange(0, m as int));
    true
}

/// Whether `p`'s view is a suffix of `s`'s view.
pub fn str_ends_with(s: &str, p: &str) -> (r: bool)
    ensures
        r == p@.is_suffix_of(s@),
{
    let n = s.unicode_len();
    let m = p.unicode_len();
    if m > n {
        return false;
    }
    let off = n - m;
    let mut j: usize = 0;
    while j < m
        invariant
            j <= m == p@.len(),
            m <= n == s@.len(),
            off == n - m,
            forall|k: int| 0 <= k < j ==> s@[off + k] == p@[k],
        decreases m - j,
    {
        if s.get_char(off + j) != p.get_char(j) {
            assert(!(p@ =~= s@.subrange(off as int, n as int))) by {
                assert(s@.subrange(off as int, n as int)[j as int] == s@[off + j]);
            }
            return false;
        }
        j = j + 1;
    }
    assert(p@ =~= s@.subrange(off as int, n as int));
    true
}

} // verus!
