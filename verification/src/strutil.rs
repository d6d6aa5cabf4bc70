//! Character-level string utilities shared by the manifest parsers and the
//! path handling of the resolution engine.

use vstd::prelude::*;

verus! {

/// True of the ASCII letters: the only characters a pinned requirement line
/// may start with.
pub open spec fn spec_is_ascii_alpha(c: char) -> bool {
    (97 <= c as u32 && c as u32 <= 122) || (65 <= c as u32 && c as u32 <= 90)
}

pub fn is_ascii_alpha(c: char) -> (r: bool)
    ensures
        r == spec_is_ascii_alpha(c),
{
    let u = c as u32;
    (97 <= u && u <= 122) || (65 <= u && u <= 90)
}

/// Character-by-character string equality.
pub fn str_eq(a: &str, b: &str) -> (r: bool)
    ensures
        r == (a@ == b@),
{
    let alen = a.unicode_len();
    let blen = b.unicode_len();
    if alen != blen {
        return false;
    }
    let mut i: usize = 0;
    while i < alen
        invariant
            alen == a@.len(),
            blen == b@.len(),
            alen == blen,
            i <= alen,
            forall|j: int| 0 <= j < i ==> a@[j] == b@[j],
        decreases alen - i,
    {
        if a.get_char(i) != b.get_char(i) {
            return false;
        }
        i += 1;
    }
    proof {
        assert(a@ =~= b@);
    }
    true
}

pub open spec fn spec_ends_with(s: Seq<char>, suffix: Seq<char>) -> bool {
    s.len() >= suffix.len() && s.subrange(s.len() - suffix.len(), s.len() as int) == suffix
}

pub fn ends_with_str(s: &str, suffix: &str) -> (r: bool)
    ensures
        r == spec_ends_with(s@, suffix@),
{
    let n = s.unicode_len();
    let m = suffix.unicode_len();
    if m > n {
        return false;
    }
    let mut i: usize = 0;
    while i < m
        invariant
            n == s@.len(),
            m == suffix@.len(),
            m <= n,
            i <= m,
            forall|j: int| 0 <= j < i ==> s@[n - m + j] == suffix@[j],
        decreases m - i,
    {
        if s.get_char(n - m + i) != suffix.get_char(i) {
            proof {
                assert(s@.subrange(n as int - m as int, n as int)[i as int] != suffix@[i as int]);
            }
            return false;
        }
        i += 1;
    }
    proof {
        assert(s@.subrange(n as int - m as int, n as int) =~= suffix@);
    }
    true
}

/// The smallest index at or after `from` where character `c` stands, if any.
pub open spec fn spec_find_char(s: Seq<char>, c: char, from: int) -> Option<int>
    decreases s.len() - from,
{
    if from < 0 || from >= s.len() {
        None
    } else if s[from] == c {
        Some(from)
    } else {
        spec_find_char(s, c, from + 1)
    }
}

pub fn find_char(s: &str, c: char, from: usize) -> (r: Option<usize>)
    ensures
        match r {
            Some(i) => from <= i < s@.len() && s@[i as int] == c && spec_find_char(
                s@,
                c,
                from as int,
            ) == Some(i as int),
            None => spec_find_char(s@, c, from as int) is None,
        },
{
    let n = s.unicode_len();
    let mut i: usize = from;
    while i < n
        invariant
            n == s@.len(),
            from <= i,
            spec_find_char(s@, c, from as int) == spec_find_char(s@, c, i as int),
        decreases n - i,
    {
        if s.get_char(i) == c {
            return Some(i);
        }
        i += 1;
    }
    None
}

/// The smallest index at or after `from` where the two-character marker `==`
/// begins, if any.
pub open spec fn has_eqeq_at(s: Seq<char>, i: int) -> bool {
    0 <= i && i + 2 <= s.len() && s[i] == '=' && s[i + 1] == '='
}

pub open spec fn spec_find_eqeq(s: Seq<char>, from: int) -> Option<int>
    decreases s.len() - from,
{
    if from < 0 || from + 2 > s.len() {
        None
    } else if has_eqeq_at(s, from) {
        Some(from)
    } else {
        spec_find_eqeq(s, from + 1)
    }
}

pub fn find_eqeq(s: &str, from: usize) -> (r: Option<usize>)
    ensures
        match r {
            Some(i) => from <= i && has_eqeq_at(s@, i as int) && spec_find_eqeq(s@, from as int)
                == Some(i as int),
            None => spec_find_eqeq(s@, from as int) is None,
        },
{
    let n = s.unicode_len();
    let mut i: usize = from;
    while n >= 2 && i <= n - 2
        invariant
            n == s@.len(),
            from <= i,
            spec_find_eqeq(s@, from as int) == spec_find_eqeq(s@, i as int),
        decreases n - i,
    {
        if s.get_char(i) == '=' && s.get_char(i + 1) == '=' {
            return Some(i);
        }
        i += 1;
    }
    None
}

/// A final carriage return is dropped from a line that a newline terminated,
/// as the usual line splitting of text does.
pub open spec fn strip_trailing_cr(seg: Seq<char>) -> Seq<char> {
    if seg.len() > 0 && seg[seg.len() - 1] == '\r' {
        seg.drop_last()
    } else {
        seg
    }
}

/// Where `spec_find_char` answers, the index lies between `from` and the end.
pub proof fn lemma_find_char_bounds(s: Seq<char>, c: char, from: int)
    requires
        spec_find_char(s, c, from) is Some,
    ensures
        from <= spec_find_char(s, c, from)->Some_0 < s.len(),
    decreases s.len() - from,
{
    if !(from < 0 || from >= s.len()) && s[from] != c {
        lemma_find_char_bounds(s, c, from + 1);
    }
}

/// The lines of `s` from index `start` on: segments split at `'\n'`, a
/// carriage return before the newline dropped, and no empty final segment
/// after a terminating newline.
pub open spec fn spec_lines_from(s: Seq<char>, start: int) -> Seq<Seq<char>>
    decreases s.len() - start,
    via spec_lines_from_decreases
{
    if start < 0 || start >= s.len() {
        Seq::empty()
    } else {
        match spec_find_char(s, '\n', start) {
            Some(i) => seq![strip_trailing_cr(s.subrange(start, i))] + spec_lines_from(s, i + 1),
            None => seq![s.subrange(start, s.len() as int)],
        }
    }
}

#[via_fn]
proof fn spec_lines_from_decreases(s: Seq<char>, start: int) {
    if !(start < 0 || start >= s.len()) {
        if spec_find_char(s, '\n', start) is Some {
            lemma_find_char_bounds(s, '\n', start);
        }
    }
}

pub open spec fn spec_lines(s: Seq<char>) -> Seq<Seq<char>> {
    spec_lines_from(s, 0)
}

/// Splits text into lines as `spec_lines` describes.
pub fn split_lines(s: &str) -> (r: Vec<String>)
    ensures
        r.deep_view() == spec_lines(s@),
{
    let n = s.unicode_len();
    let mut r: Vec<String> = Vec::new();
    let mut start: usize = 0;
    while start < n
        invariant
            n == s@.len(),
            start <= n,
            r.deep_view() + spec_lines_from(s@, start as int) == spec_lines(s@),
        decreases n - start,
    {
        match find_char(s, '\n', start) {
            Some(i) => {
                let end: usize = if i > start && s.get_char(i - 1) == '\r' {
                    i - 1
                } else {
                    i
                };
                let line = s.substring_char(start, end).to_owned();
                proof {
                    assert(line@ =~= strip_trailing_cr(s@.subrange(start as int, i as int)));
                }
                r.push(line);
                proof {
                    assert(r.deep_view() + spec_lines_from(s@, i + 1) =~= spec_lines(s@));
                }
                start = i + 1;
            },
            None => {
                let line = s.substring_char(start, n).to_owned();
                r.push(line);
                proof {
                    assert(r.deep_view() =~= spec_lines(s@));
                }
                return r;
            },
        }
    }
    proof {
        assert(r.deep_view() =~= spec_lines(s@));
    }
    r
}

} // verus!
