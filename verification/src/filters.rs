//! Case-insensitive filter matching.
//!
//! A subscriber's filter string excludes a launch when it occurs, ignoring
//! ASCII case, as a substring of the launch's vehicle, provider, or
//! mission-type field.

use vstd::prelude::*;

verus! {

/// ASCII lower-casing of one character; every other character is unchanged.
pub open spec fn lower_char(c: char) -> char {
    match c {
        'A' => 'a',
        'B' => 'b',
        'C' => 'c',
        'D' => 'd',
        'E' => 'e',
        'F' => 'f',
        'G' => 'g',
        'H' => 'h',
        'I' => 'i',
        'J' => 'j',
        'K' => 'k',
        'L' => 'l',
        'M' => 'm',
        'N' => 'n',
        'O' => 'o',
        'P' => 'p',
        'Q' => 'q',
        'R' => 'r',
        'S' => 's',
        'T' => 't',
        'U' => 'u',
        'V' => 'v',
        'W' => 'w',
        'X' => 'x',
        'Y' => 'y',
        'Z' => 'z',
        _ => c,
    }
}

/// ASCII lower-casing of a whole character sequence.
pub open spec fn lower(s: Seq<char>) -> Seq<char> {
    s.map_values(|c: char| lower_char(c))
}

/// `needle` occurs contiguously somewhere inside `hay`.
pub open spec fn is_substring(needle: Seq<char>, hay: Seq<char>) -> bool {
    exists|i: int|
        0 <= i && i + needle.len() <= hay.len() && #[trigger] hay.subrange(i, i + needle.len())
            == needle
}

/// `needle` occurs inside `hay` when both are compared ignoring ASCII case.
pub open spec fn contains_ci_spec(hay: Seq<char>, needle: Seq<char>) -> bool {
    is_substring(lower(needle), lower(hay))
}

/// Executable ASCII lower-casing of one character.
pub fn lower_char_exec(c: char) -> (r: char)
    ensures
        r == lower_char(c),
{
    match c {
        'A' => 'a',
        'B' => 'b',
        'C' => 'c',
        'D' => 'd',
        'E' => 'e',
        'F' => 'f',
        'G' => 'g',
        'H' => 'h',
        'I' => 'i',
        'J' => 'j',
        'K' => 'k',
        'L' => 'l',
        'M' => 'm',
        'N' => 'n',
        'O' => 'o',
        'P' => 'p',
        'Q' => 'q',
        'R' => 'r',
        'S' => 's',
        'T' => 't',
        'U' => 'u',
        'V' => 'v',
        'W' => 'w',
        'X' => 'x',
        'Y' => 'y',
        'Z' => 'z',
        _ => c,
    }
}

/// Whether `needle` matches `hay` at offset `at`, ignoring ASCII case.
fn matches_at(hay: &str, hay_len: usize, at: usize, needle: &str, needle_len: usize) -> (r: bool)
    requires
        hay_len == hay@.len(),
        needle_len == needle@.len(),
        at + needle_len <= hay_len,
    ensures
        r == (lower(hay@).subrange(at as int, at + needle@.len()) == lower(needle@)),
{
    let mut j: usize = 0;
    while j < needle_len
        invariant
            hay_len == hay@.len(),
            needle_len == needle@.len(),
            at + needle_len <= hay_len,
            0 <= j <= needle_len,
            forall|t: int| 0 <= t < j ==> lower_char(hay@[at + t]) == lower_char(needle@[t]),
        decreases needle_len - j,
    {
        let hc = lower_char_exec(hay.get_char(at + j));
        let nc = lower_char_exec(needle.get_char(j));
        if hc != nc {
            assert(lower(hay@).subrange(at as int, at + needle@.len())[j as int] == lower_char(
                hay@[at + j],
            ));
            assert(lower(needle@)[j as int] == lower_char(needle@[j as int]));
            return false;
        }
        j += 1;
    }
    assert(lower(hay@).subrange(at as int, at + needle@.len()) =~= lower(needle@)) by {
        assert(forall|t: int|
            0 <= t < needle@.len() ==> #[trigger] lower(hay@).subrange(
                at as int,
                at + needle@.len(),
            )[t] == lower_char(hay@[at + t]));
    }
    true
}

/// Case-insensitive substring test: does `needle` occur inside `hay`,
/// comparing ignoring ASCII case?
pub fn contains_ci(hay: &str, needle: &str) -> (r: bool)
    ensures
        r == contains_ci_spec(hay@, needle@),
{
    let hay_len = hay.unicode_len();
    let needle_len = needle.unicode_len();
    if needle_len > hay_len {
        assert(!is_substring(lower(needle@), lower(hay@)));
        return false;
    }
    if needle_len == 0 {
        assert(lower(hay@).subrange(0, 0 + lower(needle@).len() as int) =~= lower(needle@));
        return true;
    }
    let mut i: usize = 0;
    while i <= hay_len - needle_len
        invariant
            hay_len == hay@.len(),
            needle_len == needle@.len(),
            1 <= needle_len <= hay_len,
            0 <= i <= hay_len - needle_len + 1,
            forall|t: int|
                0 <= t < i ==> #[trigger] lower(hay@).subrange(t, t + needle@.len()) != lower(
                    needle@,
                ),
        decreases hay_len - needle_len - i + 1,
    {
        if matches_at(hay, hay_len, i, needle, needle_len) {
            assert(lower(hay@).subrange(i as int, i as int + lower(needle@).len()) == lower(
                needle@,
            ));
            return true;
        }
        i += 1;
    }
    assert(!is_substring(lower(needle@), lower(hay@)));
    false
}

} // verus!
