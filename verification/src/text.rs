//! Searching and trimming text, character by character.

use vstd::prelude::*;
use vstd::string::StrSliceExecFns;

verus! {

/// Whether `c` is white space in the sense of `char::is_whitespace`, which
/// goes by Unicode's `White_Space`.
pub uninterp spec fn is_white_space(c: char) -> bool;

/// The lowercase form of `s` in the sense of `str::to_lowercase`, which goes
/// by Unicode's `Lowercase` and knows no locale.
pub uninterp spec fn lowercase_of(s: Seq<char>) -> Seq<char>;

/// Calls `char::is_whitespace`. Nothing is claimed of the answer but that it
/// depends on the character alone.
#[verifier::external_body]
fn char_is_whitespace(c: char) -> (r: bool)
    ensures
        r == is_white_space(c),
{
    c.is_whitespace()
}

/// Calls `str::to_lowercase`. Nothing is claimed of the result but that it
/// depends on the characters of `s` alone.
#[verifier::external_body]
fn str_to_lowercase(s: &str) -> (r: String)
    ensures
        r@ == lowercase_of(s@),
{
    s.to_lowercase()
}

/// For each character of `s`, whether it is white space.
pub open spec fn white_space_flags(s: Seq<char>) -> Seq<bool> {
    Seq::new(s.len(), |i: int| is_white_space(s[i]))
}

/// The first position from `i` on that is not flagged, or the length.
pub open spec fn first_unflagged(flags: Seq<bool>, i: int) -> int
    decreases flags.len() - i,
{
    if i >= flags.len() || !flags[i] {
        i
    } else {
        first_unflagged(flags, i + 1)
    }
}

/// The end of the last unflagged position before `j`, or zero.
pub open spec fn last_unflagged_end(flags: Seq<bool>, j: int) -> int
    decreases j,
{
    if j <= 0 || !flags[j - 1] {
        j
    } else {
        last_unflagged_end(flags, j - 1)
    }
}

/// The range that is left when the flagged positions at both ends are taken
/// off: empty where every position is flagged.
pub open spec fn unflagged_range(flags: Seq<bool>) -> (int, int) {
    let end = last_unflagged_end(flags, flags.len() as int);
    if end <= 0 {
        (0, 0)
    } else {
        (first_unflagged(flags, 0), end)
    }
}

/// `s` without the white space at its ends.
pub open spec fn trimmed(s: Seq<char>) -> Seq<char> {
    let range = unflagged_range(white_space_flags(s));
    s.subrange(range.0, range.1)
}

/// Whether `pattern` occurs in `text` at position `i`.
pub open spec fn occurs_at(text: Seq<char>, pattern: Seq<char>, i: int) -> bool {
    0 <= i && i + pattern.len() <= text.len() && text.subrange(i, i + pattern.len()) == pattern
}

/// Whether `pattern` occurs somewhere in `text`.
pub open spec fn has_infix(text: Seq<char>, pattern: Seq<char>) -> bool {
    exists|i: int| occurs_at(text, pattern, i)
}

/// The first position of `c` in `s` from `i` on, or the length.
pub open spec fn first_index_of(s: Seq<char>, c: char, i: int) -> int
    decreases s.len() - i,
{
    if i >= s.len() || s[i] == c {
        i
    } else {
        first_index_of(s, c, i + 1)
    }
}

/// The range of positions that remains of `flags` once the flagged ones at
/// both ends are taken off.
pub fn trim_bounds(flags: &Vec<bool>) -> (r: (usize, usize))
    ensures
        (r.0 as int, r.1 as int) == unflagged_range(flags@),
        r.0 <= r.1 <= flags.len(),
{
    let mut end: usize = flags.len();
    while end > 0 && flags[end - 1]
        invariant
            end <= flags.len(),
            last_unflagged_end(flags@, flags.len() as int) == last_unflagged_end(
                flags@,
                end as int,
            ),
        decreases end,
    {
        end -= 1;
    }
    if end == 0 {
        return (0, 0);
    }
    let mut start: usize = 0;
    while start < end && flags[start]
        invariant
            start <= end <= flags.len(),
            end > 0,
            !flags[end - 1],
            forall|j: int| 0 <= j < start ==> flags[j],
            first_unflagged(flags@, 0) == first_unflagged(flags@, start as int),
        decreases end - start,
    {
        start += 1;
    }
    (start, end)
}

/// For each character of `s`, whether it is white space.
pub fn flag_white_space(s: &str) -> (flags: Vec<bool>)
    ensures
        flags@ == white_space_flags(s@),
{
    let n = s.unicode_len();
    let mut flags: Vec<bool> = Vec::new();
    let mut i: usize = 0;
    while i < n
        invariant
            i <= n == s@.len(),
            flags.len() == i,
            forall|j: int| 0 <= j < i ==> flags[j] == is_white_space(s@[j]),
        decreases n - i,
    {
        flags.push(char_is_whitespace(s.get_char(i)));
        i += 1;
    }
    assert(flags@ =~= white_space_flags(s@));
    flags
}

/// `s` without the white space at its ends.
pub fn trim(s: &str) -> (r: &str)
    ensures
        r@ == trimmed(s@),
{
    let flags = flag_white_space(s);
    let (start, end) = trim_bounds(&flags);
    s.substring_char(start, end)
}

/// The lowercase form of `s`.
pub fn lowercase(s: &str) -> (r: String)
    ensures
        r@ == lowercase_of(s@),
{
    str_to_lowercase(s)
}

/// Whether `pattern` occurs in `text` at position `at`.
fn matches_at(text: &str, pattern: &str, at: usize, text_len: usize, pattern_len: usize) -> (r:
    bool)
    requires
        text_len == text@.len(),
        pattern_len == pattern@.len(),
        at + pattern_len <= text_len,
    ensures
        r == occurs_at(text@, pattern@, at as int),
{
    let mut k: usize = 0;
    while k < pattern_len
        invariant
            k <= pattern_len == pattern@.len(),
            text_len == text@.len(),
            at + pattern_len <= text_len,
            forall|j: int| 0 <= j < k ==> text@[at + j] == pattern@[j],
        decreases pattern_len - k,
    {
        if text.get_char(at + k) != pattern.get_char(k) {
            assert(text@.subrange(at as int, at + pattern_len)[k as int] != pattern@[k as int]);
            return false;
        }
        k += 1;
    }
    assert(text@.subrange(at as int, at + pattern_len) =~= pattern@);
    true
}

/// Whether `pattern` occurs somewhere in `text`.
pub fn contains_infix(text: &str, pattern: &str) -> (r: bool)
    ensures
        r == has_infix(text@, pattern@),
{
    let text_len = text.unicode_len();
    let pattern_len = pattern.unicode_len();
    if pattern_len > text_len {
        return false;
    }
    if pattern_len == 0 {
        assert(text@.subrange(0, 0) =~= pattern@);
        assert(occurs_at(text@, pattern@, 0));
        return true;
    }
    let last = text_len - pattern_len;
    let mut i: usize = 0;
    while i <= last
        invariant
            i <= last + 1,
            pattern_len > 0,
            last == text_len - pattern_len,
            text_len == text@.len(),
            pattern_len == pattern@.len(),
            forall|j: int| 0 <= j < i ==> !occurs_at(text@, pattern@, j),
        decreases last + 1 - i,
    {
        if matches_at(text, pattern, i, text_len, pattern_len) {
            return true;
        }
        i += 1;
    }
    false
}

/// The first position of `c` in `s` from `from` on, or the length of `s`
/// where there is none; `from` itself where it lies past the end.
pub fn find_char(s: &str, c: char, from: usize) -> (r: usize)
    ensures
        r == first_index_of(s@, c, from as int),
        from <= r,
        from <= s@.len() ==> r <= s@.len(),
{
    let n = s.unicode_len();
    if from >= n {
        return from;
    }
    let mut i: usize = from;
    while i < n && s.get_char(i) != c
        invariant
            from <= i <= n == s@.len(),
            first_index_of(s@, c, from as int) == first_index_of(s@, c, i as int),
        decreases n - i,
    {
        i += 1;
    }
    i
}

} // verus!
