//! Character-level helpers shared by the parser and the line formatter:
//! decimal digits, case-insensitive comparison against ASCII names, prefix
//! tests, whitespace trimming and splitting on a separator character.

use vstd::prelude::*;

verus! {

/// A decimal digit character.
pub open spec fn is_digit(c: char) -> bool {
    c == '0' || c == '1' || c == '2' || c == '3' || c == '4' || c == '5' || c == '6' || c == '7'
        || c == '8' || c == '9'
}

/// Numeric value of a decimal digit character (unspecified for other characters).
pub open spec fn digit_val(c: char) -> int {
    if c == '0' {
        0
    } else if c == '1' {
        1
    } else if c == '2' {
        2
    } else if c == '3' {
        3
    } else if c == '4' {
        4
    } else if c == '5' {
        5
    } else if c == '6' {
        6
    } else if c == '7' {
        7
    } else if c == '8' {
        8
    } else {
        9
    }
}

/// The digit character for a value in `0..=9`.
pub open spec fn dec_digit(d: int) -> char {
    if d == 0 {
        '0'
    } else if d == 1 {
        '1'
    } else if d == 2 {
        '2'
    } else if d == 3 {
        '3'
    } else if d == 4 {
        '4'
    } else if d == 5 {
        '5'
    } else if d == 6 {
        '6'
    } else if d == 7 {
        '7'
    } else if d == 8 {
        '8'
    } else {
        '9'
    }
}

/// Executable form of [`is_digit`], with the digit's value.
pub fn digit_of(c: char) -> (r: Option<u32>)
    ensures
        r is Some <==> is_digit(c),
        r matches Some(v) ==> v as int == digit_val(c),
{
    match c {
        '0' => Some(0),
        '1' => Some(1),
        '2' => Some(2),
        '3' => Some(3),
        '4' => Some(4),
        '5' => Some(5),
        '6' => Some(6),
        '7' => Some(7),
        '8' => Some(8),
        '9' => Some(9),
        _ => None,
    }
}

/// `c` is one of the two characters `lo` and `up` (the lower- and upper-case
/// form of one ASCII letter, where callers compare case-insensitively).
pub open spec fn ci_eq(c: char, lo: char, up: char) -> bool {
    c == lo || c == up
}

/// Compare `s` against an ASCII name given in its lower-case and upper-case
/// spellings, character by character and case-insensitively.
pub fn matches_ci(s: &str, lo: &str, up: &str) -> (r: bool)
    requires
        lo@.len() == up@.len(),
    ensures
        r == (s@.len() == lo@.len() && (forall|i: int|
            0 <= i < lo@.len() ==> ci_eq(s@[i], lo@[i], up@[i]))),
{
    let n = s.unicode_len();
    if n != lo.unicode_len() {
        return false;
    }
    let mut i: usize = 0;
    while i < n
        invariant
            n == s@.len() == lo@.len() == up@.len(),
            0 <= i <= n,
            forall|j: int| 0 <= j < i ==> ci_eq(s@[j], lo@[j], up@[j]),
        decreases n - i,
    {
        let c = s.get_char(i);
        if c != lo.get_char(i) && c != up.get_char(i) {
            assert(!ci_eq(s@[i as int], lo@[i as int], up@[i as int]));
            return false;
        }
        i += 1;
    }
    true
}

/// `prefix` is a prefix of `s`, compared character by character.
pub fn str_starts_with(s: &str, prefix: &str) -> (r: bool)
    ensures
        r == prefix@.is_prefix_of(s@),
{
    let pn = prefix.unicode_len();
    let sn = s.unicode_len();
    if pn > sn {
        assert(!prefix@.is_prefix_of(s@));
        return false;
    }
    let mut i: usize = 0;
    while i < pn
        invariant
            pn == prefix@.len() <= sn == s@.len(),
            0 <= i <= pn,
            forall|j: int| 0 <= j < i ==> s@[j] == prefix@[j],
        decreases pn - i,
    {
        if s.get_char(i) != prefix.get_char(i) {
            assert(!prefix@.is_prefix_of(s@)) by {
                assert(s@.subrange(0, pn as int)[i as int] != prefix@[i as int]);
            }
            return false;
        }
        i += 1;
    }
    assert(prefix@ =~= s@.subrange(0, pn as int));
    true
}

} // verus!
