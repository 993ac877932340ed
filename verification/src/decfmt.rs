//! Decimal rendering of counters and space padding, matching the fixed-width
//! fields of the output line format.

use vstd::prelude::*;

use crate::text::dec_digit;

verus! {

/// Decimal digit string of `n` (most significant digit first); `0` is `"0"`.
pub open spec fn spec_dec(n: int) -> Seq<char>
    decreases n,
{
    if n < 10 {
        seq![dec_digit(n)]
    } else {
        spec_dec(n / 10).push(dec_digit(n % 10))
    }
}

/// `n` space characters (none when `n <= 0`).
pub open spec fn spaces(n: int) -> Seq<char>
    decreases n,
{
    if n <= 0 {
        Seq::empty()
    } else {
        spaces(n - 1).push(' ')
    }
}

fn dec_digit_str(d: u64) -> (r: &'static str)
    requires
        d < 10,
    ensures
        r@ =~= seq![dec_digit(d as int)],
{
    proof {
        reveal_strlit("0");
        reveal_strlit("1");
        reveal_strlit("2");
        reveal_strlit("3");
        reveal_strlit("4");
        reveal_strlit("5");
        reveal_strlit("6");
        reveal_strlit("7");
        reveal_strlit("8");
        reveal_strlit("9");
    }
    match d {
        0 => "0",
        1 => "1",
        2 => "2",
        3 => "3",
        4 => "4",
        5 => "5",
        6 => "6",
        7 => "7",
        8 => "8",
        _ => "9",
    }
}

/// Render `n` in decimal.
pub fn u64_to_dec(n: u64) -> (s: String)
    ensures
        s@ == spec_dec(n as int),
    decreases n,
{
    if n < 10 {
        let s = String::from_str(dec_digit_str(n));
        assert(s@ =~= spec_dec(n as int));
        s
    } else {
        let mut s = u64_to_dec(n / 10);
        s.append(dec_digit_str(n % 10));
        assert(s@ =~= spec_dec((n / 10) as int).push(dec_digit((n % 10) as int)));
        s
    }
}

/// Right-justify `s` in a field of `width` characters, filling with spaces on
/// the left; a longer `s` is kept whole.
pub fn pad_left(s: &str, width: usize) -> (r: String)
    ensures
        r@ == spaces(width - s@.len()) + s@,
{
    let n = s.unicode_len();
    let pad: usize = if width > n {
        width - n
    } else {
        0
    };
    let mut r = String::new();
    let mut i: usize = 0;
    while i < pad
        invariant
            r@ == spaces(i as int),
            0 <= i <= pad,
        decreases pad - i,
    {
        proof {
            reveal_strlit(" ");
        }
        r.append(" ");
        assert(r@ =~= spaces(i + 1));
        i += 1;
    }
    r.append(s);
    assert(r@ =~= spaces(width - s@.len()) + s@);
    r
}

/// Left-justify `s` in a field of `width` characters, filling with spaces on
/// the right; a longer `s` is kept whole.
pub fn pad_right(s: &str, width: usize) -> (r: String)
    ensures
        r@ == s@ + spaces(width - s@.len()),
{
    let n = s.unicode_len();
    let pad: usize = if width > n {
        width - n
    } else {
        0
    };
    let mut r = String::from_str(s);
    let mut i: usize = 0;
    assert(r@ =~= s@ + spaces(0));
    while i < pad
        invariant
            r@ == s@ + spaces(i as int),
            0 <= i <= pad,
        decreases pad - i,
    {
        proof {
            reveal_strlit(" ");
        }
        r.append(" ");
        assert(r@ =~= s@ + spaces(i + 1));
        i += 1;
    }
    assert(r@ =~= s@ + spaces(width - s@.len()));
    r
}

} // verus!
