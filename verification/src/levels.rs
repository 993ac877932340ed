//! Log levels and level filters.
//!
//! A [`Level`] is the severity of one record; a [`LevelFilter`] is a
//! per-directive threshold, with `Off` as a sentinel below every real level.
//! Filters are totally ordered `Off < Error < Warn < Info < Debug < Trace`.
//! A filter name can be written out (`"warn"`, case-insensitively) or as a
//! number `0..=5` in the same order.

use vstd::prelude::*;

use crate::text::ci_eq;
use crate::text::digit_of;
use crate::text::digit_val;
use crate::text::is_digit;
use crate::text::matches_ci;

verus! {

/// Severity of a single log record, `Error` being the most severe.
#[derive(Clone, Copy, PartialEq, Eq, Structural, Debug)]
pub enum Level {
    Error,
    Warn,
    Info,
    Debug,
    Trace,
}

/// Threshold for emitting records: a record passes when its level is at or
/// above the threshold in severity (numerically `level <= filter`).
#[derive(Clone, Copy, PartialEq, Eq, Structural, Debug)]
pub enum LevelFilter {
    Off,
    Error,
    Warn,
    Info,
    Debug,
    Trace,
}

/// Numeric rank of a level: `Error` is 1, `Trace` is 5.
pub open spec fn level_num(l: Level) -> int {
    match l {
        Level::Error => 1,
        Level::Warn => 2,
        Level::Info => 3,
        Level::Debug => 4,
        Level::Trace => 5,
    }
}

/// Numeric rank of a filter: `Off` is 0, `Trace` is 5.
pub open spec fn filter_num(f: LevelFilter) -> int {
    match f {
        LevelFilter::Off => 0,
        LevelFilter::Error => 1,
        LevelFilter::Warn => 2,
        LevelFilter::Info => 3,
        LevelFilter::Debug => 4,
        LevelFilter::Trace => 5,
    }
}

/// The filter whose rank is `n`, for `n` in `0..=5`.
pub open spec fn filter_of_num(n: int) -> LevelFilter {
    if n == 0 {
        LevelFilter::Off
    } else if n == 1 {
        LevelFilter::Error
    } else if n == 2 {
        LevelFilter::Warn
    } else if n == 3 {
        LevelFilter::Info
    } else if n == 4 {
        LevelFilter::Debug
    } else {
        LevelFilter::Trace
    }
}

impl Level {
    /// Numeric rank, as an executable value.
    pub fn as_index(&self) -> (n: u8)
        ensures
            n as int == level_num(*self),
    {
        match self {
            Level::Error => 1,
            Level::Warn => 2,
            Level::Info => 3,
            Level::Debug => 4,
            Level::Trace => 5,
        }
    }
}

impl LevelFilter {
    /// Numeric rank, as an executable value.
    pub fn as_index(&self) -> (n: u8)
        ensures
            n as int == filter_num(*self),
    {
        match self {
            LevelFilter::Off => 0,
            LevelFilter::Error => 1,
            LevelFilter::Warn => 2,
            LevelFilter::Info => 3,
            LevelFilter::Debug => 4,
            LevelFilter::Trace => 5,
        }
    }

    /// The most verbose filter: every record level passes it.
    pub fn max() -> (f: LevelFilter)
        ensures
            f == LevelFilter::Trace,
    {
        LevelFilter::Trace
    }
}

/// The upper-case tag of a level, as printed on each line.
pub open spec fn spec_level_name(l: Level) -> Seq<char> {
    match l {
        Level::Error => "ERROR"@,
        Level::Warn => "WARN"@,
        Level::Info => "INFO"@,
        Level::Debug => "DEBUG"@,
        Level::Trace => "TRACE"@,
    }
}

/// Executable form of [`spec_level_name`].
pub fn level_name(l: Level) -> (s: &'static str)
    ensures
        s@ == spec_level_name(l),
{
    match l {
        Level::Error => "ERROR",
        Level::Warn => "WARN",
        Level::Info => "INFO",
        Level::Debug => "DEBUG",
        Level::Trace => "TRACE",
    }
}

/// A record at `level` passes a directive whose threshold is `threshold`.
pub fn level_passes(level: Level, threshold: LevelFilter) -> (r: bool)
    ensures
        r == (level_num(level) <= filter_num(threshold)),
{
    level.as_index() <= threshold.as_index()
}

/// `s` spells `"off"`, case-insensitively.
pub open spec fn is_off_name(s: Seq<char>) -> bool {
    s.len() == 3 && ci_eq(s[0], 'o', 'O') && ci_eq(s[1], 'f', 'F') && ci_eq(s[2], 'f', 'F')
}

/// `s` spells `"error"`, case-insensitively.
pub open spec fn is_error_name(s: Seq<char>) -> bool {
    s.len() == 5 && ci_eq(s[0], 'e', 'E') && ci_eq(s[1], 'r', 'R') && ci_eq(s[2], 'r', 'R')
        && ci_eq(s[3], 'o', 'O') && ci_eq(s[4], 'r', 'R')
}

/// `s` spells `"warn"`, case-insensitively.
pub open spec fn is_warn_name(s: Seq<char>) -> bool {
    s.len() == 4 && ci_eq(s[0], 'w', 'W') && ci_eq(s[1], 'a', 'A') && ci_eq(s[2], 'r', 'R')
        && ci_eq(s[3], 'n', 'N')
}

/// `s` spells `"info"`, case-insensitively.
pub open spec fn is_info_name(s: Seq<char>) -> bool {
    s.len() == 4 && ci_eq(s[0], 'i', 'I') && ci_eq(s[1], 'n', 'N') && ci_eq(s[2], 'f', 'F')
        && ci_eq(s[3], 'o', 'O')
}

/// `s` spells `"debug"`, case-insensitively.
pub open spec fn is_debug_name(s: Seq<char>) -> bool {
    s.len() == 5 && ci_eq(s[0], 'd', 'D') && ci_eq(s[1], 'e', 'E') && ci_eq(s[2], 'b', 'B')
        && ci_eq(s[3], 'u', 'U') && ci_eq(s[4], 'g', 'G')
}

/// `s` spells `"trace"`, case-insensitively.
pub open spec fn is_trace_name(s: Seq<char>) -> bool {
    s.len() == 5 && ci_eq(s[0], 't', 'T') && ci_eq(s[1], 'r', 'R') && ci_eq(s[2], 'a', 'A')
        && ci_eq(s[3], 'c', 'C') && ci_eq(s[4], 'e', 'E')
}

/// Every character of `s` is a decimal digit.
pub open spec fn all_digits(s: Seq<char>) -> bool {
    forall|i: int| 0 <= i < s.len() ==> is_digit(s[i])
}

/// Value of a digit string read in base ten.
pub open spec fn digits_val(s: Seq<char>) -> int
    decreases s.len(),
{
    if s.len() == 0 {
        0
    } else {
        digits_val(s.drop_last()) * 10 + digit_val(s.last())
    }
}

pub proof fn lemma_digits_val_nonneg(s: Seq<char>)
    requires
        all_digits(s),
    ensures
        digits_val(s) >= 0,
    decreases s.len(),
{
    if s.len() > 0 {
        assert(all_digits(s.drop_last()));
        lemma_digits_val_nonneg(s.drop_last());
        assert(digit_val(s.last()) >= 0);
    }
}

/// A numeric level spelling: a non-empty digit string whose value is at most
/// 5, read as the filter of that rank.
pub open spec fn spec_numeric_filter(s: Seq<char>) -> Option<LevelFilter> {
    if s.len() > 0 && all_digits(s) && digits_val(s) <= 5 {
        Some(filter_of_num(digits_val(s)))
    } else {
        None
    }
}

/// What a level-filter token denotes: one of the six names, case-insensitively,
/// or a numeric rank; anything else is not a level.
pub open spec fn spec_level_filter_of(s: Seq<char>) -> Option<LevelFilter> {
    if is_off_name(s) {
        Some(LevelFilter::Off)
    } else if is_error_name(s) {
        Some(LevelFilter::Error)
    } else if is_warn_name(s) {
        Some(LevelFilter::Warn)
    } else if is_info_name(s) {
        Some(LevelFilter::Info)
    } else if is_debug_name(s) {
        Some(LevelFilter::Debug)
    } else if is_trace_name(s) {
        Some(LevelFilter::Trace)
    } else {
        spec_numeric_filter(s)
    }
}

fn parse_numeric_filter(s: &str) -> (r: Option<LevelFilter>)
    ensures
        r == spec_numeric_filter(s@),
{
    let n = s.unicode_len();
    if n == 0 {
        return None;
    }
    // `val` tracks the digit string's value, saturated at 6 so that it stays
    // within `u32` while still deciding `<= 5` exactly.
    let mut val: u32 = 0;
    let mut i: usize = 0;
    while i < n
        invariant
            n == s@.len(),
            0 <= i <= n,
            all_digits(s@.take(i as int)),
            val <= 6,
            digits_val(s@.take(i as int)) <= 5 ==> val as int == digits_val(s@.take(i as int)),
            digits_val(s@.take(i as int)) > 5 ==> val == 6,
        decreases n - i,
    {
        let c = s.get_char(i);
        proof {
            assert(s@.take(i as int + 1).drop_last() =~= s@.take(i as int));
            assert(s@.take(i as int + 1).last() == s@[i as int]);
            assert(all_digits(s@.take(i as int)));
            lemma_digits_val_nonneg(s@.take(i as int));
        }
        match digit_of(c) {
            Some(d) => {
                let t = val * 10 + d;
                val = if t > 6 {
                    6
                } else {
                    t
                };
            },
            None => {
                assert(!all_digits(s@)) by {
                    assert(!is_digit(s@[i as int]));
                }
                return None;
            },
        }
        i += 1;
    }
    assert(s@.take(n as int) =~= s@);
    if val <= 5 {
        proof {
            lemma_digits_val_nonneg(s@);
        }
        Some(match val {
            0 => LevelFilter::Off,
            1 => LevelFilter::Error,
            2 => LevelFilter::Warn,
            3 => LevelFilter::Info,
            4 => LevelFilter::Debug,
            _ => LevelFilter::Trace,
        })
    } else {
        None
    }
}

/// Parse a level-filter token: one of the six level names (compared
/// case-insensitively, as in ASCII case folding) or a numeric rank `0..=5`.
pub fn parse_level_filter(s: &str) -> (r: Option<LevelFilter>)
    ensures
        r == spec_level_filter_of(s@),
{
    proof {
        reveal_strlit("off");
        reveal_strlit("OFF");
        reveal_strlit("error");
        reveal_strlit("ERROR");
        reveal_strlit("warn");
        reveal_strlit("WARN");
        reveal_strlit("info");
        reveal_strlit("INFO");
        reveal_strlit("debug");
        reveal_strlit("DEBUG");
        reveal_strlit("trace");
        reveal_strlit("TRACE");
    }
    if matches_ci(s, "off", "OFF") {
        assert(is_off_name(s@));
        Some(LevelFilter::Off)
    } else if matches_ci(s, "error", "ERROR") {
        assert(is_error_name(s@));
        Some(LevelFilter::Error)
    } else if matches_ci(s, "warn", "WARN") {
        assert(is_warn_name(s@));
        Some(LevelFilter::Warn)
    } else if matches_ci(s, "info", "INFO") {
        assert(is_info_name(s@));
        Some(LevelFilter::Info)
    } else if matches_ci(s, "debug", "DEBUG") {
        assert(is_debug_name(s@));
        Some(LevelFilter::Debug)
    } else if matches_ci(s, "trace", "TRACE") {
        assert(is_trace_name(s@));
        Some(LevelFilter::Trace)
    } else {
        assert(!is_off_name(s@));
        assert(!is_error_name(s@));
        assert(!is_warn_name(s@));
        assert(!is_info_name(s@));
        assert(!is_debug_name(s@));
        assert(!is_trace_name(s@));
        parse_numeric_filter(s)
    }
}

} // verus!
