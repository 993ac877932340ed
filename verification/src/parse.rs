//! The filter-specification parser.
//!
//! A specification is a comma-separated list of entries, each `target`,
//! `target=` or `target=level`, optionally followed by one `/` and a trailing
//! segment that is reserved and ignored. A lone level token is a global
//! fallback. Malformed entries are dropped and parsing continues; a
//! specification with more than one `/` yields an empty, deny-all set.

use vstd::prelude::*;

use crate::directive::Directive;
use crate::directive::DirectiveModel;
use crate::directive::MAX_DIRECTIVES;
use crate::directive::views;
use crate::levels::LevelFilter;
use crate::levels::parse_level_filter;
use crate::levels::spec_level_filter_of;

verus! {

/// Split `s` at every occurrence of `sep`: one piece more than there are
/// separators, each piece free of `sep`, in order.
pub open spec fn split_chars(s: Seq<char>, sep: char) -> Seq<Seq<char>>
    decreases s.len(),
{
    if s.len() == 0 {
        seq![Seq::<char>::empty()]
    } else if s[0] == sep {
        seq![Seq::<char>::empty()] + split_chars(s.drop_first(), sep)
    } else {
        let rest = split_chars(s.drop_first(), sep);
        rest.update(0, seq![s[0]] + rest[0])
    }
}

/// Number of occurrences of `c` in `s`.
pub open spec fn count_char(s: Seq<char>, c: char) -> nat
    decreases s.len(),
{
    if s.len() == 0 {
        0
    } else {
        count_char(s.drop_first(), c) + if s[0] == c {
            1nat
        } else {
            0nat
        }
    }
}

pub proof fn lemma_split_len(s: Seq<char>, sep: char)
    ensures
        split_chars(s, sep).len() == count_char(s, sep) + 1,
    decreases s.len(),
{
    if s.len() == 0 {
    } else if s[0] == sep {
        lemma_split_len(s.drop_first(), sep);
        assert(split_chars(s, sep).len() == 1 + split_chars(s.drop_first(), sep).len());
    } else {
        lemma_split_len(s.drop_first(), sep);
        let rest = split_chars(s.drop_first(), sep);
        assert(split_chars(s, sep) == rest.update(0, seq![s[0]] + rest[0]));
        assert(split_chars(s, sep).len() == rest.len());
    }
}

/// A separator-free string splits into just itself.
proof fn lemma_split_no_sep(s: Seq<char>, sep: char)
    requires
        forall|i: int| 0 <= i < s.len() ==> s[i] != sep,
    ensures
        split_chars(s, sep) =~~= seq![s],
    decreases s.len(),
{
    if s.len() > 0 {
        assert(forall|i: int| 0 <= i < s.drop_first().len() ==> s.drop_first()[i] != sep);
        lemma_split_no_sep(s.drop_first(), sep);
        assert(seq![s[0]] + s.drop_first() =~= s);
    }
}

/// Splitting at the first separator: everything before it is the first piece,
/// and the rest splits on its own.
proof fn lemma_split_at_first_sep(s: Seq<char>, sep: char, i: int)
    requires
        0 <= i < s.len(),
        s[i] == sep,
        forall|j: int| 0 <= j < i ==> s[j] != sep,
    ensures
        split_chars(s, sep) =~~= seq![s.take(i)] + split_chars(s.skip(i + 1), sep),
    decreases i,
{
    if i == 0 {
        assert(s.take(0) =~= Seq::<char>::empty());
        assert(s.skip(1) =~= s.drop_first());
    } else {
        let t = s.drop_first();
        assert(t[i - 1] == sep);
        assert(forall|j: int| 0 <= j < i - 1 ==> t[j] != sep);
        lemma_split_at_first_sep(t, sep, i - 1);
        assert(t.skip(i) =~= s.skip(i + 1));
        assert(seq![s[0]] + t.take(i - 1) =~= s.take(i));
        let rest = split_chars(t, sep);
        assert(rest[0] == t.take(i - 1));
        assert(rest =~~= seq![t.take(i - 1)] + split_chars(t.skip(i), sep));
    }
}

/// The views of a vector of strings.
pub open spec fn str_views(ps: Seq<String>) -> Seq<Seq<char>> {
    ps.map_values(|p: String| p@)
}

/// Split `s` at every occurrence of `sep`.
pub fn split_str(s: &str, sep: char) -> (parts: Vec<String>)
    ensures
        str_views(parts@) == split_chars(s@, sep),
{
    let n = s.unicode_len();
    let mut parts: Vec<String> = Vec::new();
    let mut start: usize = 0;
    let mut i: usize = 0;
    assert(s@.skip(0) =~= s@);
    assert(str_views(parts@) =~~= Seq::<Seq<char>>::empty());
    while i < n
        invariant
            0 <= start <= i <= n,
            n == s@.len(),
            forall|j: int| start <= j < i ==> s@[j] != sep,
            split_chars(s@, sep) =~~= str_views(parts@) + split_chars(
                s@.skip(start as int),
                sep,
            ),
        decreases n - i,
    {
        if s.get_char(i) == sep {
            let piece = String::from_str(s.substring_char(start, i));
            proof {
                let t = s@.skip(start as int);
                assert(t[i - start] == sep);
                assert(forall|j: int| 0 <= j < i - start ==> t[j] != sep) by {
                    assert(forall|j: int|
                        0 <= j < i - start ==> t[j] == s@[start + j] && s@[start + j] != sep);
                }
                lemma_split_at_first_sep(t, sep, i as int - start as int);
                assert(t.take(i - start) =~= s@.subrange(start as int, i as int));
                assert(t.skip(i - start + 1) =~= s@.skip(i as int + 1));
                assert(str_views(parts@.push(piece)) =~~= str_views(parts@).push(piece@));
            }
            parts.push(piece);
            start = i + 1;
        }
        i += 1;
    }
    let piece = String::from_str(s.substring_char(start, n));
    proof {
        let t = s@.skip(start as int);
        assert(forall|j: int| 0 <= j < t.len() ==> t[j] != sep) by {
            assert(forall|j: int|
                0 <= j < t.len() ==> t[j] == s@[start + j] && s@[start + j] != sep);
        }
        lemma_split_no_sep(t, sep);
        assert(t =~= s@.subrange(start as int, n as int));
        assert(str_views(parts@.push(piece)) =~~= str_views(parts@).push(piece@));
    }
    parts.push(piece);
    assert(str_views(parts@) =~~= split_chars(s@, sep));
    parts
}

/// The Unicode white-space characters, as trimmed from level tokens.
pub open spec fn is_ws(c: char) -> bool {
    c == ' ' || c == '\u{9}' || c == '\u{a}' || c == '\u{b}' || c == '\u{c}' || c == '\u{d}'
        || c == '\u{85}' || c == '\u{a0}' || c == '\u{1680}' || c == '\u{2000}' || c == '\u{2001}'
        || c == '\u{2002}' || c == '\u{2003}' || c == '\u{2004}' || c == '\u{2005}'
        || c == '\u{2006}' || c == '\u{2007}' || c == '\u{2008}' || c == '\u{2009}'
        || c == '\u{200a}' || c == '\u{2028}' || c == '\u{2029}' || c == '\u{202f}'
        || c == '\u{205f}' || c == '\u{3000}'
}

/// Executable form of [`is_ws`] (the Unicode `White_Space` set).
pub fn is_ws_char(c: char) -> (r: bool)
    ensures
        r == is_ws(c),
{
    match c {
        ' ' | '\u{9}' | '\u{a}' | '\u{b}' | '\u{c}' | '\u{d}' | '\u{85}' | '\u{a0}' | '\u{1680}'
            | '\u{2000}' | '\u{2001}' | '\u{2002}' | '\u{2003}' | '\u{2004}' | '\u{2005}'
            | '\u{2006}' | '\u{2007}' | '\u{2008}' | '\u{2009}' | '\u{200a}' | '\u{2028}'
            | '\u{2029}' | '\u{202f}' | '\u{205f}' | '\u{3000}' => true,
        _ => false,
    }
}

/// `s` with leading white space removed.
pub open spec fn spec_trim_start(s: Seq<char>) -> Seq<char>
    decreases s.len(),
{
    if s.len() > 0 && is_ws(s[0]) {
        spec_trim_start(s.drop_first())
    } else {
        s
    }
}

/// `s` with trailing white space removed.
pub open spec fn spec_trim_end(s: Seq<char>) -> Seq<char>
    decreases s.len(),
{
    if s.len() > 0 && is_ws(s.last()) {
        spec_trim_end(s.drop_last())
    } else {
        s
    }
}

/// `s` with leading and trailing white space removed.
pub open spec fn spec_trim(s: Seq<char>) -> Seq<char> {
    spec_trim_end(spec_trim_start(s))
}

proof fn lemma_trim_start_skip(s: Seq<char>, a: int)
    requires
        0 <= a <= s.len(),
        forall|j: int| 0 <= j < a ==> is_ws(s[j]),
        a < s.len() ==> !is_ws(s[a]),
    ensures
        spec_trim_start(s) == s.skip(a),
    decreases a,
{
    if a == 0 {
        assert(s.skip(0) =~= s);
    } else {
        let t = s.drop_first();
        assert(forall|j: int| 0 <= j < a - 1 ==> is_ws(t[j]));
        lemma_trim_start_skip(t, a - 1);
        assert(t.skip(a - 1) =~= s.skip(a));
    }
}

proof fn lemma_trim_end_take(s: Seq<char>, b: int)
    requires
        0 <= b <= s.len(),
        forall|j: int| b <= j < s.len() ==> is_ws(s[j]),
        b > 0 ==> !is_ws(s[b - 1]),
    ensures
        spec_trim_end(s) == s.take(b),
    decreases s.len(),
{
    if b == s.len() {
        assert(s.take(b) =~= s);
    } else {
        assert(is_ws(s.last()));
        let t = s.drop_last();
        assert(forall|j: int| b <= j < t.len() ==> is_ws(t[j]));
        lemma_trim_end_take(t, b);
        assert(t.take(b) =~= s.take(b));
    }
}

/// Remove leading and trailing white space.
pub fn trim_str(s: &str) -> (r: String)
    ensures
        r@ == spec_trim(s@),
{
    let n = s.unicode_len();
    let mut a: usize = 0;
    while a < n && is_ws_char(s.get_char(a))
        invariant
            0 <= a <= n,
            n == s@.len(),
            forall|j: int| 0 <= j < a ==> is_ws(s@[j]),
        decreases n - a,
    {
        a += 1;
    }
    let mut b: usize = n;
    while b > a && is_ws_char(s.get_char(b - 1))
        invariant
            a <= b <= n,
            n == s@.len(),
            forall|j: int| b <= j < n ==> is_ws(s@[j]),
        decreases b,
    {
        b -= 1;
    }
    let r = String::from_str(s.substring_char(a, b));
    proof {
        lemma_trim_start_skip(s@, a as int);
        let t = s@.skip(a as int);
        assert(forall|j: int| b - a <= j < t.len() ==> is_ws(t[j])) by {
            assert(forall|j: int|
                b - a <= j < t.len() ==> t[j] == s@[a + j] && is_ws(s@[a + j]));
        }
        lemma_trim_end_take(t, b as int - a as int);
        assert(t.take(b - a) =~= s@.subrange(a as int, b as int));
    }
    r
}

/// What a single comma-separated entry denotes: `None` when it is skipped or
/// dropped, otherwise the directive it contributes.
///
/// An empty entry is skipped. An entry without `=` is either a lone level
/// (global fallback) or a target enabled at the maximum level. With one `=`,
/// an empty level (after trimming) means the maximum level, an unparseable
/// one drops the entry. More than one `=` drops the entry.
pub open spec fn entry_model(e: Seq<char>) -> Option<DirectiveModel> {
    if e.len() == 0 {
        None
    } else {
        let ps = split_chars(e, '=');
        if ps.len() == 1 {
            match spec_level_filter_of(ps[0]) {
                Some(l) => Some(DirectiveModel { name: None, level: l }),
                None => Some(DirectiveModel { name: Some(ps[0]), level: LevelFilter::Trace }),
            }
        } else if ps.len() == 2 {
            let lv = spec_trim(ps[1]);
            if lv.len() == 0 {
                Some(DirectiveModel { name: Some(ps[0]), level: LevelFilter::Trace })
            } else {
                match spec_level_filter_of(lv) {
                    Some(l) => Some(DirectiveModel { name: Some(ps[0]), level: l }),
                    None => None,
                }
            }
        } else {
            None
        }
    }
}

/// The model of an optional directive.
pub open spec fn opt_view(r: Option<Directive>) -> Option<DirectiveModel> {
    match r {
        None => None,
        Some(d) => Some(d@),
    }
}

fn parse_entry(e: &str) -> (r: Option<Directive>)
    ensures
        opt_view(r) == entry_model(e@),
{
    let n = e.unicode_len();
    if n == 0 {
        return None;
    }
    let parts = split_str(e, '=');
    assert(parts@.len() == split_chars(e@, '=').len());
    if parts.len() == 1 {
        assert(parts@[0]@ == split_chars(e@, '=')[0]);
        match parse_level_filter(parts[0].as_str()) {
            Some(l) => Some(Directive { name: None, level: l }),
            None => Some(
                Directive { name: Some(String::from_str(parts[0].as_str())), level: LevelFilter::max() },
            ),
        }
    } else if parts.len() == 2 {
        assert(parts@[0]@ == split_chars(e@, '=')[0]);
        assert(parts@[1]@ == split_chars(e@, '=')[1]);
        let lv = trim_str(parts[1].as_str());
        if lv.unicode_len() == 0 {
            assert(spec_trim(split_chars(e@, '=')[1]).len() == 0);
            Some(Directive { name: Some(String::from_str(parts[0].as_str())), level: LevelFilter::max() })
        } else {
            match parse_level_filter(lv.as_str()) {
                Some(l) => Some(
                    Directive { name: Some(String::from_str(parts[0].as_str())), level: l },
                ),
                None => None,
            }
        }
    } else {
        None
    }
}

/// The directives contributed by a list of entries, in order.
pub open spec fn entries_models(segs: Seq<Seq<char>>) -> Seq<DirectiveModel>
    decreases segs.len(),
{
    if segs.len() == 0 {
        Seq::<DirectiveModel>::empty()
    } else {
        entries_models(segs.drop_last()) + opt_seq(entry_model(segs.last()))
    }
}

/// Zero or one directives out of one entry.
pub open spec fn opt_seq(o: Option<DirectiveModel>) -> Seq<DirectiveModel> {
    match o {
        None => Seq::<DirectiveModel>::empty(),
        Some(d) => seq![d],
    }
}

/// What a whole specification string denotes, before the capacity bound is
/// applied: more than one `/` denies everything; otherwise the entries before
/// the first `/` contribute their directives in order.
pub open spec fn spec_parse(s: Seq<char>) -> Seq<DirectiveModel> {
    let segs = split_chars(s, '/');
    if segs.len() >= 3 {
        Seq::<DirectiveModel>::empty()
    } else {
        entries_models(split_chars(segs[0], ','))
    }
}

/// The first `n` elements of `s`, or all of `s` when it is shorter.
pub open spec fn take_at_most(s: Seq<DirectiveModel>, n: int) -> Seq<DirectiveModel> {
    if n <= 0 {
        Seq::<DirectiveModel>::empty()
    } else if n >= s.len() {
        s
    } else {
        s.take(n)
    }
}

/// A specification with more than one `/` denies everything: it denotes the
/// empty directive set, whatever stands before or after the slashes.
pub proof fn lemma_two_slashes_deny(s: Seq<char>)
    requires
        count_char(s, '/') >= 2,
    ensures
        spec_parse(s) == Seq::<DirectiveModel>::empty(),
{
    lemma_split_len(s, '/');
}

/// Parse a logging specification string (e.g. `"crate1,crate2::mod3,crate3::x=error"`)
/// and append the resulting directives, dropping any beyond the set's
/// capacity of [`MAX_DIRECTIVES`].
pub fn parse_args(filter: &mut Vec<Directive>, spec_str: &str)
    ensures
        views(final(filter)@) == views(old(filter)@) + take_at_most(
            spec_parse(spec_str@),
            MAX_DIRECTIVES - old(filter)@.len(),
        ),
{
    let ghost cap: int = MAX_DIRECTIVES - old(filter)@.len();
    let slash_parts = split_str(spec_str, '/');
    if slash_parts.len() >= 3 {
        assert(views(filter@) =~= views(filter@) + take_at_most(
            spec_parse(spec_str@),
            cap,
        ));
        return ;
    }
    proof {
        lemma_split_len(spec_str@, '/');
        assert(slash_parts@.len() == split_chars(spec_str@, '/').len());
        assert(slash_parts@.len() >= 1);
    }
    assert(slash_parts@[0]@ == split_chars(spec_str@, '/')[0]);
    let entries = split_str(slash_parts[0].as_str(), ',');
    let ghost segs = split_chars(slash_parts@[0]@, ',');
    let mut i: usize = 0;
    assert(entries_models(segs.take(0)) =~= Seq::<DirectiveModel>::empty());
    assert(views(filter@) =~= views(old(filter)@) + take_at_most(
        entries_models(segs.take(0)),
        cap,
    ));
    while i < entries.len()
        invariant
            0 <= i <= entries@.len(),
            str_views(entries@) == segs,
            views(filter@) == views(old(filter)@) + take_at_most(
                entries_models(segs.take(i as int)),
                cap,
            ),
            cap == MAX_DIRECTIVES - old(filter)@.len(),
        decreases entries@.len() - i,
    {
        let ghost built = entries_models(segs.take(i as int));
        proof {
            assert(segs.take(i as int + 1).last() == segs[i as int]);
            assert(segs.take(i as int + 1).drop_last() =~~= segs.take(i as int));
            assert(entries_models(segs.take(i as int + 1)) == built + opt_seq(
                entry_model(segs[i as int]),
            ));
            assert(entries@[i as int]@ == segs[i as int]);
            assert(views(filter@).len() == filter@.len());
            assert(take_at_most(built, cap).len() == if cap <= 0 {
                0int
            } else if cap >= built.len() {
                built.len() as int
            } else {
                cap
            });
        }
        match parse_entry(entries[i].as_str()) {
            Some(d) => {
                if filter.len() < MAX_DIRECTIVES {
                    let ghost pre = filter@;
                    filter.push(d);
                    proof {
                        assert(views(pre.push(d)) =~= views(pre).push(d@));
                        assert(built.len() < cap);
                        assert(take_at_most(built + opt_seq(entry_model(segs[i as int])), cap)
                            =~= take_at_most(built, cap).push(d@));
                    }
                } else {
                    proof {
                        assert(built.len() >= cap);
                        assert(take_at_most(built + opt_seq(entry_model(segs[i as int])), cap)
                            =~= take_at_most(built, cap));
                    }
                }
            },
            None => {
                proof {
                    assert(built + opt_seq(entry_model(segs[i as int])) =~= built);
                }
            },
        }
        i += 1;
    }
    proof {
        assert(segs.take(entries@.len() as int) =~~= segs);
    }
}

} // verus!
