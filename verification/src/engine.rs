//! The filter engine: decide whether a (level, target) pair is enabled by a
//! directive set, and compute the maximum level any directive allows.
//!
//! Directives are scanned from the most recently appended entry backward and
//! the first applicable one decides. The caller is expected to have arranged
//! the set from least to most specific (insertion order of the specification
//! string), so that the reverse scan prefers the most specific rule; see
//! [`lemma_most_recent_match_wins`] for the exact policy that is implemented.

use vstd::prelude::*;

use crate::directive::Directive;
use crate::directive::DirectiveModel;
use crate::directive::views;
use crate::levels::Level;
use crate::levels::LevelFilter;
use crate::levels::filter_num;
use crate::levels::level_num;
use crate::levels::level_passes;
use crate::text::str_starts_with;

verus! {

/// The directive applies to `target`: either it is a global fallback or its
/// name is a prefix of `target`.
pub open spec fn model_matches(d: DirectiveModel, target: Seq<char>) -> bool {
    match d.name {
        None => true,
        Some(n) => n.is_prefix_of(target),
    }
}

/// A record at `level` for `target` is emitted: the most recently appended
/// applicable directive decides, and with no applicable directive nothing is
/// emitted (default deny).
pub open spec fn spec_enabled(dirs: Seq<DirectiveModel>, level: Level, target: Seq<char>) -> bool
    decreases dirs.len(),
{
    if dirs.len() == 0 {
        false
    } else if model_matches(dirs.last(), target) {
        level_num(level) <= filter_num(dirs.last().level)
    } else {
        spec_enabled(dirs.drop_last(), level, target)
    }
}

/// The maximum level some directive allows, `Off` when the set is empty.
pub open spec fn spec_max_filter(dirs: Seq<DirectiveModel>) -> LevelFilter
    decreases dirs.len(),
{
    if dirs.len() == 0 {
        LevelFilter::Off
    } else {
        let rest = spec_max_filter(dirs.drop_last());
        if filter_num(dirs.last().level) > filter_num(rest) {
            dirs.last().level
        } else {
            rest
        }
    }
}

/// Check whether a level and target are enabled by the set of directives.
pub fn enabled(directives: &[Directive], level: Level, target: &str) -> (r: bool)
    ensures
        r == spec_enabled(views(directives@), level, target@),
{
    let ghost models = views(directives@);
    let mut i: usize = directives.len();
    assert(models.take(i as int) =~= models);
    while i > 0
        invariant
            i <= directives@.len(),
            models == views(directives@),
            spec_enabled(models, level, target@) == spec_enabled(
                models.take(i as int),
                level,
                target@,
            ),
        decreases i,
    {
        i = i - 1;
        let d = &directives[i];
        proof {
            assert(models.take(i as int + 1).last() == models[i as int]);
            assert(models.take(i as int + 1).drop_last() =~= models.take(i as int));
        }
        match &d.name {
            None => {
                return level_passes(level, d.level);
            },
            Some(name) => {
                if str_starts_with(target, name.as_str()) {
                    assert(model_matches(models[i as int], target@));
                    return level_passes(level, d.level);
                }
                assert(!model_matches(models[i as int], target@));
            },
        }
    }
    assert(models.take(0) =~= Seq::<DirectiveModel>::empty());
    false
}

/// The maximum `LevelFilter` across `directives`, or `Off` when there is none:
/// the cheapest sound ceiling for rejecting records before full matching.
pub fn max_filter(directives: &[Directive]) -> (r: LevelFilter)
    ensures
        r == spec_max_filter(views(directives@)),
{
    let ghost models = views(directives@);
    let mut r = LevelFilter::Off;
    let mut i: usize = 0;
    while i < directives.len()
        invariant
            i <= directives@.len(),
            models == views(directives@),
            r == spec_max_filter(models.take(i as int)),
        decreases directives@.len() - i,
    {
        proof {
            assert(models.take(i as int + 1).last() == models[i as int]);
            assert(models.take(i as int + 1).drop_last() =~= models.take(i as int));
        }
        let d = &directives[i];
        if d.level.as_index() > r.as_index() {
            r = d.level;
        }
        i += 1;
    }
    assert(models.take(directives@.len() as int) =~= models);
    r
}

/// An empty directive set denies every record: `enabled` is `false` for every
/// level and every target.
pub proof fn lemma_empty_denies_all(level: Level, target: Seq<char>)
    ensures
        !spec_enabled(Seq::<DirectiveModel>::empty(), level, target),
{
}

/// A global fallback directive appended last makes the decision depend on the
/// record's level alone: for every target, a record passes exactly when its
/// level is within the fallback's threshold.
pub proof fn lemma_global_fallback(
    dirs: Seq<DirectiveModel>,
    threshold: LevelFilter,
    level: Level,
    target: Seq<char>,
)
    requires
        dirs.len() > 0,
        dirs.last().name is None,
        dirs.last().level == threshold,
    ensures
        spec_enabled(dirs, level, target) == (level_num(level) <= filter_num(threshold)),
{
}

/// The most recently appended applicable directive wins: if the directive at
/// position `j` applies to `target` and no later one does, that directive
/// alone decides. With directives arranged from least to most specific, this
/// is the longest-prefix-match policy.
pub proof fn lemma_most_recent_match_wins(
    dirs: Seq<DirectiveModel>,
    level: Level,
    target: Seq<char>,
    j: int,
)
    requires
        0 <= j < dirs.len(),
        model_matches(dirs[j], target),
        forall|k: int| j < k < dirs.len() ==> !model_matches(dirs[k], target),
    ensures
        spec_enabled(dirs, level, target) == (level_num(level) <= filter_num(dirs[j].level)),
    decreases dirs.len(),
{
    if j == dirs.len() - 1 {
    } else {
        assert(!model_matches(dirs.last(), target));
        assert(dirs.drop_last()[j] == dirs[j]);
        lemma_most_recent_match_wins(dirs.drop_last(), level, target, j);
    }
}

/// Soundness of the ceiling: every enabled record's level is within the
/// maximum filter, so rejecting records above the ceiling loses nothing.
pub proof fn lemma_enabled_within_ceiling(
    dirs: Seq<DirectiveModel>,
    level: Level,
    target: Seq<char>,
)
    requires
        spec_enabled(dirs, level, target),
    ensures
        level_num(level) <= filter_num(spec_max_filter(dirs)),
    decreases dirs.len(),
{
    if dirs.len() > 0 {
        if model_matches(dirs.last(), target) {
        } else {
            lemma_enabled_within_ceiling(dirs.drop_last(), level, target);
        }
    }
}

} // verus!
