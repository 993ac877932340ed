//! Filter directives: one rule mapping an optional target-name prefix to a
//! minimum log level.

use vstd::prelude::*;

use crate::levels::LevelFilter;

verus! {

/// Capacity of a directive set: entries parsed beyond this many are dropped.
pub const MAX_DIRECTIVES: usize = 8;

/// One filter rule. `name` is a target prefix to which the rule applies;
/// `None` makes the rule a global fallback that applies to every target.
#[derive(Debug)]
pub struct Directive {
    pub name: Option<String>,
    pub level: LevelFilter,
}

/// The mathematical content of a [`Directive`]: the name as a character
/// sequence, and the threshold.
pub ghost struct DirectiveModel {
    pub name: Option<Seq<char>>,
    pub level: LevelFilter,
}

impl View for Directive {
    type V = DirectiveModel;

    open spec fn view(&self) -> DirectiveModel {
        DirectiveModel {
            name: match self.name {
                None => None,
                Some(n) => Some(n@),
            },
            level: self.level,
        }
    }
}

/// The models of a sequence of directives, in order.
pub open spec fn views(dirs: Seq<Directive>) -> Seq<DirectiveModel> {
    dirs.map_values(|d: Directive| d@)
}

} // verus!
