//! Best-effort elapsed time, produced fresh for every emitted line.

use vstd::prelude::*;

use crate::decfmt::spaces;
use crate::decfmt::spec_dec;
use crate::decfmt::pad_left;
use crate::decfmt::u64_to_dec;

verus! {

/// The elapsed-time tag of one line. `Undetermined` when no counter is
/// available; raw `Cycles` when a counter exists but cannot be converted to
/// wall time; `Nanoseconds` when the counter is invariant and a calibrated
/// frequency is known.
#[derive(Clone, Copy, PartialEq, Eq, Structural, Debug)]
pub enum ElapsedTime {
    Undetermined,
    Nanoseconds(u64),
    Cycles(u64),
}

/// The characters the elapsed field contributes to a line: a count
/// right-justified in ten columns, cycles marked `" cyc"` so that they are
/// not mistaken for nanoseconds, nothing when undetermined.
pub open spec fn spec_elapsed_chars(e: ElapsedTime) -> Seq<char> {
    match e {
        ElapsedTime::Undetermined => Seq::<char>::empty(),
        ElapsedTime::Nanoseconds(ns) => spaces(10 - spec_dec(ns as int).len()) + spec_dec(
            ns as int,
        ),
        ElapsedTime::Cycles(c) => spaces(10 - spec_dec(c as int).len()) + spec_dec(c as int)
            + " cyc"@,
    }
}

impl ElapsedTime {
    /// Render the elapsed field.
    pub fn render(&self) -> (s: String)
        ensures
            s@ == spec_elapsed_chars(*self),
    {
        match self {
            ElapsedTime::Undetermined => String::new(),
            ElapsedTime::Nanoseconds(ns) => {
                let d = u64_to_dec(*ns);
                pad_left(d.as_str(), 10)
            },
            ElapsedTime::Cycles(c) => {
                let d = u64_to_dec(*c);
                let mut s = pad_left(d.as_str(), 10);
                s.append(" cyc");
                s
            },
        }
    }
}

} // verus!
