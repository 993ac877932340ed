//! The logger facade: the installed state, the per-record decision and line
//! rendering, and once-only initialization.

use vstd::prelude::*;

use crate::caps::PlatformCaps;
use crate::colors::fg_ansi;
use crate::colors::fg_ansi_chars;
use crate::colors::fg_light_white;
use crate::colors::fg_light_yellow;
use crate::colors::fg_reset;
use crate::colors::fg_reset_chars;
use crate::colors::level_color;
use crate::colors::spec_level_color;
use crate::decfmt::pad_right;
use crate::decfmt::spaces;
use crate::directive::Directive;
use crate::directive::MAX_DIRECTIVES;
use crate::directive::views;
use crate::engine::enabled;
use crate::engine::max_filter;
use crate::engine::spec_enabled;
use crate::engine::spec_max_filter;
use crate::levels::Level;
use crate::levels::LevelFilter;
use crate::levels::level_name;
use crate::levels::spec_level_name;
use crate::parse::parse_args;
use crate::parse::spec_parse;
use crate::parse::take_at_most;
use crate::time::ElapsedTime;
use crate::time::spec_elapsed_chars;
use crate::writer::Writer;

verus! {

/// The installed state of the logging facility.
pub struct KLogger {
    /// A cycle counter is available.
    pub has_tsc: bool,
    /// The counter is invariant, so cycle deltas can mean time.
    pub has_invariant_tsc: bool,
    /// Counter reading at initialization.
    pub tsc_start: u64,
    /// Counter frequency in Hz, when one could be determined.
    pub tsc_frequency: Option<u64>,
    /// The filter directives, in specification order.
    pub filter: Vec<Directive>,
}

/// The elapsed value the logger reports when the counter currently reads
/// `now`: nothing without a counter; nanoseconds when the counter is
/// invariant, a positive frequency is known and the conversion fits;
/// otherwise the raw cycle delta, labeled as such.
pub open spec fn spec_elapsed(l: KLogger, now: u64) -> ElapsedTime {
    if !l.has_tsc {
        ElapsedTime::Undetermined
    } else {
        match l.tsc_frequency {
            Some(f) => {
                if l.has_invariant_tsc && f > 0 && (now - l.tsc_start) * 1_000_000_000 / (f as int)
                    <= u64::MAX {
                    ElapsedTime::Nanoseconds(
                        ((now - l.tsc_start) * 1_000_000_000 / (f as int)) as u64,
                    )
                } else {
                    ElapsedTime::Cycles((now - l.tsc_start) as u64)
                }
            },
            None => ElapsedTime::Cycles((now - l.tsc_start) as u64),
        }
    }
}

/// One full output line: the elapsed field in light yellow, the level tag in
/// its severity color inside brackets and padded to five columns, then the
/// target and the message, terminated for the serial line.
pub open spec fn spec_render_line(
    e: ElapsedTime,
    level: Level,
    target: Seq<char>,
    message: Seq<char>,
) -> Seq<char> {
    fg_ansi_chars(11) + spec_elapsed_chars(e) + fg_reset_chars() + " ["@ + fg_ansi_chars(
        spec_level_color(level),
    ) + spec_level_name(level) + spaces(5 - spec_level_name(level).len()) + fg_reset_chars()
        + "] - "@ + target + ": "@ + fg_ansi_chars(15) + message + fg_reset_chars() + "\r\n"@
}

impl KLogger {
    /// Elapsed time since initialization, given the counter's current
    /// reading. The counter is monotonic, so the reading is at least the
    /// recorded start.
    pub fn elapsed(&self, now: u64) -> (e: ElapsedTime)
        requires
            self.has_tsc ==> self.tsc_start <= now,
        ensures
            e == spec_elapsed(*self, now),
    {
        if self.has_tsc {
            let delta = now - self.tsc_start;
            match self.tsc_frequency {
                Some(f) => {
                    if self.has_invariant_tsc && f > 0 {
                        proof {
                            assert((delta as int) * 1_000_000_000 <= (u64::MAX as int)
                                * 1_000_000_000) by (nonlinear_arith)
                                requires
                                    delta <= u64::MAX,
                            ;
                        }
                        let wide: u128 = (delta as u128) * 1_000_000_000u128 / (f as u128);
                        if wide <= u64::MAX as u128 {
                            ElapsedTime::Nanoseconds(wide as u64)
                        } else {
                            ElapsedTime::Cycles(delta)
                        }
                    } else {
                        ElapsedTime::Cycles(delta)
                    }
                },
                None => ElapsedTime::Cycles(delta),
            }
        } else {
            ElapsedTime::Undetermined
        }
    }

    /// Returns the maximum `LevelFilter` that this logger is configured to
    /// output: the ceiling for cheap rejection of records.
    pub fn filter(&self) -> (r: LevelFilter)
        ensures
            r == spec_max_filter(views(self.filter@)),
    {
        max_filter(self.filter.as_slice())
    }

    /// A record at `level` for `target` passes this logger's directives.
    pub fn enabled(&self, level: Level, target: &str) -> (r: bool)
        ensures
            r == spec_enabled(views(self.filter@), level, target@),
    {
        enabled(self.filter.as_slice(), level, target)
    }

    /// Decide and render one record: the finished output line exactly when
    /// the record is enabled, nothing otherwise.
    pub fn log(&self, level: Level, target: &str, message: &str, now: u64) -> (out: Option<
        String,
    >)
        requires
            self.has_tsc ==> self.tsc_start <= now,
        ensures
            out is Some <==> spec_enabled(views(self.filter@), level, target@),
            out matches Some(line) ==> line@ == spec_render_line(
                spec_elapsed(*self, now),
                level,
                target@,
                message@,
            ),
    {
        if !self.enabled(level, target) {
            return None;
        }
        let e = self.elapsed(now);
        let mut w = Writer::get();
        let piece = fg_light_yellow();
        w.write_str(piece.as_str());
        let piece = e.render();
        w.write_str(piece.as_str());
        let piece = fg_reset();
        w.write_str(piece.as_str());
        w.write_str(" [");
        let piece = fg_ansi(level_color(level));
        w.write_str(piece.as_str());
        let piece = pad_right(level_name(level), 5);
        w.write_str(piece.as_str());
        let piece = fg_reset();
        w.write_str(piece.as_str());
        w.write_str("] - ");
        w.write_str(target);
        w.write_str(": ");
        let piece = fg_light_white();
        w.write_str(piece.as_str());
        w.write_str(message);
        let piece = fg_reset();
        w.write_str(piece.as_str());
        let line = w.finish();
        assert(line@ =~= spec_render_line(spec_elapsed(*self, now), level, target@, message@));
        Some(line)
    }
}

/// The three shapes of the elapsed field, stated over the installed state:
/// no counter means `Undetermined`; a counter without a usable frequency
/// means raw `Cycles`; an invariant counter with a known positive frequency
/// means `Nanoseconds` computed as `delta * 1_000_000_000 / frequency`
/// whenever that value fits the result type.
pub proof fn lemma_elapsed_cases(l: KLogger, now: u64)
    requires
        l.tsc_start <= now,
    ensures
        !l.has_tsc ==> spec_elapsed(l, now) == ElapsedTime::Undetermined,
        l.has_tsc && (l.tsc_frequency is None || !l.has_invariant_tsc) ==> spec_elapsed(l, now)
            == ElapsedTime::Cycles((now - l.tsc_start) as u64),
        forall|f: u64|
            l.has_tsc && l.has_invariant_tsc && l.tsc_frequency == Some(f) && f > 0 && (now
                - l.tsc_start) * 1_000_000_000 / (f as int) <= u64::MAX ==> spec_elapsed(l, now)
                == ElapsedTime::Nanoseconds(((now - l.tsc_start) * 1_000_000_000 / (f as int)) as u64),
{
}

/// The process-wide installation cell: empty until the one successful
/// initialization, never changed afterward. The embedding system is expected
/// to hold it in a synchronized, write-once location.
pub struct LoggerCell {
    /// The installed logger, `None` while uninitialized.
    pub state: Option<KLogger>,
    /// Selector of the physical output line.
    pub port: u16,
}

/// A second initialization was attempted; the first installation stands.
#[derive(Clone, Copy, PartialEq, Eq, Structural, Debug)]
pub struct AlreadyInitialized;

impl LoggerCell {
    /// A fresh, uninitialized cell; output defaults to the conventional
    /// first serial port.
    pub fn new() -> (c: LoggerCell)
        ensures
            c.state is None,
            c.port == 0x3f8,
    {
        LoggerCell { state: None, port: 0x3f8 }
    }
}

/// Select which physical line receives output.
pub fn set_output(cell: &mut LoggerCell, port: u16)
    ensures
        final(cell).port == port,
        final(cell).state == old(cell).state,
{
    cell.port = port;
}

/// The frequency installed at initialization: local calibration when it
/// succeeded, else the virtualization host's report, else unknown.
pub open spec fn spec_frequency_choice(caps: PlatformCaps) -> Option<u64> {
    if caps.tsc_frequency_hz is Some {
        caps.tsc_frequency_hz
    } else if caps.vmm_tsc_frequency_hz is Some {
        caps.vmm_tsc_frequency_hz
    } else {
        None
    }
}

/// Initialize the logging facility: select the output line, record the
/// timing capabilities, parse the filter specification and install the
/// assembled state. Exactly one initialization can succeed; a later call
/// fails and leaves the installed state untouched (though it still selects
/// the output line, which is not part of the installation).
pub fn init(cell: &mut LoggerCell, args: &str, output_indicator: u16, caps: &PlatformCaps) -> (r:
    Result<(), AlreadyInitialized>)
    ensures
        final(cell).port == output_indicator,
        old(cell).state is Some ==> r is Err && final(cell).state == old(cell).state,
        old(cell).state is None ==> r is Ok && (match final(cell).state {
            Some(k) => {
                &&& k.has_tsc == caps.has_tsc
                &&& k.has_invariant_tsc == caps.has_invariant_tsc
                &&& k.tsc_start == (if caps.has_tsc {
                    caps.counter
                } else {
                    0u64
                })
                &&& k.tsc_frequency == spec_frequency_choice(*caps)
                &&& views(k.filter@) == take_at_most(spec_parse(args@), MAX_DIRECTIVES as int)
                &&& k.filter@.len() <= MAX_DIRECTIVES
            },
            None => false,
        }),
{
    set_output(cell, output_indicator);
    if cell.state.is_some() {
        return Err(AlreadyInitialized);
    }
    let tsc_frequency = match caps.tsc_frequency_hz {
        Some(f) => Some(f),
        None => match caps.vmm_tsc_frequency_hz {
            Some(f) => Some(f),
            None => None,
        },
    };
    let mut directives: Vec<Directive> = Vec::new();
    parse_args(&mut directives, args);
    proof {
        assert(views(Seq::<Directive>::empty()) =~= Seq::<
            crate::directive::DirectiveModel,
        >::empty());
        assert(views(directives@).len() == directives@.len());
    }
    let logger = KLogger {
        has_tsc: caps.has_tsc,
        has_invariant_tsc: caps.has_invariant_tsc,
        tsc_start: if caps.has_tsc {
            caps.counter
        } else {
            0
        },
        tsc_frequency,
        filter: directives,
    };
    cell.state = Some(logger);
    Ok(())
}

} // verus!
