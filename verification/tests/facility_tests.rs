use klogger::AlreadyInitialized;
use klogger::Directive;
use klogger::ElapsedTime;
use klogger::KLogger;
use klogger::Level;
use klogger::LevelFilter;
use klogger::LoggerCell;
use klogger::PlatformCaps;
use klogger::TscInfo;
use klogger::Writer;
use klogger::WriterNoDrop;
use klogger::enabled;
use klogger::get_timestamp;
use klogger::get_tsc_frequency_hz;
use klogger::get_vmm_tsc_frequency_hz;
use klogger::has_invariant_tsc;
use klogger::has_tsc;
use klogger::init;
use klogger::levels::parse_level_filter;
use klogger::max_filter;
use klogger::parse_args;
use klogger::set_output;

fn no_counter_caps() -> PlatformCaps {
    PlatformCaps {
        has_tsc: false,
        has_invariant_tsc: false,
        counter: 0,
        tsc_frequency_hz: None,
        vmm_tsc_frequency_hz: None,
    }
}

#[test]
fn empty_directives_deny_everything() {
    let dirs: Vec<Directive> = Vec::new();
    assert!(!enabled(&dirs, Level::Error, "crate1"));
    assert!(!enabled(&dirs, Level::Warn, ""));
    assert!(!enabled(&dirs, Level::Trace, "crate2::mod1"));
}

#[test]
fn global_fallback_ignores_target() {
    let dirs = vec![Directive {
        name: None,
        level: LevelFilter::Warn,
    }];
    for target in ["", "crate1", "crate2::mod1", "anything/else"] {
        assert!(enabled(&dirs, Level::Error, target));
        assert!(enabled(&dirs, Level::Warn, target));
        assert!(!enabled(&dirs, Level::Info, target));
    }
}

#[test]
fn most_specific_declared_last_wins() {
    let dirs = vec![
        Directive {
            name: Some(String::from("crate2")),
            level: LevelFilter::Info,
        },
        Directive {
            name: Some(String::from("crate2::mod")),
            level: LevelFilter::Debug,
        },
    ];
    assert!(enabled(&dirs, Level::Debug, "crate2::mod1"));
    assert!(!enabled(&dirs, Level::Debug, "crate2"));
}

#[test]
fn two_slashes_deny_all() {
    let mut dirs: Vec<Directive> = Vec::new();
    parse_args(&mut dirs, "info,crate1=debug/tail/more");
    assert_eq!(dirs.len(), 0);

    let mut dirs: Vec<Directive> = Vec::new();
    parse_args(&mut dirs, "//");
    assert_eq!(dirs.len(), 0);
}

#[test]
fn single_slash_tail_ignored() {
    let mut dirs: Vec<Directive> = Vec::new();
    parse_args(&mut dirs, "info,crate1=debug/whatever,comes=after");
    assert_eq!(dirs.len(), 2);
    assert_eq!(dirs[0].name, None);
    assert_eq!(dirs[0].level, LevelFilter::Info);
    assert_eq!(dirs[1].name, Some(String::from("crate1")));
    assert_eq!(dirs[1].level, LevelFilter::Debug);
}

#[test]
fn parse_numeric_levels() {
    let mut dirs: Vec<Directive> = Vec::new();
    parse_args(&mut dirs, "2,crate1=0,crate2=5");
    assert_eq!(dirs.len(), 3);
    assert_eq!(dirs[0].name, None);
    assert_eq!(dirs[0].level, LevelFilter::Warn);
    assert_eq!(dirs[1].name, Some(String::from("crate1")));
    assert_eq!(dirs[1].level, LevelFilter::Off);
    assert_eq!(dirs[2].name, Some(String::from("crate2")));
    assert_eq!(dirs[2].level, LevelFilter::Trace);
}

#[test]
fn numeric_out_of_range_is_a_target() {
    // "7" is not a valid level, so it names a target enabled at max level.
    let mut dirs: Vec<Directive> = Vec::new();
    parse_args(&mut dirs, "7");
    assert_eq!(dirs.len(), 1);
    assert_eq!(dirs[0].name, Some(String::from("7")));
    assert_eq!(dirs[0].level, LevelFilter::Trace);
}

#[test]
fn parse_level_names_case_insensitive() {
    assert_eq!(parse_level_filter("WaRn"), Some(LevelFilter::Warn));
    assert_eq!(parse_level_filter("OFF"), Some(LevelFilter::Off));
    assert_eq!(parse_level_filter("Trace"), Some(LevelFilter::Trace));
    assert_eq!(parse_level_filter("ERRor"), Some(LevelFilter::Error));
    assert_eq!(parse_level_filter("warning"), None);
    assert_eq!(parse_level_filter(""), None);
    assert_eq!(parse_level_filter(" warn"), None);
}

#[test]
fn level_token_is_trimmed_only_after_equals() {
    let mut dirs: Vec<Directive> = Vec::new();
    parse_args(&mut dirs, "crate2= debug ");
    assert_eq!(dirs.len(), 1);
    assert_eq!(dirs[0].name, Some(String::from("crate2")));
    assert_eq!(dirs[0].level, LevelFilter::Debug);

    // Before an '=', nothing is trimmed: " info" names a target.
    let mut dirs: Vec<Directive> = Vec::new();
    parse_args(&mut dirs, " info");
    assert_eq!(dirs.len(), 1);
    assert_eq!(dirs[0].name, Some(String::from(" info")));
    assert_eq!(dirs[0].level, LevelFilter::Trace);
}

#[test]
fn empty_segments_are_skipped() {
    let mut dirs: Vec<Directive> = Vec::new();
    parse_args(&mut dirs, ",,info,,");
    assert_eq!(dirs.len(), 1);
    assert_eq!(dirs[0].name, None);
    assert_eq!(dirs[0].level, LevelFilter::Info);
}

#[test]
fn capacity_overflow_drops_excess() {
    let mut dirs: Vec<Directive> = Vec::new();
    parse_args(&mut dirs, "a=1,b=2,c=3,d=4,e=5,f=1,g=2,h=3,i=4,j=5");
    assert_eq!(dirs.len(), 8);
    assert_eq!(dirs[0].name, Some(String::from("a")));
    assert_eq!(dirs[7].name, Some(String::from("h")));
    assert_eq!(dirs[7].level, LevelFilter::Info);
}

#[test]
fn max_filter_over_directives() {
    let dirs: Vec<Directive> = Vec::new();
    assert_eq!(max_filter(&dirs), LevelFilter::Off);

    let mut dirs: Vec<Directive> = Vec::new();
    parse_args(&mut dirs, "crate1=warn,crate2=error");
    assert_eq!(max_filter(&dirs), LevelFilter::Warn);

    let mut dirs: Vec<Directive> = Vec::new();
    parse_args(&mut dirs, "crate1=warn,info");
    assert_eq!(max_filter(&dirs), LevelFilter::Info);
}

#[test]
fn elapsed_without_counter_is_undetermined() {
    let logger = KLogger {
        has_tsc: false,
        has_invariant_tsc: false,
        tsc_start: 0,
        tsc_frequency: Some(1_000_000_000),
        filter: Vec::new(),
    };
    assert_eq!(logger.elapsed(12345), ElapsedTime::Undetermined);
}

#[test]
fn elapsed_without_frequency_is_cycles() {
    let logger = KLogger {
        has_tsc: true,
        has_invariant_tsc: true,
        tsc_start: 100,
        tsc_frequency: None,
        filter: Vec::new(),
    };
    assert_eq!(logger.elapsed(223), ElapsedTime::Cycles(123));
}

#[test]
fn elapsed_without_invariance_is_cycles() {
    let logger = KLogger {
        has_tsc: true,
        has_invariant_tsc: false,
        tsc_start: 0,
        tsc_frequency: Some(1_000_000_000),
        filter: Vec::new(),
    };
    assert_eq!(logger.elapsed(500), ElapsedTime::Cycles(500));
}

#[test]
fn elapsed_zero_frequency_is_cycles() {
    let logger = KLogger {
        has_tsc: true,
        has_invariant_tsc: true,
        tsc_start: 0,
        tsc_frequency: Some(0),
        filter: Vec::new(),
    };
    assert_eq!(logger.elapsed(500), ElapsedTime::Cycles(500));
}

#[test]
fn elapsed_converts_cycles_to_nanoseconds() {
    let logger = KLogger {
        has_tsc: true,
        has_invariant_tsc: true,
        tsc_start: 1000,
        tsc_frequency: Some(3_000_000_000),
        filter: Vec::new(),
    };
    // 3000 cycles at 3 GHz are 1000 ns.
    assert_eq!(logger.elapsed(4000), ElapsedTime::Nanoseconds(1000));
    // Truncating division: 100 cycles at 3 GHz are 33 ns.
    assert_eq!(logger.elapsed(1100), ElapsedTime::Nanoseconds(33));

    let one_hz = KLogger {
        has_tsc: true,
        has_invariant_tsc: true,
        tsc_start: 0,
        tsc_frequency: Some(1),
        filter: Vec::new(),
    };
    // A delta of 2^62 at 1 Hz does not fit u64 nanoseconds; it stays cycles.
    assert_eq!(
        one_hz.elapsed(1u64 << 62),
        ElapsedTime::Cycles(1u64 << 62)
    );
}

#[test]
fn log_renders_enabled_record() {
    let mut filter: Vec<Directive> = Vec::new();
    parse_args(&mut filter, "info");
    let logger = KLogger {
        has_tsc: false,
        has_invariant_tsc: false,
        tsc_start: 0,
        tsc_frequency: None,
        filter,
    };
    let line = logger.log(Level::Info, "crate1", "hello", 0).unwrap();
    assert_eq!(
        line,
        "\u{1b}[38;5;11m\u{1b}[39m [\u{1b}[38;5;136mINFO \u{1b}[39m] - crate1: \u{1b}[38;5;15mhello\u{1b}[39m\r\n"
    );
}

#[test]
fn log_renders_cycle_timestamp() {
    let mut filter: Vec<Directive> = Vec::new();
    parse_args(&mut filter, "warn");
    let logger = KLogger {
        has_tsc: true,
        has_invariant_tsc: false,
        tsc_start: 100,
        tsc_frequency: None,
        filter,
    };
    let line = logger.log(Level::Error, "crate2::mod1", "boom", 223).unwrap();
    assert_eq!(
        line,
        "\u{1b}[38;5;11m       123 cyc\u{1b}[39m [\u{1b}[38;5;202mERROR\u{1b}[39m] - crate2::mod1: \u{1b}[38;5;15mboom\u{1b}[39m\r\n"
    );
}

#[test]
fn log_rejects_disabled_record() {
    let mut filter: Vec<Directive> = Vec::new();
    parse_args(&mut filter, "crate1=warn");
    let logger = KLogger {
        has_tsc: false,
        has_invariant_tsc: false,
        tsc_start: 0,
        tsc_frequency: None,
        filter,
    };
    assert!(logger.log(Level::Info, "crate1", "quiet", 0).is_none());
    assert!(logger.log(Level::Warn, "crate3", "quiet", 0).is_none());
}

#[test]
fn writer_assembles_terminated_line() {
    let mut w = Writer::get();
    w.write_str("hello ");
    w.write_str("world");
    assert_eq!(w.finish(), "hello world\r\n");
}

#[test]
fn writer_module_prefix() {
    let mut w = Writer::get_module("mod1");
    w.write_str("status");
    assert_eq!(w.finish(), "[mod1] status\r\n");
}

#[test]
fn writer_no_drop_appends_no_terminator() {
    let mut w = WriterNoDrop::get();
    w.write_str("panic: ");
    w.write_str("detail");
    assert_eq!(w.into_line(), "panic: detail");
}

#[test]
fn init_installs_parsed_state() {
    let mut cell = LoggerCell::new();
    let caps = PlatformCaps {
        has_tsc: true,
        has_invariant_tsc: true,
        counter: 42,
        tsc_frequency_hz: Some(1_000_000),
        vmm_tsc_frequency_hz: Some(2_000_000),
    };
    let r = init(&mut cell, "info,crate1=warn", 0x2f8, &caps);
    assert_eq!(r, Ok(()));
    assert_eq!(cell.port, 0x2f8);
    let state = cell.state.as_ref().unwrap();
    assert!(state.has_tsc);
    assert!(state.has_invariant_tsc);
    assert_eq!(state.tsc_start, 42);
    assert_eq!(state.tsc_frequency, Some(1_000_000));
    assert_eq!(state.filter.len(), 2);
    assert_eq!(state.filter[0].name, None);
    assert_eq!(state.filter[0].level, LevelFilter::Info);
    assert_eq!(state.filter[1].name, Some(String::from("crate1")));
    assert_eq!(state.filter[1].level, LevelFilter::Warn);
    assert_eq!(state.filter(), LevelFilter::Info);
}

#[test]
fn init_twice_fails_and_preserves_state() {
    let mut cell = LoggerCell::new();
    let caps = PlatformCaps {
        has_tsc: true,
        has_invariant_tsc: false,
        counter: 7,
        tsc_frequency_hz: None,
        vmm_tsc_frequency_hz: None,
    };
    assert_eq!(init(&mut cell, "debug", 0x3f8, &caps), Ok(()));

    let other_caps = PlatformCaps {
        has_tsc: false,
        has_invariant_tsc: false,
        counter: 0,
        tsc_frequency_hz: Some(123),
        vmm_tsc_frequency_hz: None,
    };
    let r = init(&mut cell, "crate9=error", 0x2e8, &other_caps);
    assert_eq!(r, Err(AlreadyInitialized));

    // The first installation's filter and timing state are unchanged.
    let state = cell.state.as_ref().unwrap();
    assert!(state.has_tsc);
    assert!(!state.has_invariant_tsc);
    assert_eq!(state.tsc_start, 7);
    assert_eq!(state.tsc_frequency, None);
    assert_eq!(state.filter.len(), 1);
    assert_eq!(state.filter[0].name, None);
    assert_eq!(state.filter[0].level, LevelFilter::Debug);
}

#[test]
fn init_without_counter_records_zero_epoch() {
    let mut cell = LoggerCell::new();
    let r = init(&mut cell, "", 0x3f8, &no_counter_caps());
    assert_eq!(r, Ok(()));
    let state = cell.state.as_ref().unwrap();
    assert!(!state.has_tsc);
    assert_eq!(state.tsc_start, 0);
    assert_eq!(state.tsc_frequency, None);
    assert_eq!(state.filter.len(), 0);
    assert_eq!(state.filter(), LevelFilter::Off);
}

#[test]
fn init_frequency_falls_back_to_vmm() {
    let mut cell = LoggerCell::new();
    let caps = PlatformCaps {
        has_tsc: true,
        has_invariant_tsc: true,
        counter: 1,
        tsc_frequency_hz: None,
        vmm_tsc_frequency_hz: Some(2_500_000_000),
    };
    assert_eq!(init(&mut cell, "trace", 0x3f8, &caps), Ok(()));
    assert_eq!(cell.state.as_ref().unwrap().tsc_frequency, Some(2_500_000_000));
}

#[test]
fn set_output_selects_port() {
    let mut cell = LoggerCell::new();
    assert_eq!(cell.port, 0x3f8);
    set_output(&mut cell, 0x2f8);
    assert_eq!(cell.port, 0x2f8);
    assert!(cell.state.is_none());
}

#[test]
fn capability_queries() {
    assert!(has_tsc(Some(true)));
    assert!(!has_tsc(Some(false)));
    assert!(!has_tsc(None));
    assert!(has_invariant_tsc(Some(true)));
    assert!(!has_invariant_tsc(None));
    assert_eq!(get_timestamp(), 0);
}

#[test]
fn tsc_frequency_from_crystal() {
    let info = TscInfo {
        denominator: 2,
        numerator: 188,
        nominal_frequency_hz: 38_400_000,
    };
    assert_eq!(
        get_tsc_frequency_hz(Some(info), None),
        Some(3_609_600_000)
    );
}

#[test]
fn tsc_frequency_from_base_frequency() {
    // No crystal frequency reported: approximate from a 3000 MHz base.
    let info = TscInfo {
        denominator: 2,
        numerator: 1,
        nominal_frequency_hz: 0,
    };
    assert_eq!(
        get_tsc_frequency_hz(Some(info), Some(3000)),
        Some(3_000_000_000)
    );
    assert_eq!(get_tsc_frequency_hz(Some(info), None), None);
}

#[test]
fn tsc_frequency_unknown() {
    assert_eq!(get_tsc_frequency_hz(None, Some(3000)), None);
    let info = TscInfo {
        denominator: 0,
        numerator: 5,
        nominal_frequency_hz: 38_400_000,
    };
    assert_eq!(get_tsc_frequency_hz(Some(info), None), None);
    let info = TscInfo {
        denominator: 2,
        numerator: 0,
        nominal_frequency_hz: 0,
    };
    assert_eq!(get_tsc_frequency_hz(Some(info), Some(2000)), None);
}

#[test]
fn vmm_frequency_conversion() {
    assert_eq!(get_vmm_tsc_frequency_hz(Some(3_000_000)), Some(3_000_000_000));
    assert_eq!(get_vmm_tsc_frequency_hz(None), None);
}
