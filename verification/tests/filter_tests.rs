use klogger::Directive;
use klogger::Level;
use klogger::LevelFilter;
use klogger::enabled;
use klogger::parse_args;

#[test]
fn filter_info() {
    let mut filter: Vec<Directive> = Vec::new();
    filter.push(Directive {
        name: None,
        level: LevelFilter::Info,
    });
    assert!(enabled(&filter, Level::Info, "crate1"));
    assert!(!enabled(&filter, Level::Debug, "crate1"));
}

#[test]
fn filter_beginning_longest_match() {
    let mut filter: Vec<Directive> = Vec::new();
    filter.push(Directive {
        name: Some(String::from("crate2")),
        level: LevelFilter::Info,
    });
    filter.push(Directive {
        name: Some(String::from("crate2::mod")),
        level: LevelFilter::Debug,
    });
    filter.push(Directive {
        name: Some(String::from("crate1::mod1")),
        level: LevelFilter::Warn,
    });
    assert!(enabled(&filter, Level::Debug, "crate2::mod1"));
    assert!(!enabled(&filter, Level::Debug, "crate2"));
}

#[test]
fn parse_default() {
    let mut filter: Vec<Directive> = Vec::new();
    parse_args(&mut filter, "info,crate1::mod1=warn");
    assert!(enabled(&filter, Level::Warn, "crate1::mod1"));
    assert!(enabled(&filter, Level::Info, "crate2::mod2"));
}

#[test]
fn match_full_path() {
    let logger = vec![
        Directive {
            name: Some(String::from("crate2")),
            level: LevelFilter::Info,
        },
        Directive {
            name: Some(String::from("crate1::mod1")),
            level: LevelFilter::Warn,
        },
    ];
    assert!(enabled(&logger, Level::Warn, "crate1::mod1"));
    assert!(!enabled(&logger, Level::Info, "crate1::mod1"));
    assert!(enabled(&logger, Level::Info, "crate2"));
    assert!(!enabled(&logger, Level::Debug, "crate2"));
}

#[test]
fn no_match() {
    let logger = vec![
        Directive {
            name: Some(String::from("crate2")),
            level: LevelFilter::Info,
        },
        Directive {
            name: Some(String::from("crate1::mod1")),
            level: LevelFilter::Warn,
        },
    ];
    assert!(!enabled(&logger, Level::Warn, "crate3"));
}

#[test]
fn match_beginning() {
    let logger = vec![
        Directive {
            name: Some(String::from("crate2")),
            level: LevelFilter::Info,
        },
        Directive {
            name: Some(String::from("crate1::mod1")),
            level: LevelFilter::Warn,
        },
    ];
    assert!(enabled(&logger, Level::Info, "crate2::mod1"));
}

#[test]
fn match_beginning_longest_match() {
    let logger = vec![
        Directive {
            name: Some(String::from("crate2")),
            level: LevelFilter::Info,
        },
        Directive {
            name: Some(String::from("crate2::mod")),
            level: LevelFilter::Debug,
        },
        Directive {
            name: Some(String::from("crate1::mod1")),
            level: LevelFilter::Warn,
        },
    ];
    assert!(enabled(&logger, Level::Debug, "crate2::mod1"));
    assert!(!enabled(&logger, Level::Debug, "crate2"));
}

#[test]
fn match_default() {
    let logger = vec![
        Directive {
            name: None,
            level: LevelFilter::Info,
        },
        Directive {
            name: Some(String::from("crate1::mod1")),
            level: LevelFilter::Warn,
        },
    ];
    assert!(enabled(&logger, Level::Warn, "crate1::mod1"));
    assert!(enabled(&logger, Level::Info, "crate2::mod2"));
}

#[test]
fn zero_level() {
    let logger = vec![
        Directive {
            name: None,
            level: LevelFilter::Info,
        },
        Directive {
            name: Some(String::from("crate1::mod1")),
            level: LevelFilter::Off,
        },
    ];
    assert!(!enabled(&logger, Level::Error, "crate1::mod1"));
    assert!(enabled(&logger, Level::Info, "crate2::mod2"));
}

#[test]
fn parse_args_valid() {
    let mut dirs: Vec<Directive> = Vec::new();
    parse_args(&mut dirs, "crate1::mod1=error,crate1::mod2,crate2=debug");

    assert_eq!(dirs.len(), 3);
    assert_eq!(dirs[0].name, Some(String::from("crate1::mod1")));
    assert_eq!(dirs[0].level, LevelFilter::Error);

    assert_eq!(dirs[1].name, Some(String::from("crate1::mod2")));
    assert_eq!(dirs[1].level, LevelFilter::max());

    assert_eq!(dirs[2].name, Some(String::from("crate2")));
    assert_eq!(dirs[2].level, LevelFilter::Debug);
}

#[test]
fn parse_spec_invalid_crate() {
    // test parse_spec with multiple = in specification
    let mut dirs: Vec<Directive> = Vec::new();
    parse_args(&mut dirs, "crate1::mod1=warn=info,crate2=debug");

    assert_eq!(dirs.len(), 1);
    assert_eq!(dirs[0].name, Some(String::from("crate2")));
    assert_eq!(dirs[0].level, LevelFilter::Debug);
}

#[test]
fn parse_spec_invalid_level() {
    // test parse_spec with 'noNumber' as log level
    let mut dirs: Vec<Directive> = Vec::new();
    parse_args(&mut dirs, "crate1::mod1=noNumber,crate2=debug");

    assert_eq!(dirs.len(), 1);
    assert_eq!(dirs[0].name, Some(String::from("crate2")));
    assert_eq!(dirs[0].level, LevelFilter::Debug);
}

#[test]
fn parse_spec_string_level() {
    // test parse_spec with 'warn' as log level
    let mut dirs: Vec<Directive> = Vec::new();
    parse_args(&mut dirs, "crate1::mod1=wrong,crate2=warn");

    assert_eq!(dirs.len(), 1);
    assert_eq!(dirs[0].name, Some(String::from("crate2")));
    assert_eq!(dirs[0].level, LevelFilter::Warn);
}

#[test]
fn parse_spec_empty_level() {
    // test parse_spec with '' as log level
    let mut dirs: Vec<Directive> = Vec::new();
    parse_args(&mut dirs, "crate1::mod1=wrong,crate2=");

    assert_eq!(dirs.len(), 1);
    assert_eq!(dirs[0].name, Some(String::from("crate2")));
    assert_eq!(dirs[0].level, LevelFilter::max());
}

#[test]
fn parse_spec_global() {
    // test parse_spec with no crate
    let mut dirs: Vec<Directive> = Vec::new();
    parse_args(&mut dirs, "warn,crate2=debug");

    assert_eq!(dirs.len(), 2);
    assert_eq!(dirs[0].name, None);
    assert_eq!(dirs[0].level, LevelFilter::Warn);
    assert_eq!(dirs[1].name, Some(String::from("crate2")));
    assert_eq!(dirs[1].level, LevelFilter::Debug);
}
