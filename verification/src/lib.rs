//! A minimal logging facility for bare-metal environments.
//!
//! Log records carry a severity [`levels::Level`] and a target string; an
//! operator-supplied filter specification decides which records are emitted.
//! The crate verifies the filter-directive language, the longest-prefix
//! matching policy, the elapsed-time computation used to timestamp lines, and
//! the rendering of each output line. The physical transport (a serial port or
//! UART) and the global installation of the logger are left to the embedding
//! system.

pub mod caps;
pub mod colors;
pub mod decfmt;
pub mod directive;
pub mod engine;
pub mod levels;
pub mod logger;
pub mod parse;
pub mod text;
pub mod time;
pub mod writer;

pub use caps::PlatformCaps;
pub use caps::TscInfo;
pub use caps::get_timestamp;
pub use caps::get_tsc_frequency_hz;
pub use caps::get_vmm_tsc_frequency_hz;
pub use caps::has_invariant_tsc;
pub use caps::has_tsc;
pub use directive::Directive;
pub use engine::enabled;
pub use engine::max_filter;
pub use levels::Level;
pub use levels::LevelFilter;
pub use logger::AlreadyInitialized;
pub use logger::KLogger;
pub use logger::LoggerCell;
pub use logger::init;
pub use logger::set_output;
pub use parse::parse_args;
pub use time::ElapsedTime;
pub use writer::Writer;
pub use writer::WriterNoDrop;
