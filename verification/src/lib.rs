//! A verified core for a `find`-like search tool.
//!
//! The crate decides which entries of a directory walk are printed. The walk
//! itself, the command line and the printing belong to the program around the
//! library: it hands the library what it observed, one observation per entry,
//! and prints what the library tells it to.
//!
//! * [`entry`]: kinds of entries and what a walk observes.
//! * [`path`]: the base name of a path.
//! * [`pattern`]: compiled name patterns.
//! * [`config`]: the validated search configuration.
//! * [`filter`]: the type and name predicates.
//! * [`search`]: what is printed for one observation and for a whole walk.

pub mod config;
pub mod entry;
pub mod filter;
pub mod path;
pub mod pattern;
pub mod search;

pub use config::{get_args, Config, InvalidName};
pub use entry::{Entry, EntryType, WalkObservation};
pub use path::base_name;
pub use search::{observe, run, Output};
