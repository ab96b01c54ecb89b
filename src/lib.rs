//! Resolution of the local time zone's offset from UTC: a transition table
//! read from a time-zone-information file, lookup of the offset at an instant,
//! and classification of a local reading as naming one, two or no instants.
use vstd::prelude::*;

pub mod error;
pub mod extrapolate;
pub mod local;
pub mod offset;
pub mod posix;
pub mod rules;
pub mod tzif;

pub use error::Error;
pub use extrapolate::{DstRule, ExtrapolationRule, RuleDay};
pub use local::{Date, DateTime, Local, NaiveDateTime};
pub use offset::{FixedOffset, LocalResult};
pub use posix::parse_rule_string;
pub use rules::{RuleSet, Transition};
pub use tzif::{parse_tzif, parse_tzif_rule};

verus! {

} // verus!
