//! Argument parsing and call-metrics bookkeeping for function instrumentation.
//!
//! `parse` reads the arguments of an instrumentation attribute, given as a
//! token tree, into an [`Args`] value; `laws` proves what holds of that
//! parse across argument lists; `tracker` decides which metric observations
//! one instrumented call produces.
pub mod decimal;
pub mod expr;
pub mod laws;
pub mod parse;
pub mod token;
pub mod tracker;

pub use decimal::Dec;
pub use parse::{
    fraction_of_percent, parse_args, read_alerts, read_latency, read_number, to_seconds, Alerts,
    Args, ErrorKind, Latency, Outcome, ParseError, TimeUnit,
};
pub use token::{item_kind, token_span, Delimiter, ItemKind, LitKind, SpanId, Spacing, Token};
pub use tracker::{Instrument, Label, Observation, Tracker, FUNCTION_KEY, MODULE_KEY};
