//! A live registry of aircraft tracked from decoded ADS-B / Mode S telemetry.
//!
//! The core of the crate is the [`tracker::Tracker`] registry: it folds each
//! decoded message into the record of the aircraft the message names, buffers
//! the most recent positional frame of each parity and asks the external
//! resolver for a coordinate once both parities are present, and answers
//! recency-windowed snapshot queries. The registry logic is verified; the
//! message decoder and the positional resolver are external collaborators
//! reached through the trusted wrappers in [`ext`].

pub mod display;
pub mod ext;
pub mod laws;
pub mod msg;
pub mod tracker;

pub use display::fmt_value;
pub use msg::{CprFrame, DecodedMessage, Parity, Payload, RateSource};
pub use tracker::{Aircraft, Tracker};
