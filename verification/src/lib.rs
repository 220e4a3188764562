//! Batch HTTP fetching: the rules that turn what each request came to into an
//! ordered list of tagged outcomes.
//!
//! The network work itself (sending, waiting, reading bodies) is done by the
//! caller; this crate decides what every result of that work means and keeps
//! the outcomes in the order of the requests.

pub mod batch;
pub mod board;
pub mod outcome;
pub mod transport;
