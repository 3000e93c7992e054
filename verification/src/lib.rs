//! Passive bandwidth monitoring: a link-layer frame parser, an address-based
//! direction classifier and a sliding-window bandwidth aggregator.
//!
//! Every executable function in this crate carries a contract that Verus
//! proves; the few calls into code that Verus cannot see are marked
//! `external_body` and documented where they stand.

pub mod address;
pub mod bandwidth;
pub mod bytes;
pub mod capture;
pub mod classifier;
pub mod cli;
mod clock;
pub mod error;
pub mod frame;
pub mod laws;
pub mod oracle;
pub mod text;
