//! Decisions of a DNS layer for an HTTP client: which resolver is asked for
//! which name, which port an answer gets, and which pooled connections an
//! answer has made obsolete.
//!
//! The crate performs no I/O. A caller asks for a step, performs it, and hands
//! the outcome back.

pub mod addr;
pub mod laws;
pub mod name;
pub mod overrides;
pub mod resolver;
pub mod target;
pub mod tracking;
