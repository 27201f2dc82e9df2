//! Herdr-facing logic: caller context, response interpretation, session
//! mapping, and action validation. The process, socket, and clock work that
//! talks to Herdr lives outside the library and hands its results in.

pub mod context;
pub mod create;
pub mod detail;
pub mod inspect;
pub mod focus;
pub mod protocol;
pub mod socket;
