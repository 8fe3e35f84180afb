//! Health-decision and bounded-retry engine for confirming or rolling back
//! a booted software update.
//!
//! The crate parses an init system's service-status report into a snapshot,
//! evaluates that snapshot against a required-service policy, and drives a
//! poll-until-healthy-or-timeout loop through injected collaborators, so the
//! whole decision path can be exercised without real time or subprocesses.

pub mod cmd;
pub mod config;
pub mod controller;
pub mod openrc;
pub mod rauc;
pub mod status;
pub mod text;
