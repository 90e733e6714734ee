//! Backend library of a desktop control panel for the locally running
//! `openclaw` gateway service.
//!
//! The service is externally owned: the only ground truth about it is the
//! operating system's socket table, observed by running a probe tool and
//! parsing its output. The library therefore has two verified halves:
//!
//! - parsers for the probe tools' output (`bytes`, `inspector`), and
//! - the service supervisor as explicit state machines (`supervisor`),
//!   which decide, step by step, what the next external action is; an
//!   unverified driver performs the probes, spawns, sleeps and kills and
//!   feeds the observed events back.

use vstd::prelude::*;

pub mod bytes;
pub mod config;
pub mod inspector;
pub mod laws;
pub mod skills;
pub mod status;
pub mod supervisor;

verus! {

/// Fixed TCP port on which the supervised gateway service listens.
pub const SERVICE_PORT: u16 = 18789;

} // verus!
