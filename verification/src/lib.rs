//! Verified core of a multi-session PTY multiplexer.
//!
//! The library models the session registry, the focused-session pointer,
//! the event queue toward the presentation boundary, and the side channel
//! toward the directory watcher as explicit state, and verifies every
//! decision the multiplexer makes.  The operating-system work itself
//! (allocating pseudo-terminals, spawning shells, blocking reads and
//! waits) is performed by an unverified driver that consults this core
//! for every decision and reports every outcome back to it.

use vstd::prelude::*;

pub mod constant;
pub mod event;
pub mod file;
pub mod path;
pub mod session;
pub mod sort;
pub mod sys;
pub mod text;

verus! {

/// The distinguished primary session: when it closes, the whole
/// process is expected to shut down.
pub const PRIMARY_SESSION_ID: u8 = 0;

} // verus!
