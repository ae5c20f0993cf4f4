//! Workspace navigation for a tiling window manager with several outputs
//! arranged left to right.
//!
//! Given the current workspace number, the output it sits on, and a direction,
//! the library decides which workspace to switch to next: it scans within the
//! current output's decade (workspace numbers 1 through 10), skipping numbers
//! that do not exist or belong to another output, and rolls over to the
//! neighbouring output's first or last workspace once the decade is exhausted.
//!
//! The library is pure: it works on a snapshot of compositor state handed in
//! as plain values. Talking to the compositor is the caller's business.

use vstd::prelude::*;

pub mod direction;
pub mod engine;
pub mod locator;
pub mod registry;
pub mod wsnum;

verus! {

/// Why a navigation pass could not produce a decision.
#[derive(Clone, Copy, PartialEq, Eq, Structural, Debug)]
pub enum NavError {
    /// The current output is absent from the registry: the snapshot is
    /// inconsistent, since the current output was taken from the same state.
    NotFound,
    /// An output that should own at least one workspace owns none.
    LookupError,
}

} // verus!
