//! A concurrent transaction store with simulated apply lifecycles and
//! event broadcasting.
//!
//! The library tracks transactions (bundles of proposed file edits) as they
//! move through an apply lifecycle, and exposes the decision logic of the
//! simulation and reapply engines as verified state transitions. The
//! asynchronous shell (HTTP handlers, timers, task spawning) drives these
//! transitions from outside.

use vstd::prelude::*;

pub mod broadcast;
pub mod model;
pub mod reapply;
pub mod simulation;
pub mod store;
pub mod text;

verus! {

/// The default page number for transaction listings.
pub fn default_page() -> (r: usize)
    ensures
        r == 1,
{
    1
}

/// The default page size for transaction listings.
pub fn default_limit() -> (r: usize)
    ensures
        r == 15,
{
    15
}

} // verus!
