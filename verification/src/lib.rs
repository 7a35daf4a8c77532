//! A filesystem minifilter core: the policy store, the decision engine, the
//! event queue and the driver lifecycle, each with a machine-checked contract.
//!
//! Everything here is pure logic over plain values. Registering callbacks with
//! the operating system, reading clocks and moving records to user mode belong
//! to the embedding driver.

use vstd::prelude::*;

pub mod pattern;
pub mod policy;
pub mod engine;
pub mod events;
pub mod control;
pub mod filter;

verus! {

/// Reports whether the driver can be active on the target platform.
///
/// The only supported target is Windows; the caller passes whether it was
/// built for it.
pub fn stub(windows: bool) -> (active: bool)
    ensures
        active == windows,
{
    windows
}

} // verus!
