//! The timer a recorder's driver needs from the platform.

use vstd::prelude::*;

verus! {

/// Delays for the recorder's driver.
pub trait Sdi12Timer {
    /// Delay for at least `us` microseconds.
    fn delay_us(&mut self, us: u32);

    /// Delay for at least `ms` milliseconds.
    fn delay_ms(&mut self, ms: u32);
}

} // verus!
