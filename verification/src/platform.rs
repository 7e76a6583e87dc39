//! The interface between a chip and the peripheral set that the kernel builds for it.

use vstd::prelude::*;

verus! {

/// Peripheral-specific interrupt handling, implemented by whatever owns the
/// peripheral drivers of a chip.
pub trait InterruptService {
    /// Services interrupt line `interrupt` and reports whether the line
    /// belongs to one of the peripherals. `false` means that nothing was done.
    fn service_interrupt(&self, interrupt: u32) -> (handled: bool)
        ensures
            handled == self.handles(interrupt),
    ;

    /// Line `interrupt` belongs to one of the peripherals.
    spec fn handles(&self, interrupt: u32) -> bool;
}

} // verus!
