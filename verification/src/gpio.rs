//! The single-cycle IO block, as far as the chip needs it: the register that
//! tells a core which core it is.

use vstd::prelude::*;
use crate::chip::Processor;

verus! {

/// One core's view of the core-identification register.
#[derive(Clone, Copy, Debug)]
pub struct SIO {
    cpuid: Processor,
}

impl SIO {
    /// The core that reads this register.
    pub closed spec fn processor(&self) -> Processor {
        self.cpuid
    }

    /// The register as core `processor` reads it.
    pub fn new(processor: Processor) -> (sio: Self)
        ensures
            sio.processor() == processor,
    {
        SIO { cpuid: processor }
    }

    /// The core that is executing.
    pub fn get_processor(&self) -> (processor: Processor)
        ensures
            processor == self.processor(),
    {
        self.cpuid
    }
}

} // verus!
