//! The Cortex-M33 processor variant: which fixed entry point the processor
//! enters on which exception.

use vstd::prelude::*;

verus! {

/// Exception number of the hard fault.
pub const HARD_FAULT_EXCEPTION: u32 = 3;

/// Exception number of the supervisor call.
pub const SVC_EXCEPTION: u32 = 11;

/// Exception number of the system tick.
pub const SYSTICK_EXCEPTION: u32 = 15;

/// Exception number of interrupt line 0. Line `n` has exception number `16 + n`.
pub const FIRST_INTERRUPT_EXCEPTION: u32 = 16;

/// Size in bytes of one slot of the vector table.
pub const VECTOR_SIZE: u32 = 4;

/// The four entry points that a processor variant supplies.
#[derive(Clone, Copy, Debug, PartialEq, Eq, Structural)]
pub enum EntryPoint {
    /// Entered on every interrupt line.
    GenericIsr,
    /// Entered on the system tick.
    SysTick,
    /// Entered on a supervisor call.
    Svc,
    /// Entered on a hard fault.
    HardFault,
}

/// The interrupt line that raises `exception`, if it is raised by a line.
pub open spec fn line_of_exception(exception: u32) -> Option<u32> {
    if FIRST_INTERRUPT_EXCEPTION <= exception < FIRST_INTERRUPT_EXCEPTION + 256 {
        Some((exception - FIRST_INTERRUPT_EXCEPTION) as u32)
    } else {
        None
    }
}

/// The entry point that the architecture fixes for `exception`.
pub open spec fn entry_point_of(exception: u32) -> Option<EntryPoint> {
    if exception == HARD_FAULT_EXCEPTION {
        Some(EntryPoint::HardFault)
    } else if exception == SVC_EXCEPTION {
        Some(EntryPoint::Svc)
    } else if exception == SYSTICK_EXCEPTION {
        Some(EntryPoint::SysTick)
    } else if line_of_exception(exception) is Some {
        Some(EntryPoint::GenericIsr)
    } else {
        None
    }
}

/// What a processor variant provides to the code above it. A variant has no
/// state and no values: it is a table chosen when the kernel is built.
pub trait CortexMVariant {
    /// The entry point that this variant installs for `exception`, or `None`
    /// where the variant installs none.
    fn entry_point(exception: u32) -> (entry: Option<EntryPoint>)
        ensures
            entry == entry_point_of(exception),
    ;

    /// The byte offset in the vector table at which `entry` is installed for
    /// `exception`, or `None` where `entry` is not the entry point of
    /// `exception`.
    fn vector_offset(entry: EntryPoint, exception: u32) -> (offset: Option<u32>)
        ensures
            offset is Some <==> entry_point_of(exception) == Some(entry),
            offset matches Some(o) ==> o == VECTOR_SIZE * exception,
    ;
}

/// The field of the only variant of a processor-variant type. It has a
/// private field and no constructor, so no code outside this file can build
/// one, and this file never does.
pub struct NoValue {
    sealed: (),
}

/// The Cortex-M33. The type is used for what it provides, never for a value:
/// its single variant cannot be built.
pub enum CortexM33 {
    /// Never built.
    Sealed(NoValue),
}

impl CortexMVariant for CortexM33 {
    fn entry_point(exception: u32) -> (entry: Option<EntryPoint>) {
        if exception == HARD_FAULT_EXCEPTION {
            Some(EntryPoint::HardFault)
        } else if exception == SVC_EXCEPTION {
            Some(EntryPoint::Svc)
        } else if exception == SYSTICK_EXCEPTION {
            Some(EntryPoint::SysTick)
        } else if exception >= FIRST_INTERRUPT_EXCEPTION && exception - FIRST_INTERRUPT_EXCEPTION
            < 256 {
            Some(EntryPoint::GenericIsr)
        } else {
            None
        }
    }

    fn vector_offset(entry: EntryPoint, exception: u32) -> (offset: Option<u32>) {
        match Self::entry_point(exception) {
            Some(installed) => {
                if installed == entry {
                    Some(VECTOR_SIZE * exception)
                } else {
                    None
                }
            },
            None => None,
        }
    }
}

} // verus!
