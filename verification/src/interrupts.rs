//! Interrupt line numbers of the RP2350, for the lines that the default
//! peripheral set services.

use vstd::prelude::*;

verus! {

/// Number of interrupt lines that an interrupt mask and the controller model cover.
pub const NUM_INTERRUPTS: u32 = 256;

pub const TIMER_IRQ_0: u32 = 0;

pub const PWM_IRQ_WRAP: u32 = 8;

pub const USBCTRL_IRQ: u32 = 14;

pub const PIO0_IRQ_0: u32 = 15;

pub const IO_IRQ_BANK0: u32 = 21;

/// The inter-core FIFO interrupt that core 0 services.
pub const SIO_IRQ_PROC0: u32 = 25;

/// The inter-core FIFO interrupt that core 1 services.
pub const SIO_IRQ_PROC1: u32 = 26;

pub const SPI0_IRQ: u32 = 31;

pub const UART0_IRQ: u32 = 33;

pub const ADC_IRQ_FIFO: u32 = 35;

pub const I2C0_IRQ: u32 = 36;

} // verus!
