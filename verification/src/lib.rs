//! Verified chip-support core for the RP2350: interrupt numbering and per-core
//! interrupt masks, a register-level model of the interrupt controller, the
//! chip orchestrator that drains pending interrupts, memory-protection region
//! configuration, and classification of returns from process context.
//!
//! Everything here works on plain values. Memory-mapped registers are held in
//! explicit state types (`Nvic`, `MpuRegisters`) that the caller owns, so the
//! same code runs against real register snapshots and against a test backing.

pub mod bits;
pub mod interrupts;
pub mod mpu;
pub mod mpu_registers;
pub mod chip;
pub mod cortexm33;
pub mod gpio;
pub mod interrupt_mask;
pub mod nvic;
pub mod platform;
pub mod syscall;
