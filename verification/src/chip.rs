//! The chip orchestrator: per-core interrupt masks, draining of pending
//! interrupts, and the default peripheral set.

use vstd::prelude::*;
use crate::gpio::SIO;
use crate::interrupt_mask::{lines_of, InterruptMask};
use crate::interrupts;
use crate::mpu::MPU;
use crate::nvic::Nvic;
use crate::platform::InterruptService;
use crate::syscall::SysCall;

verus! {

/// A physical core of the chip.
#[derive(Clone, Copy, Debug, PartialEq, Eq, Structural)]
pub enum Processor {
    Processor0,
    Processor1,
}

impl Processor {
    /// The other core.
    pub open spec fn other(self) -> Processor {
        match self {
            Processor::Processor0 => Processor::Processor1,
            Processor::Processor1 => Processor::Processor0,
        }
    }

    /// The value of the core-identification register on this core.
    pub open spec fn cpuid(self) -> u32 {
        match self {
            Processor::Processor0 => 0,
            Processor::Processor1 => 1,
        }
    }

    /// The value of the core-identification register on this core.
    pub fn to_cpuid(self) -> (cpuid: u32)
        ensures
            cpuid == self.cpuid(),
    {
        match self {
            Processor::Processor0 => 0,
            Processor::Processor1 => 1,
        }
    }

    /// The core on which the core-identification register reads `cpuid`, or
    /// `None` when no core has that number.
    pub fn from_cpuid(cpuid: u32) -> (processor: Option<Processor>)
        ensures
            processor is Some <==> cpuid < 2,
            processor matches Some(p) ==> p.cpuid() == cpuid,
    {
        if cpuid == 0 {
            Some(Processor::Processor0)
        } else if cpuid == 1 {
            Some(Processor::Processor1)
        } else {
            None
        }
    }
}

/// Why the chip cannot go on.
#[derive(Clone, Copy, Debug, PartialEq, Eq, Structural)]
pub enum ChipError {
    /// A pending interrupt belongs to no peripheral. The kernel must halt and
    /// report the line.
    UnhandledInterrupt(u32),
    /// A list of core-owned interrupts names a number that is not a line.
    NotALine,
    /// A line is claimed for both cores, so neither would ever service it.
    OwnedByBothCores,
}

/// What follows from the peripheral set's answer for `interrupt`: a handled
/// line may be acknowledged, an unhandled line stops the kernel.
pub fn check_handled(interrupt: u32, handled: bool) -> (result: Result<(), ChipError>)
    ensures
        handled ==> result is Ok,
        !handled ==> result == Err::<(), ChipError>(ChipError::UnhandledInterrupt(interrupt)),
{
    if handled {
        Ok(())
    } else {
        Err(ChipError::UnhandledInterrupt(interrupt))
    }
}

/// The lines of `visible` below `bound`.
pub open spec fn below(visible: Set<int>, bound: int) -> Set<int> {
    Set::new(|id: int| visible.contains(id) && id < bound)
}

/// The RP2350 chip as one core sees it.
pub struct Rp2350<'a, I: InterruptService> {
    mpu: MPU,
    userspace_kernel_boundary: SysCall,
    interrupt_service: &'a I,
    sio: &'a SIO,
    processor0_interrupt_mask: InterruptMask,
    processor1_interrupt_mask: InterruptMask,
}

impl<'a, I: InterruptService> Rp2350<'a, I> {
    /// The mask that `processor` applies: the lines it must ignore.
    pub closed spec fn mask(&self, processor: Processor) -> InterruptMask {
        match processor {
            Processor::Processor0 => self.processor0_interrupt_mask,
            Processor::Processor1 => self.processor1_interrupt_mask,
        }
    }

    /// The core this chip value runs on.
    pub closed spec fn processor(&self) -> Processor {
        self.sio.processor()
    }

    /// The peripheral set that services this chip's interrupts.
    pub closed spec fn service(&self) -> &I {
        self.interrupt_service
    }

    /// The memory protection unit that the chip owns.
    pub closed spec fn protection_unit(&self) -> MPU {
        self.mpu
    }

    /// The process boundary that the chip owns.
    pub closed spec fn boundary(&self) -> SysCall {
        self.userspace_kernel_boundary
    }

    /// The mask of the executing core.
    pub open spec fn current_mask(&self) -> InterruptMask {
        self.mask(self.processor())
    }

    /// No line is hidden from both cores.
    pub open spec fn wf(&self) -> bool {
        self.mask(Processor::Processor0)@.disjoint(self.mask(Processor::Processor1)@)
    }

    /// The chip with the RP2350's ownership of lines: each core ignores the
    /// inter-core FIFO interrupt that is meant for the other core.
    pub fn new(interrupt_service: &'a I, sio: &'a SIO) -> (chip: Self)
        ensures
            chip.wf(),
            chip.processor() == sio.processor(),
            chip.service() == interrupt_service,
            chip.mask(Processor::Processor0)@ == set![interrupts::SIO_IRQ_PROC1 as int],
            chip.mask(Processor::Processor1)@ == set![interrupts::SIO_IRQ_PROC0 as int],
    {
        let mut mask0 = InterruptMask::new();
        let mut mask1 = InterruptMask::new();
        mask0.exclude(interrupts::SIO_IRQ_PROC1);
        mask1.exclude(interrupts::SIO_IRQ_PROC0);
        assert(mask0@ =~= set![interrupts::SIO_IRQ_PROC1 as int]);
        assert(mask1@ =~= set![interrupts::SIO_IRQ_PROC0 as int]);
        Rp2350 {
            mpu: MPU::new(),
            userspace_kernel_boundary: SysCall::new(),
            interrupt_service,
            sio,
            processor0_interrupt_mask: mask0,
            processor1_interrupt_mask: mask1,
        }
    }

    /// The chip with a given ownership of lines. The lines of
    /// `processor0_only` are serviced by core 0 alone and ignored by core 1,
    /// and likewise for `processor1_only`. Every other line is serviced by
    /// whichever core finds it pending.
    pub fn with_core_interrupts(
        interrupt_service: &'a I,
        sio: &'a SIO,
        processor0_only: &[u32],
        processor1_only: &[u32],
    ) -> (result: Result<Self, ChipError>)
        ensures
            match result {
                Ok(chip) => {
                    &&& chip.wf()
                    &&& chip.processor() == sio.processor()
                    &&& chip.service() == interrupt_service
                    &&& chip.mask(Processor::Processor0)@ == lines_of(processor1_only@)
                    &&& chip.mask(Processor::Processor1)@ == lines_of(processor0_only@)
                },
                Err(e) => e == ChipError::NotALine || e == ChipError::OwnedByBothCores,
            },
            result == Err::<Self, ChipError>(ChipError::NotALine) <==> exists|id: int|
                id >= 256 && (lines_of(processor0_only@).contains(id) || lines_of(
                    processor1_only@,
                ).contains(id)),
            result == Err::<Self, ChipError>(ChipError::OwnedByBothCores) <==> {
                &&& forall|id: int|
                    lines_of(processor0_only@).contains(id) || lines_of(processor1_only@).contains(
                        id,
                    ) ==> id < 256
                &&& !lines_of(processor0_only@).disjoint(lines_of(processor1_only@))
            },
    {
        let mask1 = match InterruptMask::from_interrupts(processor0_only) {
            Some(mask) => mask,
            None => {
                proof {
                    let i = choose|i: int| 0 <= i < processor0_only@.len() && processor0_only@[i] >= 256;
                    assert(lines_of(processor0_only@).contains(processor0_only@[i] as int));
                }
                return Err(ChipError::NotALine);
            },
        };
        let mask0 = match InterruptMask::from_interrupts(processor1_only) {
            Some(mask) => mask,
            None => {
                proof {
                    let i = choose|i: int| 0 <= i < processor1_only@.len() && processor1_only@[i] >= 256;
                    assert(lines_of(processor1_only@).contains(processor1_only@[i] as int));
                }
                return Err(ChipError::NotALine);
            },
        };
        proof {
            assert forall|id: int|
                lines_of(processor0_only@).contains(id) || lines_of(processor1_only@).contains(
                    id,
                ) implies id < 256 by {
                if lines_of(processor0_only@).contains(id) {
                    let i = choose|i: int| 0 <= i < processor0_only@.len() && processor0_only@[i] == id;
                } else {
                    let i = choose|i: int| 0 <= i < processor1_only@.len() && processor1_only@[i] == id;
                }
            }
        }
        let mut n: usize = 0;
        while n < processor0_only.len()
            invariant
                n <= processor0_only@.len(),
                mask0@ == lines_of(processor1_only@),
                mask1@ == lines_of(processor0_only@),
                forall|id: int|
                    lines_of(processor0_only@).contains(id) || lines_of(processor1_only@).contains(
                        id,
                    ) ==> id < 256,
                forall|i: int| 0 <= i < n ==> !mask0@.contains(processor0_only@[i] as int),
            decreases processor0_only@.len() - n,
        {
            if mask0.is_excluded(processor0_only[n]) {
                proof {
                    let id = processor0_only@[n as int] as int;
                    assert(lines_of(processor0_only@).contains(id));
                    assert(lines_of(processor1_only@).contains(id));
                }
                return Err(ChipError::OwnedByBothCores);
            }
            n = n + 1;
        }
        proof {
            assert forall|id: int|
                !(lines_of(processor0_only@).contains(id) && lines_of(processor1_only@).contains(
                    id,
                )) by {
                if lines_of(processor0_only@).contains(id) {
                    let i = choose|i: int| 0 <= i < processor0_only@.len() && processor0_only@[i] == id;
                    assert(!mask0@.contains(processor0_only@[i] as int));
                }
            }
            assert(mask0@.disjoint(mask1@));
        }
        Ok(
            Rp2350 {
                mpu: MPU::new(),
                userspace_kernel_boundary: SysCall::new(),
                interrupt_service,
                sio,
                processor0_interrupt_mask: mask0,
                processor1_interrupt_mask: mask1,
            },
        )
    }

    /// The memory protection unit of this core.
    pub fn mpu(&self) -> (mpu: &MPU)
        ensures
            *mpu == self.protection_unit(),
    {
        &self.mpu
    }

    /// The mechanism that switches this core to a process and back.
    pub fn userspace_kernel_boundary(&self) -> (boundary: &SysCall)
        ensures
            *boundary == self.boundary(),
    {
        &self.userspace_kernel_boundary
    }

    /// Runs `f` without any interrupt handler running in between, and gives
    /// back what `f` returns. Handlers run only inside
    /// `service_pending_interrupts`, which `f` cannot reach while it runs: an
    /// interrupt that is asserted meanwhile stays pending until the kernel
    /// services it.
    pub fn atomic<F, R>(&self, f: F) -> (result: R) where F: FnOnce() -> R
        requires
            call_requires(f, ()),
        ensures
            call_ensures(f, (), result),
    {
        f()
    }

    /// The mask of the executing core.
    pub fn current_core_mask(&self) -> (mask: InterruptMask)
        ensures
            mask == self.current_mask(),
    {
        match self.sio.get_processor() {
            Processor::Processor0 => self.processor0_interrupt_mask,
            Processor::Processor1 => self.processor1_interrupt_mask,
        }
    }

    /// Whether an interrupt is pending that the executing core services.
    pub fn has_pending_interrupts(&self, nvic: &Nvic) -> (pending: bool)
        ensures
            pending == nvic.has_visible(self.current_mask()),
    {
        let mask = self.current_core_mask();
        nvic.has_pending_with_mask(mask)
    }

    /// The interrupt that the executing core services next: the lowest
    /// pending line that its mask lets through.
    pub fn next_interrupt(&self, nvic: &Nvic) -> (next: Option<u32>)
        ensures
            match next {
                Some(id) => nvic.visible(self.current_mask()).contains(id as int) && forall|j: int|
                    nvic.visible(self.current_mask()).contains(j) ==> id <= j,
                None => !nvic.has_visible(self.current_mask()),
            },
    {
        nvic.next_pending_with_mask(self.current_core_mask())
    }

    /// Finishes the servicing of `interrupt`, given what the peripheral set
    /// answered. A handled line is cleared and enabled again. An unhandled
    /// line is left as it is and reported.
    pub fn complete_interrupt(&self, nvic: &mut Nvic, interrupt: u32, handled: bool) -> (result:
        Result<(), ChipError>)
        ensures
            handled ==> result is Ok && !final(nvic).pending().contains(interrupt as int)
                && final(nvic).pending() == old(nvic).pending().remove(interrupt as int) && (
            interrupt < 256 ==> final(nvic).enabled() == old(nvic).enabled().insert(
                interrupt as int,
            )) && (interrupt >= 256 ==> final(nvic).enabled() == old(nvic).enabled()),
            !handled ==> result == Err::<(), ChipError>(ChipError::UnhandledInterrupt(interrupt))
                && *final(nvic) == *old(nvic),
    {
        match check_handled(interrupt, handled) {
            Ok(()) => {
                nvic.clear_pending(interrupt);
                nvic.enable(interrupt);
                Ok(())
            },
            Err(error) => Err(error),
        }
    }

    /// Services every pending interrupt of the executing core, lowest line
    /// first, until none is left or the peripheral set does not know a line.
    ///
    /// On `Ok` every line that was pending for this core has been handled,
    /// cleared and enabled again, and the lines of the other core are
    /// untouched. On `Err` the reported line is the lowest pending line that
    /// the peripheral set does not handle. It stays pending, and so does every
    /// line above it. The lines below it have been serviced.
    pub fn service_pending_interrupts(&self, nvic: &mut Nvic) -> (result: Result<(), ChipError>)
        ensures
            match result {
                Ok(()) => {
                    &&& forall|id: int|
                        old(nvic).visible(self.current_mask()).contains(id)
                            ==> self.service().handles(id as u32)
                    &&& final(nvic).pending() == old(nvic).pending().difference(
                        old(nvic).visible(self.current_mask()),
                    )
                    &&& final(nvic).enabled() == old(nvic).enabled().union(
                        old(nvic).visible(self.current_mask()),
                    )
                    &&& !final(nvic).has_visible(self.current_mask())
                },
                Err(ChipError::UnhandledInterrupt(id)) => {
                    &&& old(nvic).visible(self.current_mask()).contains(id as int)
                    &&& !self.service().handles(id)
                    &&& forall|j: int|
                        old(nvic).visible(self.current_mask()).contains(j) && j < id
                            ==> self.service().handles(j as u32)
                    &&& final(nvic).pending() == old(nvic).pending().difference(
                        below(old(nvic).visible(self.current_mask()), id as int),
                    )
                    &&& final(nvic).enabled() == old(nvic).enabled().union(
                        below(old(nvic).visible(self.current_mask()), id as int),
                    )
                },
                Err(_) => false,
            },
            !old(nvic).has_visible(self.current_mask()) ==> result is Ok && *final(nvic) == *old(
                nvic,
            ),
    {
        let mask = self.current_core_mask();
        let ghost visible = nvic.visible(mask);
        let mut floor: u32 = 0;
        loop
            invariant
                mask == self.current_mask(),
                visible == old(nvic).visible(mask),
                floor <= 256,
                nvic.pending() == old(nvic).pending().difference(below(visible, floor as int)),
                nvic.enabled() == old(nvic).enabled().union(below(visible, floor as int)),
                floor == 0 ==> *nvic == *old(nvic),
                floor != 0 ==> old(nvic).has_visible(mask),
                forall|j: int| visible.contains(j) && j < floor ==> self.service().handles(j as u32),
            decreases 256 - floor,
        {
            match nvic.next_pending_with_mask(mask) {
                Some(interrupt) => {
                    assert(visible.contains(interrupt as int));
                    assert(interrupt >= floor);
                    let handled = self.interrupt_service.service_interrupt(interrupt);
                    let ghost before = *nvic;
                    if let Err(error) = self.complete_interrupt(nvic, interrupt, handled) {
                        proof {
                            assert forall|j: int| visible.contains(j) && j < interrupt implies j
                                < floor by {
                                if j >= floor {
                                    assert(nvic.visible(mask).contains(j));
                                }
                            }
                            assert(below(visible, interrupt as int) =~= below(
                                visible,
                                floor as int,
                            ));
                        }
                        return Err(error);
                    }
                    proof {
                        assert forall|j: int| visible.contains(j) && j < interrupt implies j
                            < floor by {
                            if j >= floor {
                                assert(before.visible(mask).contains(j));
                            }
                        }
                        assert(below(visible, interrupt + 1) =~= below(visible, floor as int).insert(
                            interrupt as int,
                        ));
                        assert(nvic.pending() =~= old(nvic).pending().difference(
                            below(visible, interrupt + 1),
                        ));
                        assert(nvic.enabled() =~= old(nvic).enabled().union(
                            below(visible, interrupt + 1),
                        ));
                    }
                    floor = interrupt + 1;
                },
                None => {
                    proof {
                        assert forall|j: int| visible.contains(j) implies j < floor by {
                            if j >= floor {
                                assert(nvic.visible(mask).contains(j));
                            }
                        }
                        assert(below(visible, floor as int) =~= visible);
                    }
                    return Ok(());
                },
            }
        }
    }

    /// A line that `owner` alone services is hidden from the other core. The
    /// other core never finds it among its pending lines, and whether the
    /// line is pending makes no difference to what the other core reports.
    /// The owner sees the line whenever it is pending.
    pub proof fn lemma_core_owned_line(&self, nvic: Nvic, owner: Processor, line: int)
        requires
            self.wf(),
            self.mask(owner.other())@.contains(line),
        ensures
            !nvic.visible(self.mask(owner.other())).contains(line),
            nvic.pending().contains(line) ==> nvic.visible(self.mask(owner)).contains(line),
            forall|after: Nvic|
                after.pending() == nvic.pending().insert(line) || after.pending()
                    == nvic.pending().remove(line) ==> #[trigger] after.has_visible(
                    self.mask(owner.other()),
                ) == nvic.has_visible(self.mask(owner.other())),
    {
        let hidden = self.mask(owner.other());
        assert forall|after: Nvic|
            after.pending() == nvic.pending().insert(line) || after.pending()
                == nvic.pending().remove(line) implies #[trigger] after.has_visible(hidden)
            == nvic.has_visible(hidden) by {
            if after.has_visible(hidden) {
                let id = choose|id: int| after.visible(hidden).contains(id);
                assert(nvic.visible(hidden).contains(id));
            }
            if nvic.has_visible(hidden) {
                let id = choose|id: int| nvic.visible(hidden).contains(id);
                assert(after.visible(hidden).contains(id));
            }
        }
    }

    /// No line is hidden from both cores: every line is let through by the
    /// mask of at least one core, and a line that neither core owns is let
    /// through by both.
    pub proof fn lemma_every_line_has_a_core(&self, line: int)
        requires
            self.wf(),
            0 <= line < 256,
        ensures
            self.mask(Processor::Processor0).permits(line) || self.mask(
                Processor::Processor1,
            ).permits(line),
            !self.mask(Processor::Processor0)@.contains(line) && !self.mask(
                Processor::Processor1,
            )@.contains(line) ==> self.mask(Processor::Processor0).permits(line) && self.mask(
                Processor::Processor1,
            ).permits(line),
    {
        if !self.mask(Processor::Processor0).permits(line) {
            assert(self.mask(Processor::Processor0)@.contains(line));
            assert(!self.mask(Processor::Processor1)@.contains(line));
        }
    }
}

/// What a peripheral driver has been connected to since it was built.
#[derive(Clone, Copy, Debug, PartialEq, Eq)]
pub struct Peripheral {
    /// The driver can reach the clock tree.
    pub clocks: bool,
    /// The driver can reach the reset controller.
    pub resets: bool,
    /// The driver is registered for deferred calls.
    pub deferred_call: bool,
    /// The pin the driver was given, if any.
    pub gpio: Option<u32>,
}

impl Peripheral {
    /// A driver that knows no other peripheral.
    pub open spec fn unconnected() -> Peripheral {
        Peripheral { clocks: false, resets: false, deferred_call: false, gpio: None }
    }

    /// A driver as it is right after construction.
    pub fn new() -> (peripheral: Self)
        ensures
            peripheral == Peripheral::unconnected(),
    {
        Peripheral { clocks: false, resets: false, deferred_call: false, gpio: None }
    }
}

/// The peripheral that owns an interrupt line.
#[derive(Clone, Copy, Debug, PartialEq, Eq, Structural)]
pub enum InterruptTarget {
    Pio0,
    Timer,
    /// The inter-core FIFO, on behalf of the given core.
    Sio(Processor),
    Spi0,
    Uart0,
    Adc,
    Usb,
    Pins,
    I2c0,
    /// The line is known but nobody listens to it: the interrupt is accepted
    /// and dropped.
    Ignored,
}

/// The pin that the USB controller is given.
pub const USB_GPIO: u32 = 15;

/// The peripheral that owns `interrupt`, or `None` for a line that no
/// peripheral of the default set raises.
pub open spec fn target_of(interrupt: u32) -> Option<InterruptTarget> {
    if interrupt == interrupts::PIO0_IRQ_0 {
        Some(InterruptTarget::Pio0)
    } else if interrupt == interrupts::TIMER_IRQ_0 {
        Some(InterruptTarget::Timer)
    } else if interrupt == interrupts::SIO_IRQ_PROC0 {
        Some(InterruptTarget::Sio(Processor::Processor0))
    } else if interrupt == interrupts::SIO_IRQ_PROC1 {
        Some(InterruptTarget::Sio(Processor::Processor1))
    } else if interrupt == interrupts::SPI0_IRQ {
        Some(InterruptTarget::Spi0)
    } else if interrupt == interrupts::UART0_IRQ {
        Some(InterruptTarget::Uart0)
    } else if interrupt == interrupts::ADC_IRQ_FIFO {
        Some(InterruptTarget::Adc)
    } else if interrupt == interrupts::USBCTRL_IRQ {
        Some(InterruptTarget::Usb)
    } else if interrupt == interrupts::IO_IRQ_BANK0 {
        Some(InterruptTarget::Pins)
    } else if interrupt == interrupts::I2C0_IRQ {
        Some(InterruptTarget::I2c0)
    } else if interrupt == interrupts::PWM_IRQ_WRAP {
        Some(InterruptTarget::Ignored)
    } else {
        None
    }
}

/// The peripherals of the RP2350 that the kernel uses by default.
#[derive(Clone, Copy, Debug, PartialEq, Eq)]
pub struct Rp2350DefaultPeripherals {
    pub adc: Peripheral,
    pub clocks: Peripheral,
    pub i2c0: Peripheral,
    pub pins: Peripheral,
    pub pio0: Peripheral,
    pub pio1: Peripheral,
    pub pwm: Peripheral,
    pub resets: Peripheral,
    pub sio: Peripheral,
    pub spi0: Peripheral,
    pub sysinfo: Peripheral,
    pub timer: Peripheral,
    pub uart0: Peripheral,
    pub uart1: Peripheral,
    pub usb: Peripheral,
    pub watchdog: Peripheral,
    pub xosc: Peripheral,
    pub rtc: Peripheral,
}

impl Rp2350DefaultPeripherals {
    /// The drivers, in the order of the fields.
    pub open spec fn drivers(&self) -> Seq<Peripheral> {
        seq![
            self.adc,
            self.clocks,
            self.i2c0,
            self.pins,
            self.pio0,
            self.pio1,
            self.pwm,
            self.resets,
            self.sio,
            self.spi0,
            self.sysinfo,
            self.timer,
            self.uart0,
            self.uart1,
            self.usb,
            self.watchdog,
            self.xosc,
            self.rtc,
        ]
    }

    /// The state of the drivers once every dependency between them is wired.
    pub open spec fn resolved(self) -> Rp2350DefaultPeripherals {
        Rp2350DefaultPeripherals {
            pwm: Peripheral { clocks: true, ..self.pwm },
            watchdog: Peripheral { resets: true, ..self.watchdog },
            spi0: Peripheral { clocks: true, ..self.spi0 },
            uart0: Peripheral { clocks: true, deferred_call: true, ..self.uart0 },
            uart1: Peripheral { deferred_call: true, ..self.uart1 },
            rtc: Peripheral { clocks: true, deferred_call: true, ..self.rtc },
            i2c0: Peripheral { clocks: true, resets: true, ..self.i2c0 },
            usb: Peripheral { gpio: Some(USB_GPIO), ..self.usb },
            ..self
        }
    }

    /// Builds every driver. No driver knows another one yet.
    pub fn new() -> (peripherals: Self)
        ensures
            peripherals.drivers() == Seq::new(18, |i: int| Peripheral::unconnected()),
    {
        let peripherals = Rp2350DefaultPeripherals {
            adc: Peripheral::new(),
            clocks: Peripheral::new(),
            i2c0: Peripheral::new(),
            pins: Peripheral::new(),
            pio0: Peripheral::new(),
            pio1: Peripheral::new(),
            pwm: Peripheral::new(),
            resets: Peripheral::new(),
            sio: Peripheral::new(),
            spi0: Peripheral::new(),
            sysinfo: Peripheral::new(),
            timer: Peripheral::new(),
            uart0: Peripheral::new(),
            uart1: Peripheral::new(),
            usb: Peripheral::new(),
            watchdog: Peripheral::new(),
            xosc: Peripheral::new(),
            rtc: Peripheral::new(),
        };
        assert(peripherals.drivers() =~= Seq::new(18, |i: int| Peripheral::unconnected()));
        peripherals
    }

    /// Wires the dependencies between the drivers. This is a step of its own,
    /// after construction, because a driver may depend on one that is built
    /// after it.
    pub fn resolve_dependencies(&mut self)
        ensures
            *final(self) == old(self).resolved(),
    {
        self.pwm.clocks = true;
        self.watchdog.resets = true;
        self.spi0.clocks = true;
        self.uart0.clocks = true;
        self.uart0.deferred_call = true;
        self.uart1.deferred_call = true;
        self.rtc.deferred_call = true;
        self.i2c0.clocks = true;
        self.i2c0.resets = true;
        self.usb.gpio = Some(USB_GPIO);
        self.rtc.clocks = true;
    }

    /// The peripheral that owns `interrupt`.
    pub fn target(interrupt: u32) -> (target: Option<InterruptTarget>)
        ensures
            target == target_of(interrupt),
    {
        match interrupt {
            interrupts::PIO0_IRQ_0 => Some(InterruptTarget::Pio0),
            interrupts::TIMER_IRQ_0 => Some(InterruptTarget::Timer),
            interrupts::SIO_IRQ_PROC0 => Some(InterruptTarget::Sio(Processor::Processor0)),
            interrupts::SIO_IRQ_PROC1 => Some(InterruptTarget::Sio(Processor::Processor1)),
            interrupts::SPI0_IRQ => Some(InterruptTarget::Spi0),
            interrupts::UART0_IRQ => Some(InterruptTarget::Uart0),
            interrupts::ADC_IRQ_FIFO => Some(InterruptTarget::Adc),
            interrupts::USBCTRL_IRQ => Some(InterruptTarget::Usb),
            interrupts::IO_IRQ_BANK0 => Some(InterruptTarget::Pins),
            interrupts::I2C0_IRQ => Some(InterruptTarget::I2c0),
            interrupts::PWM_IRQ_WRAP => Some(InterruptTarget::Ignored),
            _ => None,
        }
    }
}

impl InterruptService for Rp2350DefaultPeripherals {
    open spec fn handles(&self, interrupt: u32) -> bool {
        target_of(interrupt) is Some
    }

    fn service_interrupt(&self, interrupt: u32) -> (handled: bool) {
        match Rp2350DefaultPeripherals::target(interrupt) {
            Some(_) => true,
            None => false,
        }
    }
}

} // verus!
