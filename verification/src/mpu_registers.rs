//! The registers of the memory protection unit, and the order of writes that
//! installs a configuration so that an installation cut short never leaves a
//! half-written region active.

use vstd::prelude::*;
use crate::mpu::{layout_grants, Access, MpuConfig, MpuRegionConfig, Permissions, MPU_REGIONS};

verus! {

/// One write to the registers of the unit.
#[derive(Clone, Copy, Debug, PartialEq, Eq, Structural)]
pub enum RegionWrite {
    /// Switches the region in `slot` off and leaves its other values.
    Disable { slot: usize },
    /// Sets the base of the region in `slot`.
    SetBase { slot: usize, base: u32 },
    /// Sets the size and the permissions of the region in `slot`, and
    /// switches it on or off.
    SetAttributes { slot: usize, size: u32, permissions: Permissions, enabled: bool },
}

/// The regions after `write`. A write to a slot that the unit does not have
/// changes nothing.
pub open spec fn written(regions: Seq<MpuRegionConfig>, write: RegionWrite) -> Seq<
    MpuRegionConfig,
> {
    match write {
        RegionWrite::Disable { slot } => if slot < regions.len() {
            regions.update(slot as int, MpuRegionConfig { enabled: false, ..regions[slot as int] })
        } else {
            regions
        },
        RegionWrite::SetBase { slot, base } => if slot < regions.len() {
            regions.update(slot as int, MpuRegionConfig { base, ..regions[slot as int] })
        } else {
            regions
        },
        RegionWrite::SetAttributes { slot, size, permissions, enabled } => if slot
            < regions.len() {
            regions.update(
                slot as int,
                MpuRegionConfig { base: regions[slot as int].base, size, permissions, enabled },
            )
        } else {
            regions
        },
    }
}

/// The regions after a series of writes.
pub open spec fn written_all(regions: Seq<MpuRegionConfig>, writes: Seq<RegionWrite>) -> Seq<
    MpuRegionConfig,
>
    decreases writes.len(),
{
    if writes.len() == 0 {
        regions
    } else {
        written(written_all(regions, writes.drop_last()), writes.last())
    }
}

/// The `k`-th write of the installation of `target`: slot by slot, the
/// region is first switched off, then given its base, then its attributes.
pub open spec fn install_write(target: Seq<MpuRegionConfig>, k: int) -> RegionWrite {
    let slot = k / 3;
    if k % 3 == 0 {
        RegionWrite::Disable { slot: slot as usize }
    } else if k % 3 == 1 {
        RegionWrite::SetBase { slot: slot as usize, base: target[slot].base }
    } else {
        RegionWrite::SetAttributes {
            slot: slot as usize,
            size: target[slot].size,
            permissions: target[slot].permissions,
            enabled: target[slot].enabled,
        }
    }
}

/// The writes that install `target`, in their order.
pub open spec fn install_writes(target: Seq<MpuRegionConfig>) -> Seq<RegionWrite> {
    Seq::new(3 * target.len(), |k: int| install_write(target, k))
}

/// The regions when the first `done` writes of the installation of `target`
/// have been made on `before`: the slots that are through hold the target,
/// the slot in work is off, the others are as before.
pub open spec fn install_progress(
    before: Seq<MpuRegionConfig>,
    target: Seq<MpuRegionConfig>,
    done: int,
) -> Seq<MpuRegionConfig> {
    Seq::new(
        before.len(),
        |slot: int|
            if slot < done / 3 {
                target[slot]
            } else if slot == done / 3 && done % 3 == 1 {
                MpuRegionConfig { enabled: false, ..before[slot] }
            } else if slot == done / 3 && done % 3 == 2 {
                MpuRegionConfig { base: target[slot].base, enabled: false, ..before[slot] }
            } else {
                before[slot]
            },
    )
}

/// The first `done` writes of an installation lead to `install_progress`.
pub proof fn lemma_install_progress(
    before: Seq<MpuRegionConfig>,
    target: Seq<MpuRegionConfig>,
    done: int,
)
    requires
        before.len() == 8,
        target.len() == 8,
        0 <= done <= 24,
    ensures
        written_all(before, install_writes(target).take(done)) == install_progress(
            before,
            target,
            done,
        ),
    decreases done,
{
    let writes = install_writes(target);
    let prefix = writes.take(done);
    if done == 0 {
        assert(install_progress(before, target, 0) =~= before);
    } else {
        lemma_install_progress(before, target, done - 1);
        assert(prefix.drop_last() =~= writes.take(done - 1));
        assert(prefix.last() == install_write(target, done - 1));
        let earlier = install_progress(before, target, done - 1);
        let later = install_progress(before, target, done);
        let slot = (done - 1) / 3;
        assert(0 <= slot < 8);
        assert forall|i: int| 0 <= i < 8 implies written(earlier, install_write(target, done - 1))[i]
            == later[i] by {
            if (done - 1) % 3 == 0 {
                assert(done / 3 == slot && done % 3 == 1);
            } else if (done - 1) % 3 == 1 {
                assert(done / 3 == slot && done % 3 == 2);
            } else {
                assert(done / 3 == slot + 1 && done % 3 == 0);
            }
        }
        assert(written(earlier, install_write(target, done - 1)) =~= later);
    }
}

/// An installation that is cut short after any number of writes leaves no
/// half-written region active: every slot is as it was before, or is off,
/// or is as the configuration wants it. So whatever the registers grant at
/// that moment, the state before or the configuration grants too. Carried
/// through, the installation leaves exactly the configuration.
pub proof fn lemma_install_interrupted(
    before: Seq<MpuRegionConfig>,
    target: Seq<MpuRegionConfig>,
    done: int,
    address: u32,
    access: Access,
    privileged: bool,
)
    requires
        before.len() == 8,
        target.len() == 8,
        0 <= done <= 24,
    ensures
        ({
            let now = written_all(before, install_writes(target).take(done));
            &&& now.len() == before.len()
            &&& forall|slot: int|
                0 <= slot < now.len() ==> now[slot] == before[slot] || !now[slot].enabled
                    || now[slot] == target[slot]
            &&& layout_grants(now, address, access, privileged) ==> layout_grants(
                before,
                address,
                access,
                privileged,
            ) || layout_grants(target, address, access, privileged)
            &&& done == 24 ==> now == target
        }),
{
    lemma_install_progress(before, target, done);
    let now = install_progress(before, target, done);
    if layout_grants(now, address, access, privileged) {
        let slot = choose|slot: int|
            0 <= slot < now.len() && now[slot].grants(address, access, privileged);
        if now[slot] == before[slot] {
            assert(before[slot].grants(address, access, privileged));
        } else {
            assert(target[slot].grants(address, access, privileged));
        }
    }
    if done == 24 {
        assert(now =~= target);
    }
}

impl MpuConfig {
    /// The register writes that install this configuration, in the order in
    /// which they must be made.
    pub fn install_writes(&self) -> (writes: Vec<RegionWrite>)
        ensures
            writes@ == install_writes(self@),
    {
        let mut writes: Vec<RegionWrite> = Vec::new();
        let mut slot: usize = 0;
        proof {
            self.lemma_eight_slots();
        }
        while slot < MPU_REGIONS
            invariant
                slot <= 8,
                self@.len() == 8,
                writes@.len() == 3 * slot,
                forall|k: int| 0 <= k < 3 * slot ==> writes@[k] == install_write(self@, k),
            decreases 8 - slot,
        {
            let region = match self.region(slot) {
                Some(region) => region,
                None => MpuRegionConfig::disabled(),
            };
            writes.push(RegionWrite::Disable { slot });
            writes.push(RegionWrite::SetBase { slot, base: region.base });
            writes.push(
                RegionWrite::SetAttributes {
                    slot,
                    size: region.size,
                    permissions: region.permissions,
                    enabled: region.enabled,
                },
            );
            slot = slot + 1;
        }
        assert(writes@ =~= install_writes(self@));
        writes
    }
}

/// The region registers of the unit, one base and one set of attributes for
/// each slot. Every value of the registers is a valid state.
#[derive(Clone, Copy, Debug)]
pub struct MpuRegisters {
    pub regions: [MpuRegionConfig; 8],
}

impl View for MpuRegisters {
    type V = Seq<MpuRegionConfig>;

    open spec fn view(&self) -> Seq<MpuRegionConfig> {
        self.regions@
    }
}

impl MpuRegisters {
    /// The registers grant `access` at `address` to code of the given
    /// privilege: some active region does.
    pub open spec fn allows(&self, address: u32, access: Access, privileged: bool) -> bool {
        layout_grants(self@, address, access, privileged)
    }

    /// The registers with every region unused.
    pub fn new() -> (registers: Self)
        ensures
            registers@ == Seq::new(8, |slot: int| MpuRegionConfig::unused()),
    {
        let registers = MpuRegisters { regions: [MpuRegionConfig::disabled();8] };
        assert(registers@ =~= Seq::new(8, |slot: int| MpuRegionConfig::unused()));
        registers
    }

    /// Makes one write.
    pub fn write(&mut self, write: RegionWrite)
        ensures
            final(self)@ == written(old(self)@, write),
    {
        match write {
            RegionWrite::Disable { slot } => {
                if slot < MPU_REGIONS {
                    let mut region = self.regions[slot];
                    region.enabled = false;
                    self.regions[slot] = region;
                }
            },
            RegionWrite::SetBase { slot, base } => {
                if slot < MPU_REGIONS {
                    let mut region = self.regions[slot];
                    region.base = base;
                    self.regions[slot] = region;
                }
            },
            RegionWrite::SetAttributes { slot, size, permissions, enabled } => {
                if slot < MPU_REGIONS {
                    let base = self.regions[slot].base;
                    self.regions[slot] = MpuRegionConfig { base, size, permissions, enabled };
                }
            },
        }
    }

    /// Installs `config` by making its writes one after the other.
    pub fn install(&mut self, config: &MpuConfig)
        ensures
            final(self)@ == config@,
    {
        let writes = config.install_writes();
        let ghost before = self@;
        let mut k: usize = 0;
        proof {
            config.lemma_eight_slots();
        }
        while k < writes.len()
            invariant
                k <= writes@.len(),
                writes@ == install_writes(config@),
                before.len() == 8,
                self@ == written_all(before, writes@.take(k as int)),
            decreases writes@.len() - k,
        {
            proof {
                let next = writes@.take(k as int + 1);
                assert(next.drop_last() =~= writes@.take(k as int));
                assert(next.last() == writes@[k as int]);
            }
            self.write(writes[k]);
            k = k + 1;
        }
        proof {
            assert(writes@.take(k as int) =~= writes@);
            lemma_install_interrupted(before, config@, 24, 0, Access::Read, false);
        }
    }

    /// Whether the registers grant `access` at `address` to code of the given
    /// privilege.
    pub fn check_access(&self, address: u32, access: Access, privileged: bool) -> (allowed: bool)
        ensures
            allowed == self.allows(address, access, privileged),
    {
        let mut i: usize = 0;
        while i < MPU_REGIONS
            invariant
                i <= 8,
                forall|k: int| 0 <= k < i ==> !self@[k].grants(address, access, privileged),
            decreases 8 - i,
        {
            if self.regions[i].is_granted(address, access, privileged) {
                return true;
            }
            i = i + 1;
        }
        false
    }
}

} // verus!
