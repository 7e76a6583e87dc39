use rp2350::mpu::{Access, MpuRegionConfig, Permissions, MPU};
use rp2350::mpu_registers::{MpuRegisters, RegionWrite};

fn readable() -> Permissions {
    Permissions { read: true, write: false, execute: false, unprivileged: true }
}

fn writable() -> Permissions {
    Permissions { read: true, write: true, execute: false, unprivileged: true }
}

fn active(base: u32, size: u32, permissions: Permissions) -> MpuRegionConfig {
    MpuRegionConfig { base, size, permissions, enabled: true }
}

fn slots(registers: &MpuRegisters) -> Vec<MpuRegionConfig> {
    registers.regions.to_vec()
}

#[test]
fn new_registers_hold_unused_regions() {
    let registers = MpuRegisters::new();
    assert_eq!(slots(&registers), vec![MpuRegionConfig::disabled(); 8]);
    assert!(!registers.check_access(0, Access::Read, true));
}

#[test]
fn an_installation_is_three_writes_for_each_slot_in_order() {
    let first = active(0x2000_0000, 0x400, writable());
    let second = active(0x1000_0000, 0x1000, readable());
    let config = MPU::new().configure_regions(&[first, second]).unwrap();
    let writes = config.install_writes();
    assert_eq!(writes.len(), 24);
    assert_eq!(writes[0], RegionWrite::Disable { slot: 0 });
    assert_eq!(writes[1], RegionWrite::SetBase { slot: 0, base: 0x2000_0000 });
    assert_eq!(
        writes[2],
        RegionWrite::SetAttributes {
            slot: 0,
            size: 0x400,
            permissions: writable(),
            enabled: true
        }
    );
    assert_eq!(writes[3], RegionWrite::Disable { slot: 1 });
    assert_eq!(writes[4], RegionWrite::SetBase { slot: 1, base: 0x1000_0000 });
    assert_eq!(
        writes[5],
        RegionWrite::SetAttributes {
            slot: 1,
            size: 0x1000,
            permissions: readable(),
            enabled: true
        }
    );
    for slot in 2..8 {
        assert_eq!(writes[3 * slot], RegionWrite::Disable { slot });
        assert_eq!(writes[3 * slot + 1], RegionWrite::SetBase { slot, base: 0 });
        assert_eq!(
            writes[3 * slot + 2],
            RegionWrite::SetAttributes {
                slot,
                size: 32,
                permissions: Permissions::none(),
                enabled: false
            }
        );
    }
}

#[test]
fn each_write_changes_its_part_of_its_slot() {
    let mut registers = MpuRegisters::new();
    let old = active(0x4000, 0x100, writable());
    registers.regions[3] = old;

    registers.write(RegionWrite::Disable { slot: 3 });
    assert_eq!(registers.regions[3], MpuRegionConfig { enabled: false, ..old });

    registers.write(RegionWrite::SetBase { slot: 3, base: 0x8000 });
    assert_eq!(registers.regions[3], MpuRegionConfig { base: 0x8000, enabled: false, ..old });

    registers.write(RegionWrite::SetAttributes {
        slot: 3,
        size: 0x40,
        permissions: readable(),
        enabled: true,
    });
    assert_eq!(registers.regions[3], active(0x8000, 0x40, readable()));
    for slot in [0, 1, 2, 4, 5, 6, 7] {
        assert_eq!(registers.regions[slot], MpuRegionConfig::disabled());
    }
}

#[test]
fn a_write_to_a_slot_that_does_not_exist_changes_nothing() {
    let mut registers = MpuRegisters::new();
    registers.regions[7] = active(0x4000, 0x100, writable());
    let before = slots(&registers);
    registers.write(RegionWrite::Disable { slot: 8 });
    registers.write(RegionWrite::SetBase { slot: 8, base: 1 });
    registers.write(RegionWrite::SetAttributes {
        slot: usize::MAX,
        size: 64,
        permissions: writable(),
        enabled: true,
    });
    assert_eq!(slots(&registers), before);
}

#[test]
fn install_leaves_the_configuration() {
    let old = MPU::new()
        .configure_regions(&[
            active(0x1000, 0x1000, writable()),
            active(0x4000, 0x100, readable()),
            active(0x8000, 0x20, writable()),
        ])
        .unwrap();
    let new = MPU::new().configure_regions(&[active(0x2000_0000, 0x800, readable())]).unwrap();
    let mut registers = MpuRegisters::new();
    registers.install(&old);
    for slot in 0..8 {
        assert_eq!(Some(registers.regions[slot]), old.region(slot));
    }
    assert!(registers.check_access(0x1000, Access::Write, false));
    registers.install(&new);
    for slot in 0..8 {
        assert_eq!(Some(registers.regions[slot]), new.region(slot));
    }
    assert!(!registers.check_access(0x1000, Access::Write, false));
    assert!(!registers.check_access(0x4000, Access::Read, false));
    assert!(registers.check_access(0x2000_07ff, Access::Read, false));
    assert!(!registers.check_access(0x2000_07ff, Access::Write, false));
}

#[test]
fn an_installation_cut_short_leaves_no_mixed_region_active() {
    let old_layout = [
        active(0x1000, 0x1000, writable()),
        active(0x4000, 0x100, readable()),
        active(0x8000, 0x20, writable()),
    ];
    let new_layout = [
        active(0x2000_0000, 0x800, readable()),
        active(0x2000_1000, 0x1000, writable()),
    ];
    let old = MPU::new().configure_regions(&old_layout).unwrap();
    let new = MPU::new().configure_regions(&new_layout).unwrap();
    let writes = new.install_writes();
    let probes = [
        0x1000u32, 0x1fff, 0x4000, 0x40ff, 0x8000, 0x801f, 0x2000_0000, 0x2000_07ff, 0x2000_1000,
        0x2000_1fff, 0x2000_0800, 0, 0xffff_ffff,
    ];
    for done in 0..=writes.len() {
        let mut registers = MpuRegisters::new();
        registers.install(&old);
        for write in &writes[..done] {
            registers.write(*write);
        }
        for slot in 0..8 {
            let now = registers.regions[slot];
            assert!(
                Some(now) == old.region(slot) || !now.enabled || Some(now) == new.region(slot)
            );
        }
        for address in probes {
            for access in [Access::Read, Access::Write, Access::Execute] {
                for privileged in [false, true] {
                    if registers.check_access(address, access, privileged) {
                        assert!(
                            old.check_access(address, access, privileged)
                                || new.check_access(address, access, privileged)
                        );
                    }
                }
            }
        }
        if done == writes.len() {
            for slot in 0..8 {
                assert_eq!(Some(registers.regions[slot]), new.region(slot));
            }
        }
    }
}
