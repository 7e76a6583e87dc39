use rp2350::mpu::{
    is_power_of_two, Access, MpuConfig, MpuError, MpuRegionConfig, Permissions, MPU,
    MPU_MIN_ALIGN, MPU_REGIONS,
};

fn read_write() -> Permissions {
    Permissions { read: true, write: true, execute: false, unprivileged: true }
}

fn region(base: u32, size: u32) -> MpuRegionConfig {
    MpuRegionConfig { base, size, permissions: read_write(), enabled: true }
}

fn eight_regions() -> Vec<MpuRegionConfig> {
    (0..8u32).map(|i| region(0x2000_0000 + i * 0x100, 0x100)).collect()
}

#[test]
fn the_unit_has_eight_regions_of_at_least_32_bytes() {
    assert_eq!(MPU_REGIONS, 8);
    assert_eq!(MPU_MIN_ALIGN, 32);
}

#[test]
fn eight_regions_are_accepted() {
    let layout = eight_regions();
    let config = MPU::new().configure_regions(&layout).unwrap();
    for i in 0..8 {
        assert_eq!(config.region(i), Some(layout[i]));
    }
    assert_eq!(config.region(8), None);
}

#[test]
fn a_ninth_region_is_refused() {
    let mut layout = eight_regions();
    layout.push(region(0x2000_0800, 0x100));
    assert_eq!(MPU::new().configure_regions(&layout).err(), Some(MpuError::TooManyRegions));
    let mut disabled_ninth = eight_regions();
    disabled_ninth.push(MpuRegionConfig::disabled());
    assert_eq!(
        MPU::new().configure_regions(&disabled_ninth).err(),
        Some(MpuError::TooManyRegions)
    );
}

#[test]
fn too_many_regions_outranks_every_other_error() {
    let layout = vec![region(1, 3); 9];
    assert_eq!(MPU::new().configure_regions(&layout).err(), Some(MpuError::TooManyRegions));
}

#[test]
fn a_short_layout_leaves_the_other_slots_unused() {
    let layout = [region(0x1000, 0x1000), region(0x4000, 64)];
    let config = MPU::new().configure_regions(&layout).unwrap();
    assert_eq!(config.region(0), Some(layout[0]));
    assert_eq!(config.region(1), Some(layout[1]));
    for i in 2..8 {
        assert_eq!(config.region(i), Some(MpuRegionConfig::disabled()));
    }
}

#[test]
fn the_empty_layout_grants_nothing() {
    let config = MPU::new().configure_regions(&[]).unwrap();
    for i in 0..8 {
        assert_eq!(config.region(i), Some(MpuRegionConfig::disabled()));
    }
    assert!(!config.check_access(0, Access::Read, true));
    assert!(!config.check_access(0x2000_0000, Access::Write, false));
    let fresh = MpuConfig::new();
    for i in 0..8 {
        assert_eq!(fresh.region(i), Some(MpuRegionConfig::disabled()));
    }
}

#[test]
fn the_unused_region_is_well_formed_and_grants_nothing() {
    let unused = MpuRegionConfig::disabled();
    assert_eq!(unused.base, 0);
    assert_eq!(unused.size, 32);
    assert!(!unused.enabled);
    assert_eq!(unused.permissions, Permissions::none());
    assert!(unused.has_valid_size());
    assert!(unused.is_aligned());
    assert!(!unused.is_granted(0, Access::Read, true));
}

#[test]
fn a_size_below_32_bytes_is_refused() {
    for size in [0u32, 1, 2, 4, 8, 16, 31] {
        assert_eq!(
            MPU::new().configure_regions(&[region(0, size)]).err(),
            Some(MpuError::InvalidSize)
        );
    }
    assert!(MPU::new().configure_regions(&[region(0, 32)]).is_ok());
}

#[test]
fn a_size_that_is_no_power_of_two_is_refused() {
    for size in [33u32, 48, 96, 100, 0x300, 0xffff_ffe0, u32::MAX] {
        assert_eq!(
            MPU::new().configure_regions(&[region(0, size)]).err(),
            Some(MpuError::InvalidSize)
        );
    }
    for shift in 5..32 {
        assert!(MPU::new().configure_regions(&[region(0, 1u32 << shift)]).is_ok());
    }
}

#[test]
fn a_base_off_the_32_byte_grid_is_refused() {
    for base in [1u32, 16, 31, 33, 0x2000_0010] {
        assert_eq!(
            MPU::new().configure_regions(&[region(base, 32)]).err(),
            Some(MpuError::Misaligned)
        );
    }
    assert!(MPU::new().configure_regions(&[region(0x2000_0020, 32)]).is_ok());
}

#[test]
fn a_base_that_is_no_multiple_of_the_size_is_refused() {
    assert_eq!(
        MPU::new().configure_regions(&[region(0x2000_0020, 64)]).err(),
        Some(MpuError::Misaligned)
    );
    assert_eq!(
        MPU::new().configure_regions(&[region(0x1000, 0x2000)]).err(),
        Some(MpuError::Misaligned)
    );
    assert!(MPU::new().configure_regions(&[region(0x2000, 0x2000)]).is_ok());
}

#[test]
fn a_disabled_region_is_held_to_the_same_form() {
    let mut bad = region(8, 32);
    bad.enabled = false;
    assert_eq!(MPU::new().configure_regions(&[bad]).err(), Some(MpuError::Misaligned));
}

#[test]
fn an_invalid_size_outranks_a_misaligned_base() {
    let layout = [region(0x20, 64), region(0, 48)];
    assert_eq!(MPU::new().configure_regions(&layout).err(), Some(MpuError::InvalidSize));
}

#[test]
fn active_regions_that_share_a_byte_are_refused() {
    let layout = [region(0x1000, 0x1000), region(0x1800, 0x800)];
    assert_eq!(MPU::new().configure_regions(&layout).err(), Some(MpuError::Overlap));
    let same = [region(0x40, 0x40), region(0x100, 0x20), region(0x40, 0x40)];
    assert_eq!(MPU::new().configure_regions(&same).err(), Some(MpuError::Overlap));
    let adjacent = [region(0x1000, 0x1000), region(0x2000, 0x1000)];
    assert!(MPU::new().configure_regions(&adjacent).is_ok());
    let top = [region(0x8000_0000, 0x8000_0000), region(0x4000_0000, 0x4000_0000)];
    assert!(MPU::new().configure_regions(&top).is_ok());
}

#[test]
fn a_disabled_region_may_lie_over_an_active_one() {
    let mut shadow = region(0x1000, 0x1000);
    shadow.enabled = false;
    let layout = [region(0x1000, 0x1000), shadow];
    let config = MPU::new().configure_regions(&layout).unwrap();
    assert_eq!(config.region(1), Some(shadow));
}

#[test]
fn access_is_granted_inside_active_regions_only() {
    let code = MpuRegionConfig {
        base: 0x1000_0000,
        size: 0x1000,
        permissions: Permissions { read: true, write: false, execute: true, unprivileged: true },
        enabled: true,
    };
    let data = region(0x2000_0000, 0x400);
    let kernel = MpuRegionConfig {
        base: 0x2000_1000,
        size: 0x1000,
        permissions: Permissions { read: true, write: true, execute: false, unprivileged: false },
        enabled: true,
    };
    let mut off = region(0x3000_0000, 0x100);
    off.enabled = false;
    let config = MPU::new().configure_regions(&[code, data, kernel, off]).unwrap();

    assert!(config.check_access(0x1000_0000, Access::Execute, false));
    assert!(config.check_access(0x1000_0fff, Access::Read, false));
    assert!(!config.check_access(0x1000_0fff, Access::Write, false));
    assert!(!config.check_access(0x1000_1000, Access::Read, false));
    assert!(!config.check_access(0x0fff_ffff, Access::Read, false));

    assert!(config.check_access(0x2000_0000, Access::Write, false));
    assert!(config.check_access(0x2000_03ff, Access::Read, false));
    assert!(!config.check_access(0x2000_0000, Access::Execute, false));
    assert!(!config.check_access(0x2000_0400, Access::Read, false));

    assert!(!config.check_access(0x2000_1000, Access::Read, false));
    assert!(!config.check_access(0x2000_1000, Access::Write, false));
    assert!(config.check_access(0x2000_1000, Access::Read, true));
    assert!(config.check_access(0x2000_1fff, Access::Write, true));
    assert!(!config.check_access(0x2000_1000, Access::Execute, true));

    assert!(!config.check_access(0x3000_0000, Access::Read, false));
    assert!(!config.check_access(0x3000_0000, Access::Read, true));
    assert!(!config.check_access(0xffff_ffff, Access::Read, true));
}

#[test]
fn the_last_byte_of_memory_can_be_granted() {
    let top = region(0x8000_0000, 0x8000_0000);
    let config = MPU::new().configure_regions(&[top]).unwrap();
    assert!(config.check_access(0xffff_ffff, Access::Read, false));
    assert!(config.check_access(0x8000_0000, Access::Read, false));
    assert!(!config.check_access(0x7fff_ffff, Access::Read, false));
}

#[test]
fn permissions_are_per_kind_and_per_privilege() {
    let p = Permissions { read: true, write: false, execute: true, unprivileged: false };
    assert!(p.is_permitted(Access::Read, true));
    assert!(!p.is_permitted(Access::Write, true));
    assert!(p.is_permitted(Access::Execute, true));
    assert!(!p.is_permitted(Access::Read, false));
    assert!(!p.is_permitted(Access::Execute, false));
    let none = Permissions::none();
    for access in [Access::Read, Access::Write, Access::Execute] {
        assert!(!none.is_permitted(access, true));
        assert!(!none.is_permitted(access, false));
    }
}

#[test]
fn powers_of_two_are_the_words_with_one_bit() {
    assert!(!is_power_of_two(0));
    assert!(is_power_of_two(1));
    assert!(is_power_of_two(2));
    assert!(!is_power_of_two(3));
    assert!(is_power_of_two(0x8000_0000));
    assert!(!is_power_of_two(0x8000_0001));
    assert!(!is_power_of_two(u32::MAX));
}

#[test]
fn overlap_is_symmetric_and_exact_at_the_edges() {
    let a = region(0x100, 0x100);
    let b = region(0x200, 0x100);
    let c = region(0x180, 0x80);
    assert!(!a.is_overlapping(&b));
    assert!(!b.is_overlapping(&a));
    assert!(a.is_overlapping(&c));
    assert!(c.is_overlapping(&a));
    assert!(a.is_overlapping(&a));
    assert!(!b.is_overlapping(&c));
}
