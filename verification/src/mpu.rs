//! The memory protection unit: validation of a process's region layout and
//! the access decision that a validated configuration implies.

use vstd::prelude::*;
use vstd::arithmetic::div_mod::{lemma_fundamental_div_mod, lemma_mod_multiples_basic};
use vstd::arithmetic::mul::{lemma_mul_is_associative, lemma_mul_is_commutative};
use vstd::arithmetic::power2::is_pow2;

verus! {

/// Number of protection regions of the unit.
pub const MPU_REGIONS: usize = 8;

/// Smallest size of a region in bytes, and the alignment every region has at least.
pub const MPU_MIN_ALIGN: u32 = 32;

/// A kind of memory access.
#[derive(Clone, Copy, Debug, PartialEq, Eq, Structural)]
pub enum Access {
    Read,
    Write,
    Execute,
}

/// What a region grants.
#[derive(Clone, Copy, Debug, PartialEq, Eq, Structural)]
pub struct Permissions {
    pub read: bool,
    pub write: bool,
    pub execute: bool,
    /// The grant extends to unprivileged code. Without it only privileged
    /// code may use the region.
    pub unprivileged: bool,
}

impl Permissions {
    /// These permissions grant `access` to code of the given privilege.
    pub open spec fn permits(self, access: Access, privileged: bool) -> bool {
        (privileged || self.unprivileged) && match access {
            Access::Read => self.read,
            Access::Write => self.write,
            Access::Execute => self.execute,
        }
    }

    /// Permissions that grant nothing.
    pub fn none() -> (permissions: Self)
        ensures
            permissions == (Permissions {
                read: false,
                write: false,
                execute: false,
                unprivileged: false,
            }),
    {
        Permissions { read: false, write: false, execute: false, unprivileged: false }
    }

    /// Whether these permissions grant `access` to code of the given privilege.
    pub fn is_permitted(&self, access: Access, privileged: bool) -> (permitted: bool)
        ensures
            permitted == self.permits(access, privileged),
    {
        if !privileged && !self.unprivileged {
            return false;
        }
        match access {
            Access::Read => self.read,
            Access::Write => self.write,
            Access::Execute => self.execute,
        }
    }
}

/// One protection region: the bytes from `base` up to, not including,
/// `base + size`.
#[derive(Clone, Copy, Debug, PartialEq, Eq, Structural)]
pub struct MpuRegionConfig {
    pub base: u32,
    pub size: u32,
    pub permissions: Permissions,
    pub enabled: bool,
}

impl MpuRegionConfig {
    /// The size is a power of two of at least 32 bytes.
    pub open spec fn size_valid(self) -> bool {
        self.size >= MPU_MIN_ALIGN && is_pow2(self.size as int)
    }

    /// The base is a multiple of the size.
    pub open spec fn aligned(self) -> bool {
        self.size != 0 && self.base as int % self.size as int == 0
    }

    /// The region covers `address`.
    pub open spec fn contains(self, address: u32) -> bool {
        self.base <= address < self.base + self.size
    }

    /// The two regions share a byte.
    pub open spec fn overlaps(self, other: MpuRegionConfig) -> bool {
        self.base < other.base + other.size && other.base < self.base + self.size
    }

    /// The region is active and grants `access` at `address` to code of the
    /// given privilege.
    pub open spec fn grants(self, address: u32, access: Access, privileged: bool) -> bool {
        self.enabled && self.contains(address) && self.permissions.permits(access, privileged)
    }

    /// The descriptor of an unused region. It is well formed and grants nothing.
    pub open spec fn unused() -> MpuRegionConfig {
        MpuRegionConfig {
            base: 0,
            size: MPU_MIN_ALIGN,
            permissions: Permissions {
                read: false,
                write: false,
                execute: false,
                unprivileged: false,
            },
            enabled: false,
        }
    }

    /// The descriptor of an unused region.
    pub fn disabled() -> (region: Self)
        ensures
            region == MpuRegionConfig::unused(),
    {
        MpuRegionConfig {
            base: 0,
            size: MPU_MIN_ALIGN,
            permissions: Permissions::none(),
            enabled: false,
        }
    }

    /// Whether the size is a power of two of at least 32 bytes.
    pub fn has_valid_size(&self) -> (valid: bool)
        ensures
            valid == self.size_valid(),
    {
        self.size >= MPU_MIN_ALIGN && is_power_of_two(self.size)
    }

    /// Whether the base is a multiple of the size.
    pub fn is_aligned(&self) -> (aligned: bool)
        ensures
            aligned == self.aligned(),
    {
        self.size != 0 && self.base % self.size == 0
    }

    /// Whether the two regions share a byte.
    pub fn is_overlapping(&self, other: &MpuRegionConfig) -> (overlapping: bool)
        ensures
            overlapping == self.overlaps(*other),
    {
        (self.base as u64) < other.base as u64 + other.size as u64 && (other.base as u64)
            < self.base as u64 + self.size as u64
    }

    /// Whether the region is active and grants `access` at `address` to code
    /// of the given privilege.
    pub fn is_granted(&self, address: u32, access: Access, privileged: bool) -> (granted: bool)
        ensures
            granted == self.grants(address, access, privileged),
    {
        self.enabled && self.base <= address && (address as u64) < self.base as u64
            + self.size as u64 && self.permissions.is_permitted(access, privileged)
    }
}

/// A non-zero word with a single bit set is a power of two, and no other word is.
proof fn lemma_single_bit_is_pow2(n: u32)
    ensures
        (n != 0 && n & ((n - 1) as u32) == 0) <==> is_pow2(n as int),
    decreases n,
{
    reveal(is_pow2);
    if n == 0 {
    } else if n == 1 {
        assert(1u32 & ((1u32 - 1) as u32) == 0) by (bit_vector);
    } else {
        let half: u32 = n / 2;
        lemma_single_bit_is_pow2(half);
        assert((n & ((n - 1) as u32) == 0) <==> (n % 2 == 0 && half != 0 && half & ((half - 1) as u32)
            == 0)) by (bit_vector)
            requires
                n > 1,
                half == n / 2,
        ;
    }
}

/// Whether `n` is a power of two.
pub fn is_power_of_two(n: u32) -> (power: bool)
    ensures
        power == is_pow2(n as int),
{
    proof {
        lemma_single_bit_is_pow2(n);
    }
    n != 0 && n & (n - 1) == 0
}

/// Why a region layout is refused.
#[derive(Clone, Copy, Debug, PartialEq, Eq, Structural)]
pub enum MpuError {
    /// The layout has more regions than the unit.
    TooManyRegions,
    /// A region's size is below 32 bytes or not a power of two.
    InvalidSize,
    /// A region's base is not a multiple of its size.
    Misaligned,
    /// Two active regions share a byte.
    Overlap,
}

/// Some region of the layout has an invalid size.
pub open spec fn some_size_invalid(layout: Seq<MpuRegionConfig>) -> bool {
    exists|i: int| 0 <= i < layout.len() && !layout[i].size_valid()
}

/// Some region of the layout is misaligned.
pub open spec fn some_misaligned(layout: Seq<MpuRegionConfig>) -> bool {
    exists|i: int| 0 <= i < layout.len() && !layout[i].aligned()
}

/// Two active regions of the layout overlap.
pub open spec fn some_overlap(layout: Seq<MpuRegionConfig>) -> bool {
    exists|i: int, j: int|
        0 <= i < j < layout.len() && layout[i].enabled && layout[j].enabled && layout[i].overlaps(
            layout[j],
        )
}

/// The reason for which a layout is refused, or `None` for a layout that
/// the unit accepts. Where several reasons hold, the first in the order of
/// `MpuError` is given.
pub open spec fn layout_error(layout: Seq<MpuRegionConfig>) -> Option<MpuError> {
    if layout.len() > MPU_REGIONS {
        Some(MpuError::TooManyRegions)
    } else if some_size_invalid(layout) {
        Some(MpuError::InvalidSize)
    } else if some_misaligned(layout) {
        Some(MpuError::Misaligned)
    } else if some_overlap(layout) {
        Some(MpuError::Overlap)
    } else {
        None
    }
}

/// The regions that the unit holds for a layout: the layout's regions in
/// their order, then unused regions up to the unit's eight.
pub open spec fn installed(layout: Seq<MpuRegionConfig>) -> Seq<MpuRegionConfig> {
    Seq::new(
        8,
        |i: int|
            if i < layout.len() {
                layout[i]
            } else {
                MpuRegionConfig::unused()
            },
    )
}

/// Some active region of the layout grants `access` at `address` to code of
/// the given privilege.
pub open spec fn layout_grants(
    layout: Seq<MpuRegionConfig>,
    address: u32,
    access: Access,
    privileged: bool,
) -> bool {
    exists|i: int| 0 <= i < layout.len() && layout[i].grants(address, access, privileged)
}

/// The unit takes any layout of up to eight well-formed regions whose
/// active regions do not overlap, eight included, and no layout of more.
pub proof fn lemma_region_count_limit(layout: Seq<MpuRegionConfig>)
    ensures
        layout.len() > 8 ==> layout_error(layout) == Some(MpuError::TooManyRegions),
        layout.len() <= 8 && !some_size_invalid(layout) && !some_misaligned(layout)
            && !some_overlap(layout) ==> layout_error(layout) is None,
{
}

/// A power of two of at least 32 is a multiple of 32.
proof fn lemma_pow2_multiple_of_32(n: int)
    requires
        is_pow2(n),
        n >= 32,
    ensures
        n % 32 == 0,
{
    reveal_with_fuel(is_pow2, 6);
}

/// A layout with a region whose base or size is not a multiple of 32 bytes
/// is refused, whatever else it holds.
pub proof fn lemma_unaligned_region_refused(layout: Seq<MpuRegionConfig>, i: int)
    requires
        0 <= i < layout.len(),
        layout[i].base % MPU_MIN_ALIGN != 0 || layout[i].size % MPU_MIN_ALIGN != 0
            || layout[i].size == 0,
    ensures
        layout_error(layout) is Some,
        layout_error(layout) != Some(MpuError::Overlap),
{
    let region = layout[i];
    if region.size_valid() && region.aligned() {
        lemma_pow2_multiple_of_32(region.size as int);
        let base: int = region.base as int;
        let size: int = region.size as int;
        let times: int = base / size;
        let blocks: int = size / 32;
        lemma_fundamental_div_mod(base, size);
        lemma_fundamental_div_mod(size, 32);
        assert(base == (32 * blocks) * times);
        lemma_mul_is_associative(32, blocks, times);
        lemma_mul_is_commutative(32, blocks * times);
        lemma_mod_multiples_basic(blocks * times, 32);
    }
}

/// What an installed layout grants is what its active regions grant: the
/// unused slots add nothing, so every address outside the layout's active
/// regions is denied.
pub proof fn lemma_installed_grants(
    layout: Seq<MpuRegionConfig>,
    config: MpuConfig,
    address: u32,
    access: Access,
    privileged: bool,
)
    requires
        layout.len() <= 8,
        config@ == installed(layout),
    ensures
        config.allows(address, access, privileged) == layout_grants(
            layout,
            address,
            access,
            privileged,
        ),
{
    if config.allows(address, access, privileged) {
        let i = choose|i: int|
            0 <= i < config@.len() && config@[i].grants(address, access, privileged);
        assert(i < layout.len());
        assert(layout[i].grants(address, access, privileged));
    }
    if layout_grants(layout, address, access, privileged) {
        let i = choose|i: int| 0 <= i < layout.len() && layout[i].grants(address, access, privileged);
        assert(config@[i].grants(address, access, privileged));
    }
}

/// A validated configuration of all regions of the unit.
#[derive(Clone, Copy, Debug)]
pub struct MpuConfig {
    regions: [MpuRegionConfig; 8],
}

impl View for MpuConfig {
    type V = Seq<MpuRegionConfig>;

    closed spec fn view(&self) -> Seq<MpuRegionConfig> {
        self.regions@
    }
}

impl MpuConfig {
    /// The configuration grants `access` at `address` to code of the given
    /// privilege: some active region does.
    pub open spec fn allows(&self, address: u32, access: Access, privileged: bool) -> bool {
        layout_grants(self@, address, access, privileged)
    }

    /// A configuration has a region for each of the eight slots.
    pub proof fn lemma_eight_slots(&self)
        ensures
            self@.len() == 8,
    {
    }

    /// The configuration in which every region is unused. It grants nothing.
    pub fn new() -> (config: Self)
        ensures
            config@ == installed(Seq::<MpuRegionConfig>::empty()),
            forall|address: u32, access: Access, privileged: bool|
                !config.allows(address, access, privileged),
    {
        let config = MpuConfig { regions: [MpuRegionConfig::disabled();8] };
        assert(config@ =~= installed(Seq::<MpuRegionConfig>::empty()));
        config
    }

    /// The region in slot `index`, or `None` when the unit has no such slot.
    pub fn region(&self, index: usize) -> (region: Option<MpuRegionConfig>)
        ensures
            self@.len() == 8,
            region == if index < 8 {
                Some(self@[index as int])
            } else {
                None
            },
    {
        if index < MPU_REGIONS {
            Some(self.regions[index])
        } else {
            None
        }
    }

    /// Whether the configuration grants `access` at `address` to code of the
    /// given privilege.
    pub fn check_access(&self, address: u32, access: Access, privileged: bool) -> (allowed: bool)
        ensures
            allowed == self.allows(address, access, privileged),
    {
        let mut i: usize = 0;
        while i < MPU_REGIONS
            invariant
                i <= 8,
                self@.len() == 8,
                forall|k: int| 0 <= k < i ==> !self@[k].grants(address, access, privileged),
            decreases 8 - i,
        {
            if self.regions[i].is_granted(address, access, privileged) {
                return true;
            }
            i = i + 1;
        }
        false
    }
}

/// The memory protection unit of the Cortex-M33 as the kernel configures it:
/// eight regions with a granularity of 32 bytes.
#[derive(Clone, Copy, Debug)]
pub struct MPU {}

impl MPU {
    pub fn new() -> (mpu: Self) {
        MPU {  }
    }

    /// Validates a process's layout and gives the configuration that
    /// installs it. Region `i` of the layout goes to slot `i`; the slots
    /// after the layout are unused. A layout with an error gives no
    /// configuration at all.
    pub fn configure_regions(&self, layout: &[MpuRegionConfig]) -> (result: Result<
        MpuConfig,
        MpuError,
    >)
        ensures
            match result {
                Ok(config) => layout_error(layout@) is None && config@ == installed(layout@),
                Err(error) => layout_error(layout@) == Some(error),
            },
    {
        let count: usize = layout.len();
        if count > MPU_REGIONS {
            return Err(MpuError::TooManyRegions);
        }
        let mut i: usize = 0;
        while i < count
            invariant
                i <= count,
                count == layout@.len(),
                count <= 8,
                forall|k: int| 0 <= k < i ==> layout@[k].size_valid(),
            decreases count - i,
        {
            if !layout[i].has_valid_size() {
                assert(!layout@[i as int].size_valid());
                return Err(MpuError::InvalidSize);
            }
            i = i + 1;
        }
        i = 0;
        while i < count
            invariant
                i <= count,
                count == layout@.len(),
                count <= 8,
                !some_size_invalid(layout@),
                forall|k: int| 0 <= k < i ==> layout@[k].aligned(),
            decreases count - i,
        {
            if !layout[i].is_aligned() {
                assert(!layout@[i as int].aligned());
                return Err(MpuError::Misaligned);
            }
            i = i + 1;
        }
        i = 0;
        while i < count
            invariant
                i <= count,
                count == layout@.len(),
                count <= 8,
                !some_size_invalid(layout@),
                !some_misaligned(layout@),
                forall|a: int, b: int|
                    0 <= a < b < count && a < i ==> !(layout@[a].enabled && layout@[b].enabled
                        && layout@[a].overlaps(layout@[b])),
            decreases count - i,
        {
            let mut j: usize = i + 1;
            while j < count
                invariant
                    i < j <= count,
                    count == layout@.len(),
                    count <= 8,
                    !some_size_invalid(layout@),
                    !some_misaligned(layout@),
                    forall|b: int|
                        i < b < j ==> !(layout@[i as int].enabled && layout@[b].enabled
                            && layout@[i as int].overlaps(layout@[b])),
                decreases count - j,
            {
                if layout[i].enabled && layout[j].enabled && layout[i].is_overlapping(&layout[j]) {
                    assert(layout@[i as int].overlaps(layout@[j as int]));
                    return Err(MpuError::Overlap);
                }
                j = j + 1;
            }
            i = i + 1;
        }
        assert(!some_overlap(layout@));
        let mut regions: [MpuRegionConfig; 8] = [MpuRegionConfig::disabled();8];
        i = 0;
        while i < count
            invariant
                i <= count,
                count == layout@.len(),
                count <= 8,
                forall|k: int| 0 <= k < i ==> regions@[k] == layout@[k],
                forall|k: int| i <= k < 8 ==> regions@[k] == MpuRegionConfig::unused(),
            decreases count - i,
        {
            regions[i] = layout[i];
            i = i + 1;
        }
        let config = MpuConfig { regions };
        assert(config@ =~= installed(layout@));
        Ok(config)
    }
}

} // verus!
