//! The interrupt controller: pending and enable state of 256 interrupt lines,
//! held as the controller's 32-bit register words.

use vstd::prelude::*;
use vstd::std_specs::bits::u32_trailing_zeros;
use crate::bits::{
    bit32, lemma_bit32_and_not, lemma_bit32_clear, lemma_bit32_lowest, lemma_bit32_nonzero,
    lemma_bit32_set, lemma_bit32_zero, lemma_or_nonzero,
};
use crate::interrupt_mask::InterruptMask;

verus! {

/// Number of 32-line register blocks of the controller.
pub const NVIC_BLOCKS: usize = 8;

/// The lines whose bit is set in a bank of register words: bit `k` of word `b`
/// stands for line `32 * b + k`.
pub open spec fn line_set(words: [u32; 8]) -> Set<int> {
    Set::new(|id: int| 0 <= id < 256 && bit32(words[id / 32], id % 32))
}

/// Sets the bit of line `id` in a bank of register words.
fn set_line(words: &mut [u32; 8], id: u32)
    requires
        id < 256,
    ensures
        line_set(*final(words)) == line_set(*old(words)).insert(id as int),
{
    let block: usize = (id / 32) as usize;
    let k: u32 = id % 32;
    let word: u32 = words[block];
    words[block] = word | (1u32 << k);
    proof {
        assert forall|x: int|
            line_set(*words).contains(x) <==> (line_set(*old(words)).contains(x) || x == id) by {
            if 0 <= x < 256 && x / 32 == block {
                lemma_bit32_set(word, k, x % 32);
            }
        }
        assert(line_set(*words) =~= line_set(*old(words)).insert(id as int));
    }
}

/// Clears the bit of line `id` in a bank of register words.
fn clear_line(words: &mut [u32; 8], id: u32)
    requires
        id < 256,
    ensures
        line_set(*final(words)) == line_set(*old(words)).remove(id as int),
{
    let block: usize = (id / 32) as usize;
    let k: u32 = id % 32;
    let word: u32 = words[block];
    words[block] = word & !(1u32 << k);
    proof {
        assert forall|x: int|
            line_set(*words).contains(x) <==> (line_set(*old(words)).contains(x) && x != id) by {
            if 0 <= x < 256 && x / 32 == block {
                lemma_bit32_clear(word, k, x % 32);
            }
        }
        assert(line_set(*words) =~= line_set(*old(words)).remove(id as int));
    }
}

/// Whether the bit of line `id` is set in a bank of register words.
fn test_line(words: &[u32; 8], id: u32) -> (set: bool)
    ensures
        set == line_set(*words).contains(id as int),
{
    if id < 256 {
        let block: usize = (id / 32) as usize;
        (words[block] >> (id % 32)) & 1u32 == 1u32
    } else {
        false
    }
}

/// Register state of the interrupt controller.
///
/// `ispr` holds the pending bits and `iser` the enable bits. Every value of
/// the registers is a valid state.
#[derive(Clone, Copy, Debug)]
pub struct Nvic {
    pub ispr: [u32; 8],
    pub iser: [u32; 8],
}

impl Nvic {
    /// The pending lines.
    pub open spec fn pending(&self) -> Set<int> {
        line_set(self.ispr)
    }

    /// The enabled lines.
    pub open spec fn enabled(&self) -> Set<int> {
        line_set(self.iser)
    }

    /// The pending lines that `mask` lets through.
    pub open spec fn visible(&self, mask: InterruptMask) -> Set<int> {
        self.pending().difference(mask@)
    }

    /// Some pending line is let through by `mask`.
    pub open spec fn has_visible(&self, mask: InterruptMask) -> bool {
        exists|id: int| self.visible(mask).contains(id)
    }

    /// A controller with no line pending and no line enabled.
    pub fn new() -> (nvic: Self)
        ensures
            nvic.pending() == Set::<int>::empty(),
            nvic.enabled() == Set::<int>::empty(),
    {
        let nvic = Nvic { ispr: [0u32; 8], iser: [0u32; 8] };
        proof {
            assert forall|id: int| !nvic.pending().contains(id) && !nvic.enabled().contains(id) by {
                lemma_bit32_zero(id % 32);
            }
            assert(nvic.pending() =~= Set::<int>::empty());
            assert(nvic.enabled() =~= Set::<int>::empty());
        }
        nvic
    }

    /// Whether line `id` is pending.
    pub fn is_pending(&self, id: u32) -> (pending: bool)
        ensures
            pending == self.pending().contains(id as int),
    {
        test_line(&self.ispr, id)
    }

    /// Whether line `id` is enabled.
    pub fn is_enabled(&self, id: u32) -> (enabled: bool)
        ensures
            enabled == self.enabled().contains(id as int),
    {
        test_line(&self.iser, id)
    }

    /// Marks line `id` pending, as the hardware does when the line is
    /// asserted. A number that is not a line changes nothing.
    pub fn set_pending(&mut self, id: u32)
        ensures
            id < 256 ==> final(self).pending() == old(self).pending().insert(id as int),
            id >= 256 ==> final(self).pending() == old(self).pending(),
            final(self).enabled() == old(self).enabled(),
    {
        if id < 256 {
            set_line(&mut self.ispr, id);
        }
    }

    /// Clears the pending state of line `id`.
    pub fn clear_pending(&mut self, id: u32)
        ensures
            final(self).pending() == old(self).pending().remove(id as int),
            final(self).enabled() == old(self).enabled(),
    {
        if id < 256 {
            clear_line(&mut self.ispr, id);
        } else {
            assert(self.pending().remove(id as int) =~= self.pending());
        }
    }

    /// Enables line `id`. A number that is not a line changes nothing.
    pub fn enable(&mut self, id: u32)
        ensures
            id < 256 ==> final(self).enabled() == old(self).enabled().insert(id as int),
            id >= 256 ==> final(self).enabled() == old(self).enabled(),
            final(self).pending() == old(self).pending(),
    {
        if id < 256 {
            set_line(&mut self.iser, id);
        }
    }

    /// Disables line `id`.
    pub fn disable(&mut self, id: u32)
        ensures
            final(self).enabled() == old(self).enabled().remove(id as int),
            final(self).pending() == old(self).pending(),
    {
        if id < 256 {
            clear_line(&mut self.iser, id);
        } else {
            assert(self.enabled().remove(id as int) =~= self.enabled());
        }
    }

    /// The lowest-numbered pending line that `mask` lets through, or `None`
    /// when there is none.
    pub fn next_pending_with_mask(&self, mask: InterruptMask) -> (next: Option<u32>)
        ensures
            match next {
                Some(id) => self.visible(mask).contains(id as int) && forall|j: int|
                    self.visible(mask).contains(j) ==> id <= j,
                None => !self.has_visible(mask),
            },
    {
        let mut block: usize = 0;
        while block < NVIC_BLOCKS
            invariant
                block <= 8,
                forall|j: int| 0 <= j < 32 * block ==> !self.visible(mask).contains(j),
            decreases 8 - block,
        {
            let excluded: u32 = mask.word(block);
            let masked: u32 = self.ispr[block] & !excluded;
            proof {
                assert forall|k: int| 0 <= k < 32 implies (bit32(masked, k) <==> self.visible(
                    mask,
                ).contains(32 * block + k)) by {
                    lemma_bit32_and_not(self.ispr[block as int], excluded, k);
                }
            }
            if masked != 0 {
                let bit: u32 = masked.trailing_zeros();
                proof {
                    lemma_bit32_lowest(masked);
                    assert forall|j: int| self.visible(mask).contains(j) implies 32 * block + bit
                        <= j by {
                        if j < 32 * block + bit && j >= 32 * block {
                            assert(!bit32(masked, j - 32 * block));
                        }
                    }
                }
                return Some(block as u32 * 32 + bit);
            }
            proof {
                assert forall|j: int| 32 * block <= j < 32 * block + 32 implies !self.visible(
                    mask,
                ).contains(j) by {
                    lemma_bit32_zero(j - 32 * block);
                }
            }
            block = block + 1;
        }
        None
    }

    /// The lowest-numbered pending line, or `None` when no line is pending.
    pub fn next_pending(&self) -> (next: Option<u32>)
        ensures
            match next {
                Some(id) => self.pending().contains(id as int) && forall|j: int|
                    self.pending().contains(j) ==> id <= j,
                None => self.pending() == Set::<int>::empty(),
            },
    {
        let everything = InterruptMask::new();
        assert(self.visible(everything) =~= self.pending());
        let next = self.next_pending_with_mask(everything);
        proof {
            if next is None {
                assert forall|id: int| !self.pending().contains(id) by {
                    assert(!self.visible(everything).contains(id));
                }
                assert(self.pending() =~= Set::<int>::empty());
            }
        }
        next
    }

    /// Whether some pending line is let through by `mask`.
    pub fn has_pending_with_mask(&self, mask: InterruptMask) -> (pending: bool)
        ensures
            pending == self.has_visible(mask),
    {
        let mut seen: u32 = 0;
        let mut block: usize = 0;
        while block < NVIC_BLOCKS
            invariant
                block <= 8,
                seen != 0 <==> exists|j: int| 0 <= j < 32 * block && self.visible(mask).contains(j),
            decreases 8 - block,
        {
            let excluded: u32 = mask.word(block);
            let masked: u32 = self.ispr[block] & !excluded;
            proof {
                assert forall|k: int| 0 <= k < 32 implies (bit32(masked, k) <==> self.visible(
                    mask,
                ).contains(32 * block + k)) by {
                    lemma_bit32_and_not(self.ispr[block as int], excluded, k);
                }
                lemma_bit32_nonzero(masked);
                lemma_or_nonzero(masked, seen);
                if masked != 0 {
                    let k = choose|k: int| bit32(masked, k);
                    assert(self.visible(mask).contains(32 * block + k));
                }
                if exists|j: int| 0 <= j < 32 * block + 32 && self.visible(mask).contains(j) {
                    let j = choose|j: int| 0 <= j < 32 * block + 32 && self.visible(mask).contains(j);
                    if j >= 32 * block {
                        assert(bit32(masked, j - 32 * block));
                    }
                }
            }
            seen = masked | seen;
            block = block + 1;
        }
        proof {
            if self.has_visible(mask) {
                let id = choose|id: int| self.visible(mask).contains(id);
                assert(0 <= id < 32 * block);
            }
        }
        seen != 0
    }

    /// Whether any line is pending.
    pub fn has_pending(&self) -> (pending: bool)
        ensures
            pending == (self.pending() != Set::<int>::empty()),
    {
        let everything = InterruptMask::new();
        assert(self.visible(everything) =~= self.pending());
        let pending = self.has_pending_with_mask(everything);
        proof {
            if !pending {
                assert forall|id: int| !self.pending().contains(id) by {
                    assert(!self.visible(everything).contains(id));
                }
                assert(self.pending() =~= Set::<int>::empty());
            } else {
                let id = choose|id: int| self.visible(everything).contains(id);
                assert(self.pending().contains(id));
            }
        }
        pending
    }
}

} // verus!
