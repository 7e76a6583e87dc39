//! Per-core interrupt masks: the set of interrupt lines a core must ignore.

use vstd::prelude::*;
use crate::bits::{bit128, bit32, lemma_bit128_set, lemma_bit128_slice, lemma_bit128_zero, lemma_bit32_zero};

verus! {

/// The lines named by a list of interrupt numbers.
pub open spec fn lines_of(ids: Seq<u32>) -> Set<int> {
    Set::new(|id: int| exists|i: int| 0 <= i < ids.len() && ids[i] == id)
}

/// A set of interrupt lines, one bit per line: `low` holds lines 0 to 127 and
/// `high` holds lines 128 to 255. A line whose bit is set is excluded: the core
/// that uses the mask never sees it as pending.
#[derive(Clone, Copy, Debug)]
pub struct InterruptMask {
    pub high: u128,
    pub low: u128,
}

impl View for InterruptMask {
    type V = Set<int>;

    /// The excluded lines.
    open spec fn view(&self) -> Set<int> {
        Set::new(|id: int| self.excludes(id))
    }
}

impl InterruptMask {
    /// Line `id` is excluded by this mask.
    pub open spec fn excludes(&self, id: int) -> bool {
        if id < 128 {
            bit128(self.low, id)
        } else {
            bit128(self.high, id - 128)
        }
    }

    /// Line `id` is a line of the controller that this mask lets through.
    pub open spec fn permits(&self, id: int) -> bool {
        0 <= id < 256 && !self.excludes(id)
    }

    /// The mask that excludes no line.
    pub fn new() -> (mask: Self)
        ensures
            mask@ == Set::<int>::empty(),
    {
        let mask = InterruptMask { high: 0, low: 0 };
        assert forall|id: int| !mask.excludes(id) by {
            lemma_bit128_zero(id);
            lemma_bit128_zero(id - 128);
        }
        assert(mask@ =~= Set::<int>::empty());
        mask
    }

    /// Excludes line `id`. Returns `false`, and changes nothing, when `id` is
    /// not a line that a mask can hold.
    pub fn exclude(&mut self, id: u32) -> (ok: bool)
        ensures
            ok == (id < 256),
            ok ==> final(self)@ == old(self)@.insert(id as int),
            !ok ==> *final(self) == *old(self),
    {
        if id < 128 {
            let next: u128 = self.low | (1u128 << (id as u128));
            assert forall|j: int| bit128(next, j) <==> (bit128(self.low, j) || j == id) by {
                lemma_bit128_set(self.low, id as u128, j);
            }
            self.low = next;
            assert(self@ =~= old(self)@.insert(id as int));
            true
        } else if id < 256 {
            let k: u32 = id - 128;
            let next: u128 = self.high | (1u128 << (k as u128));
            assert forall|j: int| bit128(next, j) <==> (bit128(self.high, j) || j == k) by {
                lemma_bit128_set(self.high, k as u128, j);
            }
            self.high = next;
            assert(self@ =~= old(self)@.insert(id as int));
            true
        } else {
            false
        }
    }

    /// The mask that excludes exactly the listed lines, or `None` when the
    /// list names a number that is not a line (256 or above).
    pub fn from_interrupts(ids: &[u32]) -> (result: Option<Self>)
        ensures
            result is Some <==> forall|i: int| 0 <= i < ids@.len() ==> ids@[i] < 256,
            result matches Some(mask) ==> mask@ == lines_of(ids@),
    {
        let mut mask = InterruptMask::new();
        let mut n: usize = 0;
        while n < ids.len()
            invariant
                n <= ids@.len(),
                forall|i: int| 0 <= i < n ==> ids@[i] < 256,
                mask@ == lines_of(ids@.take(n as int)),
            decreases ids@.len() - n,
        {
            let id: u32 = ids[n];
            let ghost before = mask@;
            if !mask.exclude(id) {
                return None;
            }
            proof {
                let prev = ids@.take(n as int);
                let cur = ids@.take(n as int + 1);
                assert forall|x: int| lines_of(cur).contains(x) <==> (lines_of(prev).contains(x)
                    || x == id) by {
                    if lines_of(cur).contains(x) {
                        let i = choose|i: int| 0 <= i < cur.len() && cur[i] == x;
                        if i < n {
                            assert(prev[i] == x);
                        }
                    }
                    if lines_of(prev).contains(x) {
                        let i = choose|i: int| 0 <= i < prev.len() && prev[i] == x;
                        assert(cur[i] == x);
                    }
                    if x == id {
                        assert(cur[n as int] == x);
                    }
                }
                assert(mask@ =~= lines_of(cur));
            }
            n = n + 1;
        }
        assert(ids@.take(n as int) =~= ids@);
        Some(mask)
    }

    /// Whether line `id` is excluded.
    pub fn is_excluded(&self, id: u32) -> (excluded: bool)
        ensures
            excluded == self@.contains(id as int),
    {
        if id < 128 {
            (self.low >> (id as u128)) & 1u128 == 1u128
        } else if id < 256 {
            (self.high >> ((id - 128) as u128)) & 1u128 == 1u128
        } else {
            false
        }
    }

    /// The exclusion bits for the 32 lines of register block `block`: bit `k`
    /// of the result stands for line `32 * block + k`.
    pub fn word(&self, block: usize) -> (word: u32)
        ensures
            forall|k: int| bit32(word, k) <==> (0 <= k < 32 && self@.contains(32 * block + k)),
    {
        if block < 8 {
            let source: u128 = if block < 4 {
                self.low
            } else {
                self.high
            };
            let part: u128 = (block % 4) as u128;
            let word: u32 = #[verifier::truncate]
            ((source >> (32 * part)) as u32);
            assert forall|k: int| bit32(word, k) <==> (0 <= k < 32 && self@.contains(
                32 * block + k,
            )) by {
                lemma_bit128_slice(source, part, k);
            }
            word
        } else {
            assert forall|k: int| bit32(0u32, k) <==> (0 <= k < 32 && self@.contains(
                32 * block + k,
            )) by {
                lemma_bit32_zero(k);
            }
            0
        }
    }
}

} // verus!
