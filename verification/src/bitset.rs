//! A fixed-size set of bits, stored in 64-bit blocks.

use vstd::prelude::*;
use vstd::std_specs::bits::{u64_trailing_zeros, axiom_u64_trailing_zeros};

verus! {

/// Whether bit `j` of `w` is set.
pub open spec fn bit_of(w: u64, j: u64) -> bool {
    (w >> j) & 1u64 == 1u64
}

/// The number of set bits of `w` among its `n` lowest bits.
pub open spec fn ones_below(w: u64, n: nat) -> nat
    decreases n,
{
    if n == 0 {
        0
    } else {
        ones_below(w, (n - 1) as nat) + if bit_of(w, (n - 1) as u64) { 1nat } else { 0nat }
    }
}

/// Counts the ones of a block with `u64::count_ones`.
///
/// The standard library documents `count_ones` as the number of ones in the binary
/// representation, which is the number of set bits among the 64 bits of `w`.
#[verifier::external_body]
fn count_ones(w: u64) -> (r: u32)
    ensures
        r as nat == ones_below(w, 64),
{
    w.count_ones()
}

proof fn lemma_bit_ops(w: u64, j: u64, k: u64)
    requires
        j < 64,
        k < 64,
    ensures
        bit_of(w | (1u64 << j), k) == (k == j || bit_of(w, k)),
        bit_of(w & !(1u64 << j), k) == (k != j && bit_of(w, k)),
        bit_of(w ^ (1u64 << j), k) == (if k == j { !bit_of(w, k) } else { bit_of(w, k) }),
        (w & (1u64 << j) != 0) == bit_of(w, j),
        !bit_of(0u64, k),
        bit_of(0xffff_ffff_ffff_ffffu64, k),
{
    assert(bit_of(w | (1u64 << j), k) == (k == j || bit_of(w, k))) by (bit_vector)
        requires j < 64, k < 64;
    assert(bit_of(w & !(1u64 << j), k) == (k != j && bit_of(w, k))) by (bit_vector)
        requires j < 64, k < 64;
    assert(bit_of(w ^ (1u64 << j), k) == (if k == j { !bit_of(w, k) } else { bit_of(w, k) }))
        by (bit_vector)
        requires j < 64, k < 64;
    assert((w & (1u64 << j) != 0) == bit_of(w, j)) by (bit_vector)
        requires j < 64;
    assert(!bit_of(0u64, k)) by (bit_vector);
    assert(bit_of(0xffff_ffff_ffff_ffffu64, k)) by (bit_vector)
        requires k < 64;
}

proof fn lemma_location(bit: u64)
    ensures
        bit >> 6u64 == bit / 64,
        bit & 63u64 == bit % 64,
{
    assert(bit >> 6u64 == bit / 64) by (bit_vector);
    assert(bit & 63u64 == bit % 64) by (bit_vector);
}

/// A set of the bits `0 .. 64 * N_64`.
pub struct BitSet<const N_64: usize> {
    blocks: [u64; N_64],
}

impl<const N_64: usize> BitSet<N_64> {
    /// Whether `bit` is in the set.
    pub closed spec fn has(&self, bit: int) -> bool {
        &&& 0 <= bit < 64 * N_64
        &&& bit_of(self.blocks@[bit / 64], (bit % 64) as u64)
    }

    /// The bits in the set.
    pub closed spec fn view(&self) -> Set<u64> {
        Set::new(|b: u64| self.has(b as int))
    }

    /// The number of set bits below `n`.
    pub closed spec fn count_below(&self, n: int) -> nat
        decreases n,
    {
        if n <= 0 {
            0
        } else {
            self.count_below(n - 1) + if self.has(n - 1) { 1nat } else { 0nat }
        }
    }

    /// Creates an empty set.
    pub fn new() -> (r: Self)
        ensures
            r@ == Set::<u64>::empty(),
    {
        let r = BitSet { blocks: [0u64; N_64] };
        assert forall|b: u64| !r@.contains(b) by {
            if b < 64 * N_64 {
                lemma_bit_ops(0u64, 0u64, b % 64);
            }
        }
        assert(r@ =~= Set::<u64>::empty());
        r
    }

    /// Creates the set of every bit `0 .. 64 * N_64`.
    pub fn all_set() -> (r: Self)
        ensures
            r@ == Set::new(|b: u64| b < 64 * N_64),
    {
        let r = BitSet { blocks: [0xffff_ffff_ffff_ffffu64; N_64] };
        assert forall|b: u64| r@.contains(b) <==> b < 64 * N_64 by {
            if b < 64 * N_64 {
                lemma_bit_ops(0u64, 0u64, b % 64);
            }
        }
        assert(r@ =~= Set::new(|b: u64| b < 64 * N_64));
        r
    }

    fn bit_location(bit: u64) -> (r: (u64, u64))
        ensures
            r.0 == bit / 64,
            r.1 == 1u64 << (bit % 64),
    {
        proof {
            lemma_location(bit);
        }
        (bit >> 6, 1 << (bit & 63))
    }

    /// Counts the bits in the set.
    pub fn count(&self) -> (r: usize)
        requires
            64 * N_64 <= usize::MAX,
        ensures
            r == self@.len(),
    {
        proof {
            self.lemma_count_below(64 * N_64);
            assert(self@ =~= self.below(64 * N_64));
        }
        let mut count: usize = 0;
        let mut i: usize = 0;
        while i < N_64
            invariant
                i <= N_64,
                64 * N_64 <= usize::MAX,
                count == self.count_below(64 * i),
            decreases N_64 - i,
        {
            let c = count_ones(self.blocks[i]);
            proof {
                self.lemma_count_block(i as int, 64);
            }
            count = count + c as usize;
            i = i + 1;
        }
        count
    }

    proof fn lemma_count_block(&self, i: int, j: nat)
        requires
            0 <= i < N_64,
            j <= 64,
        ensures
            self.count_below(64 * i + j) == self.count_below(64 * i) + ones_below(
                self.blocks@[i],
                j,
            ),
            self.count_below(64 * i + j) <= 64 * i + j,
        decreases j,
    {
        if j == 0 {
            self.lemma_count_bound(64 * i);
        } else {
            self.lemma_count_block(i, (j - 1) as nat);
            let b = 64 * i + j - 1;
            assert(b / 64 == i && b % 64 == j - 1) by (nonlinear_arith)
                requires b == 64 * i + j - 1, 1 <= j <= 64;
        }
    }

    /// The set bits below `n`.
    closed spec fn below(&self, n: int) -> Set<u64> {
        Set::new(|b: u64| b < n && self.has(b as int))
    }

    /// Every bit of a set lies below `64 * N_64`, so the set is finite: `count` gives the
    /// number of bits `b < 64 * N_64` that the set holds.
    pub proof fn lemma_bits_below(&self)
        requires
            64 * N_64 <= usize::MAX,
        ensures
            self@.finite(),
            forall|b: u64| #[trigger] self@.contains(b) ==> b < 64 * N_64,
            self@ == Set::new(|b: u64| b < 64 * N_64 && self@.contains(b)),
    {
        self.lemma_count_below(64 * N_64);
        assert(self@ =~= self.below(64 * N_64));
        assert(self@ =~= Set::new(|b: u64| b < 64 * N_64 && self@.contains(b)));
    }

    proof fn lemma_count_below(&self, n: int)
        requires
            0 <= n <= 64 * N_64,
            64 * N_64 <= usize::MAX,
        ensures
            self.below(n).finite(),
            self.count_below(n) == self.below(n).len(),
        decreases n,
    {
        if n == 0 {
            assert(self.below(0) =~= Set::<u64>::empty());
        } else {
            self.lemma_count_below(n - 1);
            let b = (n - 1) as u64;
            if self.has(n - 1) {
                assert(self.below(n) =~= self.below(n - 1).insert(b));
            } else {
                assert(self.below(n) =~= self.below(n - 1));
            }
        }
    }

    proof fn lemma_count_bound(&self, n: int)
        ensures
            n >= 0 ==> self.count_below(n) <= n,
        decreases n,
    {
        if n > 0 {
            self.lemma_count_bound(n - 1);
        }
    }

    /// Whether `bit` is in the set.
    pub fn contains(&self, bit: u64) -> (r: bool)
        requires
            bit < 64 * N_64,
        ensures
            r == self@.contains(bit),
    {
        let (index, mask) = Self::bit_location(bit);
        proof {
            lemma_bit_ops(self.blocks@[index as int], bit % 64, bit % 64);
        }
        self.blocks[index as usize] & mask != 0
    }

    /// Adds `bit` to the set.
    pub fn set(&mut self, bit: u64)
        requires
            bit < 64 * N_64,
        ensures
            final(self)@ == old(self)@.insert(bit),
    {
        let (index, mask) = Self::bit_location(bit);
        let i = index as usize;
        self.blocks[i] = self.blocks[i] | mask;
        proof {
            assert forall|b: u64| self@.contains(b) == old(self)@.insert(bit).contains(b) by {
                if b < 64 * N_64 && b / 64 == index {
                    lemma_bit_ops(old(self).blocks@[i as int], bit % 64, b % 64);
                }
            }
            assert(self@ =~= old(self)@.insert(bit));
        }
    }

    /// Removes `bit` from the set.
    pub fn clear(&mut self, bit: u64)
        requires
            bit < 64 * N_64,
        ensures
            final(self)@ == old(self)@.remove(bit),
    {
        let (index, mask) = Self::bit_location(bit);
        let i = index as usize;
        self.blocks[i] = self.blocks[i] & !mask;
        proof {
            assert forall|b: u64| self@.contains(b) == old(self)@.remove(bit).contains(b) by {
                if b < 64 * N_64 && b / 64 == index {
                    lemma_bit_ops(old(self).blocks@[i as int], bit % 64, b % 64);
                }
            }
            assert(self@ =~= old(self)@.remove(bit));
        }
    }

    /// Adds `bit` to the set if it is absent, and removes it if it is present.
    pub fn toggle(&mut self, bit: u64)
        requires
            bit < 64 * N_64,
        ensures
            final(self)@ == toggled(old(self)@, bit),
    {
        let (index, mask) = Self::bit_location(bit);
        let i = index as usize;
        self.blocks[i] = self.blocks[i] ^ mask;
        proof {
            let target = if old(self)@.contains(bit) {
                old(self)@.remove(bit)
            } else {
                old(self)@.insert(bit)
            };
            assert forall|b: u64| self@.contains(b) == target.contains(b) by {
                if b < 64 * N_64 && b / 64 == index {
                    lemma_bit_ops(old(self).blocks@[i as int], bit % 64, b % 64);
                }
            }
            assert(self@ =~= target);
        }
    }
}

/// The set with `bit` added if it is absent and removed if it is present.
pub open spec fn toggled(s: Set<u64>, bit: u64) -> Set<u64> {
    if s.contains(bit) {
        s.remove(bit)
    } else {
        s.insert(bit)
    }
}

/// Toggling a bit twice gives the set back.
pub proof fn lemma_toggle_twice(s: Set<u64>, bit: u64)
    ensures
        toggled(toggled(s, bit), bit) == s,
{
    if s.contains(bit) {
        assert(s.remove(bit).insert(bit) =~= s);
    } else {
        assert(s.insert(bit).remove(bit) =~= s);
    }
}

/// A bit that was set is in the set and a bit that was cleared is not; no other bit changes.
pub proof fn lemma_set_and_clear(s: Set<u64>, bit: u64, other: u64)
    ensures
        s.insert(bit).contains(bit),
        !s.remove(bit).contains(bit),
        other != bit ==> s.insert(bit).contains(other) == s.contains(other),
        other != bit ==> s.remove(bit).contains(other) == s.contains(other),
{
}

/// An iterator over the bits of a [`BitSet`], in increasing order.
pub struct BitSetIter<'a, const N_64: usize> {
    block_index: usize,
    block_val: u64,
    blocks: &'a [u64; N_64],
}

impl<const N_64: usize> BitSet<N_64> {
    /// An iterator over the bits in the set, lowest first.
    pub fn iter(&self) -> (r: BitSetIter<'_, N_64>)
        requires
            0 < N_64,
            64 * N_64 <= u32::MAX,
        ensures
            r.wf(),
            r.remaining() == self@,
    {
        let r = BitSetIter::new(&self.blocks);
        proof {
            assert forall|b: u64| r.remaining().contains(b) == self@.contains(b) by {
                if b < 64 * N_64 {
                    assert(b / 64 == 0 ==> b % 64 == b);
                }
            }
            assert(r.remaining() =~= self@);
        }
        r
    }
}

impl<'a, const N_64: usize> BitSetIter<'a, N_64> {
    /// The iterator's invariant.
    pub closed spec fn wf(&self) -> bool {
        &&& 0 < N_64
        &&& 64 * N_64 <= u32::MAX
        &&& self.block_index <= N_64
        &&& self.block_index == N_64 ==> self.block_val == 0
    }

    /// Whether `b` is still to be yielded.
    pub closed spec fn yields(&self, b: int) -> bool {
        ||| (b / 64 == self.block_index && 0 <= b && bit_of(self.block_val, (b % 64) as u64))
        ||| (b / 64 > self.block_index && 0 <= b < 64 * N_64 && bit_of(
            self.blocks@[b / 64],
            (b % 64) as u64,
        ))
    }

    /// The bits that are still to be yielded.
    pub closed spec fn remaining(&self) -> Set<u64> {
        Set::new(|b: u64| self.yields(b as int))
    }

    fn new(blocks: &'a [u64; N_64]) -> (r: BitSetIter<'a, N_64>)
        requires
            0 < N_64,
            64 * N_64 <= u32::MAX,
        ensures
            r.wf(),
            r.block_index == 0,
            r.block_val == blocks@[0],
            r.blocks == blocks,
    {
        BitSetIter { block_index: 0, block_val: blocks[0], blocks }
    }

    /// Yields the lowest bit that is still to be yielded, and removes it.
    pub fn next(&mut self) -> (r: Option<u64>)
        requires
            old(self).wf(),
        ensures
            final(self).wf(),
            r is None ==> old(self).remaining() == Set::<u64>::empty(),
            r is None ==> final(self).remaining() == Set::<u64>::empty(),
            r matches Some(b) ==> {
                &&& old(self).remaining().contains(b)
                &&& forall|x: u64| old(self).remaining().contains(x) ==> b <= x
                &&& final(self).remaining() == old(self).remaining().remove(b)
            },
    {
        let ghost start = self.remaining();
        while self.block_index < N_64
            invariant_except_break
                start == old(self).remaining(),
                self.wf(),
                self.remaining() == start,
            ensures
                start == old(self).remaining(),
                self.wf(),
                self.remaining() == start,
                self.block_index == N_64,
            decreases N_64 - self.block_index,
        {
            if self.block_val != 0 {
                let next_bit = self.block_val.trailing_zeros();
                let ghost old_val = self.block_val;
                let ghost bi = self.block_index;
                proof {
                    axiom_u64_trailing_zeros(old_val);
                }
                self.block_val = self.block_val & !(1u64 << next_bit);
                let result = (u64::BITS * self.block_index as u32 + next_bit) as u64;
                proof {
                    let nb = next_bit as u64;
                    assert(result as int == 64 * bi + nb);
                    assert(result / 64 == bi && result % 64 == nb) by (nonlinear_arith)
                        requires result as int == 64 * bi + nb, nb < 64;
                    assert(bit_of(old_val, nb));
                    assert(start.contains(result));
                    assert forall|x: u64| start.contains(x) implies result <= x by {
                        if x / 64 == bi {
                            assert(x % 64 >= nb) by {
                                if x % 64 < nb {
                                    assert((old_val >> ((x % 64) as u64)) & 1u64 == 0u64);
                                }
                            }
                        }
                    }
                    assert forall|x: u64| self.remaining().contains(x) == start.remove(result).contains(x) by {
                        if x / 64 == bi {
                            lemma_bit_ops(old_val, nb, (x % 64) as u64);
                            assert(x == result <==> x % 64 == nb) by (nonlinear_arith)
                                requires x / 64 == bi, result / 64 == bi, result % 64 == nb;
                        }
                    }
                    assert(self.remaining() =~= start.remove(result));
                }
                return Some(result);
            } else {
                proof {
                    assert forall|x: u64| #![auto] start.contains(x) implies x / 64 > self.block_index by {
                        if x / 64 == self.block_index {
                            lemma_bit_ops(0u64, 0u64, (x % 64) as u64);
                        }
                    }
                }
                self.block_index = self.block_index + 1;
                if self.block_index < N_64 {
                    self.block_val = self.blocks[self.block_index];
                } else {
                    proof {
                        assert forall|x: u64| !start.contains(x) by {
                            if start.contains(x) {
                                assert(x / 64 >= N_64);
                                assert(x >= 64 * N_64) by (nonlinear_arith)
                                    requires x / 64 >= N_64;
                            }
                        }
                        assert forall|x: u64| !self.remaining().contains(x) by {
                            if x / 64 == self.block_index {
                                lemma_bit_ops(0u64, 0u64, (x % 64) as u64);
                            }
                        }
                        assert(start =~= Set::<u64>::empty());
                        assert(self.remaining() =~= Set::<u64>::empty());
                    }
                    return None;
                }
                assert(self.remaining() =~= start);
            }
        }
        proof {
            assert forall|x: u64| !self.remaining().contains(x) by {
                if x / 64 == self.block_index {
                    lemma_bit_ops(0u64, 0u64, (x % 64) as u64);
                }
            }
            assert(start =~= Set::<u64>::empty());
        }
        None
    }
}

/// The set of all the bits below `n` has `n` bits: a full set of `64 * N_64` bits counts
/// `64 * N_64`.
pub proof fn lemma_full_len(n: int)
    requires
        0 <= n <= 0x1_0000_0000_0000_0000,
    ensures
        Set::new(|b: u64| b < n).finite(),
        Set::new(|b: u64| b < n).len() == n,
    decreases n,
{
    if n == 0 {
        assert(Set::new(|b: u64| b < n) =~= Set::<u64>::empty());
    } else {
        lemma_full_len(n - 1);
        let b = (n - 1) as u64;
        assert(Set::new(|x: u64| x < n) =~= Set::new(|x: u64| x < n - 1).insert(b));
    }
}

} // verus!
