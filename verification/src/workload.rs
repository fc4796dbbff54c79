//! Candidate operations and their sizing: the deterministic work functions a
//! benchmark loop feeds to the repetition tester, and the arithmetic that
//! snaps a requested cache-region size to whole blocks. The loop drivers that
//! read timers and invoke these repeatedly live with the caller.
use vstd::prelude::*;
use vstd::pervasive::VecAdditionalExecFns;

verus! {

/// Sizing for a cache test: how many 256-byte blocks to touch per inner pass
/// (`inner_count`), how many passes cover the full buffer (`outer_count`),
/// and how many bytes those passes really touch (`real_size`).
#[derive(Clone, Copy, Debug, PartialEq, Eq, Structural)]
pub struct CacheSizeTest {
    /// Number of 256-byte blocks to move per pass.
    pub inner_count: u64,
    pub outer_count: u64,
    pub real_size: u64,
}

impl CacheSizeTest {
    /// Snaps `cache_size` down to a whole number of 256-byte blocks and fits
    /// as many passes of that region as the full buffer holds. Regions
    /// smaller than one block cannot be tested.
    pub fn new(full_size: u64, cache_size: u64) -> (r: Self)
        requires
            cache_size >= 256,
        ensures
            r.inner_count == cache_size / 256,
            r.outer_count == full_size as int / (r.inner_count * 256),
            r.real_size == (r.inner_count * 256) * r.outer_count,
            r.real_size <= full_size,
    {
        let inner_count = cache_size / 256;
        proof {
            vstd::arithmetic::div_mod::lemma_fundamental_div_mod(cache_size as int, 256);
            vstd::arithmetic::div_mod::lemma_mod_bound(cache_size as int, 256);
        }
        let snapped = inner_count * 256;
        let outer_count = full_size / snapped;
        proof {
            vstd::arithmetic::div_mod::lemma_fundamental_div_mod(full_size as int, snapped as int);
            vstd::arithmetic::div_mod::lemma_mod_bound(full_size as int, snapped as int);
        }
        let real_size = snapped * outer_count;
        Self { inner_count, outer_count, real_size }
    }

    /// The snapped region size in bytes.
    pub fn cache_size(&self) -> (r: u64)
        requires
            self.inner_count * 256 <= u64::MAX,
        ensures
            r == self.inner_count * 256,
    {
        self.inner_count * 256
    }
}

/// The byte-writing candidate operation: stores each index's low byte into
/// every byte of the buffer.
pub fn write_to_all_bytes(dest: &mut Vec<u8>)
    ensures
        final(dest)@.len() == old(dest)@.len(),
        forall|i: int| 0 <= i < final(dest)@.len() ==> final(dest)@[i] == (i % 256) as u8,
{
    let num_bytes = dest.len();
    let mut i: usize = 0;
    while i < num_bytes
        invariant
            num_bytes == dest@.len(),
            i <= num_bytes,
            forall|j: int| 0 <= j < i ==> dest@[j] == (j % 256) as u8,
        decreases num_bytes - i,
    {
        dest.set(i, (i % 256) as u8);
        i = i + 1;
    }
}

/// The taken/not-taken pattern a conditional-branch candidate is fed.
#[derive(Clone, Copy, Debug, PartialEq, Eq, Structural)]
pub enum BranchPattern {
    NeverTaken,
    AlwaysTaken,
    Every2,
    Every3,
    Every4,
    CRTRandom,
    OSRandom,
}

impl BranchPattern {
    /// Whether the pattern is a pure function of the byte index. The two
    /// random patterns need an entropy source and are filled by the caller.
    pub open spec fn is_deterministic_spec(self) -> bool {
        !(self == BranchPattern::CRTRandom || self == BranchPattern::OSRandom)
    }

    pub fn is_deterministic(&self) -> (r: bool)
        ensures
            r == self.is_deterministic_spec(),
    {
        !matches!(self, BranchPattern::CRTRandom | BranchPattern::OSRandom)
    }
}

/// What a deterministic pattern stores at byte `i`: zero for a branch never
/// taken, all bits for one always taken, and a period-2/3/4 residue
/// otherwise. The random patterns have no defined byte.
pub open spec fn branch_pattern_byte(pattern: BranchPattern, i: int) -> u8 {
    match pattern {
        BranchPattern::NeverTaken => 0,
        BranchPattern::AlwaysTaken => 0xFF,
        BranchPattern::Every2 => (i % 2) as u8,
        BranchPattern::Every3 => (i % 3) as u8,
        BranchPattern::Every4 => (i % 4) as u8,
        BranchPattern::CRTRandom => 0,
        BranchPattern::OSRandom => 0,
    }
}

/// Fills the buffer with a deterministic branch pattern.
pub fn fill_with_branch_pattern(dest: &mut Vec<u8>, pattern: BranchPattern)
    requires
        pattern.is_deterministic_spec(),
    ensures
        final(dest)@.len() == old(dest)@.len(),
        forall|i: int|
            0 <= i < final(dest)@.len() ==> final(dest)@[i] == branch_pattern_byte(pattern, i),
{
    let num_bytes = dest.len();
    let mut i: usize = 0;
    while i < num_bytes
        invariant
            num_bytes == dest@.len(),
            i <= num_bytes,
            pattern.is_deterministic_spec(),
            forall|j: int| 0 <= j < i ==> dest@[j] == branch_pattern_byte(pattern, j),
        decreases num_bytes - i,
    {
        let value: u8 = match pattern {
            BranchPattern::NeverTaken => 0,
            BranchPattern::AlwaysTaken => 0xFF,
            BranchPattern::Every2 => (i % 2) as u8,
            BranchPattern::Every3 => (i % 3) as u8,
            BranchPattern::Every4 => (i % 4) as u8,
            BranchPattern::CRTRandom => 0,
            BranchPattern::OSRandom => 0,
        };
        dest.set(i, value);
        i = i + 1;
    }
}

} // verus!
