use vstd::prelude::*;
use crate::band::TargetBand;
use crate::pool::{grown, ramp, shrunk, uniform, MemoryPool};

verus! {

/// Number of elements of a block where a hundredth part of the memory, taken
/// in elements, does not fit in 32 bits: 200 MiB worth.
pub const FALLBACK_BLOCK_WORDS: u32 = 52428800;

/// Largest step count that is acted on. A larger one counts as none.
pub const MAX_STEPS: u64 = 2147483647;

/// Memory usage in whole percent: `used * 100 / total`, rounded down.
pub open spec fn usage_of(total: u64, used: u64) -> nat
    recommends
        total > 0,
{
    ((used * 100) / (total as int)) as nat
}

/// The bytes that stand for one percent of `total` bytes of memory, capped at
/// `max_block_bytes`.
pub open spec fn one_percent_of(total: u64, max_block_bytes: u64) -> nat {
    if total / 100 <= max_block_bytes {
        (total / 100) as nat
    } else {
        max_block_bytes as nat
    }
}

/// The step count for a distance of `gap` percent from the midpoint, before
/// clamping: a hundredth of the memory times the gap, in units of
/// `one_percent` bytes, rounded down.
pub open spec fn raw_steps(total: u64, gap: nat, one_percent: nat) -> nat
    recommends
        one_percent > 0,
{
    (((total / 100) * gap) / (one_percent as int)) as nat
}

/// A step count that does not fit a signed 32-bit number is taken as zero.
pub open spec fn clamped(steps: nat) -> nat {
    if steps <= MAX_STEPS {
        steps
    } else {
        0
    }
}

/// What the memory controller carries from cycle to cycle.
pub struct RamState {
    /// Contents of the pool's blocks, oldest first.
    pub pool: Seq<Seq<u32>>,
    /// The band that the usage is held in.
    pub band: TargetBand,
    /// The latest sample, in whole percent.
    pub usage_percent: nat,
    /// Bytes taken as one percent of the memory: the size of a block.
    pub memory_one_percent: nat,
}

impl RamState {
    /// Number of elements of a block that is allocated afresh.
    pub open spec fn block_words(self) -> nat {
        if self.memory_one_percent / 4 <= u32::MAX {
            self.memory_one_percent / 4
        } else {
            FALLBACK_BLOCK_WORDS as nat
        }
    }

    /// The band is an interval and every block of the pool is a written block
    /// of the configured size.
    pub open spec fn wf(self) -> bool {
        &&& self.band.wf()
        &&& forall|i: int| 0 <= i < self.pool.len() ==> self.pool[i] == ramp(self.block_words())
    }

    /// Bytes held by the pool.
    pub open spec fn pool_bytes(self) -> nat {
        self.pool.len() * (4 * self.block_words())
    }

    /// The state once a sample of `used` out of `total` bytes has come in.
    pub open spec fn refreshed(self, total: u64, used: u64) -> RamState {
        RamState { usage_percent: usage_of(total, used), ..self }
    }

    /// The signed number of blocks that the latest sample calls for: none inside
    /// the band, a growth below it, a reduction (negative) above it.
    pub open spec fn multiplier(self, total: u64) -> int {
        if self.band.holds(self.usage_percent as int) {
            0
        } else if self.usage_percent < self.band.low {
            clamped(
                raw_steps(
                    total,
                    (self.band.mid() - self.usage_percent) as nat,
                    self.memory_one_percent,
                ),
            ) as int
        } else {
            -(clamped(
                raw_steps(
                    total,
                    (self.usage_percent - self.band.mid()) as nat,
                    self.memory_one_percent,
                ),
            ) as int)
        }
    }

    /// The state after the pool has been adjusted by `multiplier` blocks.
    pub open spec fn adjusted(self, multiplier: int) -> RamState {
        if multiplier > 0 {
            RamState { pool: grown(self.pool, multiplier as nat, self.block_words()), ..self }
        } else if multiplier < 0 {
            RamState { pool: shrunk(self.pool, (-multiplier) as nat), ..self }
        } else {
            self
        }
    }

    /// The state after one whole cycle on a sample of `used` out of `total`
    /// bytes.
    pub open spec fn step(self, total: u64, used: u64) -> RamState {
        let seen = self.refreshed(total, used);
        seen.adjusted(seen.multiplier(total))
    }

    /// The state after one cycle on each of `samples` in turn, each a pair of
    /// total and used bytes.
    pub open spec fn after_cycles(self, samples: Seq<(u64, u64)>) -> RamState
        decreases samples.len(),
    {
        if samples.len() == 0 {
            self
        } else {
            self.step(samples[0].0, samples[0].1).after_cycles(samples.drop_first())
        }
    }
}

/// Adjusting a pool of uniform, written blocks leaves one: every block of the
/// result is a written block of the configured size.
pub proof fn lemma_adjusted_wf(s: RamState, multiplier: int)
    requires
        s.wf(),
    ensures
        s.adjusted(multiplier).wf(),
{
    let after = s.adjusted(multiplier);
    assert(after.block_words() == s.block_words());
    assert forall|i: int| 0 <= i < after.pool.len() implies after.pool[i] == ramp(
        s.block_words(),
    ) by {
        if multiplier > 0 && s.pool.len() > 0 {
            if i >= s.pool.len() {
                assert(after.pool[i] == s.pool[0]);
            } else {
                assert(after.pool[i] == s.pool[i]);
            }
        } else if multiplier < 0 {
            assert(after.pool[i] == s.pool[i]);
        }
    }
}

/// A well-formed state holds a pool of equally sized blocks.
pub proof fn lemma_wf_pool_uniform(s: RamState)
    requires
        s.wf(),
    ensures
        uniform(s.pool),
        s.pool.len() > 0 ==> s.pool[0].len() == s.block_words(),
{
}

/// The memory controller: the pool and the latest sample.
pub struct Ram {
    pool: MemoryPool,
    band: TargetBand,
    usage_percent: u64,
    memory_one_percent: u64,
}

impl View for Ram {
    type V = RamState;

    closed spec fn view(&self) -> RamState {
        RamState {
            pool: self.pool@,
            band: self.band,
            usage_percent: self.usage_percent as nat,
            memory_one_percent: self.memory_one_percent as nat,
        }
    }
}

/// Memory usage in whole percent.
pub fn usage_percent_of(total: u64, used: u64) -> (percent: u64)
    requires
        total > 0,
        used * 100 <= u64::MAX,
    ensures
        percent == usage_of(total, used),
{
    used * 100 / total
}

/// The number of blocks to adjust by for a distance of `gap` percent from the
/// midpoint; zero where the count does not fit a signed 32-bit number.
pub fn steps_for(total: u64, gap: u64, one_percent: u64) -> (steps: u32)
    requires
        one_percent > 0,
    ensures
        steps == clamped(raw_steps(total, gap as nat, one_percent as nat)),
        steps <= MAX_STEPS,
{
    let hundredth: u128 = (total / 100) as u128;
    assert(hundredth * gap <= 0xffff_ffff_ffff_ffff * 0xffff_ffff_ffff_ffff) by (nonlinear_arith)
        requires
            0 <= hundredth <= 0xffff_ffff_ffff_ffff,
            0 <= gap <= 0xffff_ffff_ffff_ffff,
    ;
    let diff: u128 = hundredth * (gap as u128) / (one_percent as u128);
    if diff <= 2147483647 {
        diff as u32
    } else {
        0
    }
}

impl Ram {
    /// The state is well formed.
    pub open spec fn wf(&self) -> bool {
        self@.wf()
    }

    /// A controller with an empty pool, for a host that reports `used` out of
    /// `total` bytes of memory in use. A block will hold one percent of
    /// `total`, or `max_block_bytes` if that is less.
    pub fn new(band: TargetBand, max_block_bytes: u64, total: u64, used: u64) -> (ram: Ram)
        requires
            band.wf(),
            total > 0,
            used * 100 <= u64::MAX,
        ensures
            ram.wf(),
            ram@ == (RamState {
                pool: Seq::empty(),
                band,
                usage_percent: usage_of(total, used),
                memory_one_percent: one_percent_of(total, max_block_bytes),
            }),
    {
        let hundredth: u64 = total / 100;
        Ram {
            pool: MemoryPool::new(),
            band,
            usage_percent: usage_percent_of(total, used),
            memory_one_percent: if hundredth <= max_block_bytes {
                hundredth
            } else {
                max_block_bytes
            },
        }
    }

    /// Takes in a sample: `used` out of `total` bytes are in use.
    pub fn refresh(&mut self, total: u64, used: u64)
        requires
            total > 0,
            used * 100 <= u64::MAX,
        ensures
            final(self)@ == old(self)@.refreshed(total, used),
    {
        self.usage_percent = usage_percent_of(total, used);
    }

    /// One cycle: takes in the sample, then leaves the pool alone if the usage
    /// is inside the band, grows it if the usage is below, shrinks it if above.
    ///
    /// Outside the band the step count is a division by the block size, so the
    /// block size must not be zero there.
    pub fn adjust(&mut self, total: u64, used: u64)
        requires
            old(self).wf(),
            total > 0,
            used * 100 <= u64::MAX,
            old(self)@.band.holds(usage_of(total, used) as int) || old(self)@.memory_one_percent > 0,
        ensures
            final(self).wf(),
            final(self)@ == old(self)@.step(total, used),
            old(self)@.band.holds(usage_of(total, used) as int) ==> final(self)@.pool == old(
                self,
            )@.pool,
    {
        self.refresh(total, used);
        if self.band.contains(self.usage_percent) {
        } else if self.usage_percent < self.band.low {
            let gap: u64 = self.band.midpoint() - self.usage_percent;
            let steps: u32 = steps_for(total, gap, self.memory_one_percent);
            self.adjust_pool(steps as i32);
        } else {
            let gap: u64 = self.usage_percent - self.band.midpoint();
            let steps: u32 = steps_for(total, gap, self.memory_one_percent);
            self.adjust_pool(-(steps as i32));
        }
    }

    /// Adjusts the pool by `multiplier` blocks: grows it for a positive one,
    /// shrinks it for a negative one.
    ///
    /// Growing an empty pool adds one block only, whatever the multiplier;
    /// growing a pool that holds blocks and shrinking honour it in full.
    pub fn adjust_pool(&mut self, multiplier: i32)
        requires
            old(self).wf(),
        ensures
            final(self).wf(),
            final(self)@ == old(self)@.adjusted(multiplier as int),
    {
        proof {
            lemma_wf_pool_uniform(self@);
        }
        if multiplier > 0 {
            let words: u32 = self.block_words();
            self.pool.grow(multiplier as u32, words);
        } else if multiplier < 0 {
            let steps: u32 = if multiplier == i32::MIN {
                2147483648
            } else {
                (-multiplier) as u32
            };
            self.pool.shrink(steps);
        }
        proof {
            lemma_adjusted_wf(old(self)@, multiplier as int);
        }
    }

    /// Number of elements of a block that is allocated afresh: a quarter of
    /// the block's bytes.
    pub fn block_words(&self) -> (words: u32)
        ensures
            words == self@.block_words(),
    {
        let quarter: u64 = self.memory_one_percent / 4;
        if quarter <= 4294967295 {
            quarter as u32
        } else {
            FALLBACK_BLOCK_WORDS
        }
    }

    /// The pool.
    pub fn pool(&self) -> (pool: &MemoryPool)
        ensures
            pool@ == self@.pool,
    {
        &self.pool
    }

    /// The band.
    pub fn band(&self) -> (band: TargetBand)
        ensures
            band == self@.band,
    {
        self.band
    }

    /// The latest sample, in whole percent.
    pub fn usage_percent(&self) -> (percent: u64)
        ensures
            percent == self@.usage_percent,
    {
        self.usage_percent
    }

    /// Bytes taken as one percent of the memory.
    pub fn memory_one_percent(&self) -> (bytes: u64)
        ensures
            bytes == self@.memory_one_percent,
    {
        self.memory_one_percent
    }
}

} // verus!
