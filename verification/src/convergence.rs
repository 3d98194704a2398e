use vstd::prelude::*;
use vstd::arithmetic::div_mod::{
    lemma_div_is_ordered, lemma_div_multiples_vanish, lemma_div_multiples_vanish_fancy,
    lemma_fundamental_div_mod, lemma_hoist_over_denominator, lemma_mod_bound,
};
use crate::pool::ramp;
use crate::ram::{raw_steps, usage_of, RamState, FALLBACK_BLOCK_WORDS};

verus! {

/// While every sample lies inside the band, cycles leave the pool as it is,
/// however many of them run: only the latest sample changes.
pub proof fn lemma_in_band_holds_pool(s: RamState, samples: Seq<(u64, u64)>)
    requires
        forall|i: int|
            0 <= i < samples.len() ==> s.band.holds(
                usage_of((#[trigger] samples[i]).0, samples[i].1) as int,
            ),
    ensures
        s.after_cycles(samples).pool == s.pool,
        s.after_cycles(samples).band == s.band,
        s.after_cycles(samples).memory_one_percent == s.memory_one_percent,
        samples.len() > 0 ==> s.after_cycles(samples).usage_percent == usage_of(
            samples.last().0,
            samples.last().1,
        ),
    decreases samples.len(),
{
    if samples.len() > 0 {
        let next = s.step(samples[0].0, samples[0].1);
        let rest = samples.drop_first();
        assert(next == s.refreshed(samples[0].0, samples[0].1));
        assert forall|i: int| 0 <= i < rest.len() implies next.band.holds(
            usage_of((#[trigger] rest[i]).0, rest[i].1) as int,
        ) by {
            assert(rest[i] == samples[i + 1]);
        }
        lemma_in_band_holds_pool(next, rest);
        if rest.len() > 0 {
            assert(rest.last() == samples.last());
        }
    }
}

/// Adding to a dividend never lowers the quotient, and raises it exactly when
/// the remainder and the addition together reach the divisor.
pub proof fn lemma_quotient_rises(x: int, a: int, t: int)
    requires
        0 <= x,
        0 <= a,
        0 < t,
    ensures
        (x + a) / t >= x / t,
        (x + a) / t > x / t <==> x % t + a >= t,
{
    lemma_fundamental_div_mod(x, t);
    lemma_mod_bound(x, t);
    lemma_div_is_ordered(x, x + a, t);
    let q: int = x / t;
    let r: int = x % t;
    if r + a < t {
        lemma_div_multiples_vanish_fancy(q, r + a, t);
        assert(x + a == t * q + (r + a));
    } else {
        lemma_div_multiples_vanish(q + 1, t);
        assert(t * (q + 1) == t * q + t) by (nonlinear_arith);
        lemma_div_is_ordered(t * (q + 1), x + a, t);
    }
}

/// Below the band, with blocks in the pool, a cycle grows the pool by the
/// computed number of blocks. Where the next sample shows the bytes that the
/// cycle added, the usage does not fall, so the distance to the midpoint does
/// not grow. That distance strictly decreases exactly when the added bytes
/// carry the usage over a whole percent; they always do once they amount to a
/// hundredth of the memory.
pub proof fn lemma_growth_closes_gap(s: RamState, total: u64, used: u64, used_after: u64)
    requires
        s.wf(),
        total > 0,
        usage_of(total, used) < s.band.low,
        s.pool.len() > 0,
        used_after == used + s.step(total, used).pool_bytes() - s.pool_bytes(),
    ensures
        s.step(total, used).pool.len() == s.pool.len() + s.refreshed(total, used).multiplier(
            total,
        ),
        s.step(total, used).pool.len() >= s.pool.len(),
        s.band.mid() - usage_of(total, used_after) <= s.band.mid() - usage_of(total, used),
        s.band.mid() - usage_of(total, used_after) < s.band.mid() - usage_of(total, used) <==> (
        used * 100) % (total as int) + (s.step(total, used).pool_bytes() - s.pool_bytes()) * 100
            >= total,
        (s.step(total, used).pool_bytes() - s.pool_bytes()) * 100 >= total ==> s.band.mid()
            - usage_of(total, used_after) < s.band.mid() - usage_of(total, used),
{
    let seen = s.refreshed(total, used);
    let m: int = seen.multiplier(total);
    let after = s.step(total, used);
    assert(m >= 0);
    assert(after.block_words() == s.block_words());
    assert(after.pool.len() == s.pool.len() + m);
    let block: int = (4 * s.block_words()) as int;
    assert((s.pool.len() + m) * block - s.pool.len() * block == m * block && m * block >= 0)
        by (nonlinear_arith)
        requires
            m >= 0,
            block >= 0,
    ;
    let added: int = after.pool_bytes() - s.pool_bytes();
    lemma_quotient_rises(used * 100, added * 100, total as int);
    lemma_mod_bound(used * 100, total as int);
}

/// Where the blocks hold exactly a hundredth of the memory (the memory is a
/// whole number of hundredths, none above the ceiling, and a hundredth is a
/// whole number of elements), one cycle below the band, with blocks in the
/// pool, adds what is missing: the next sample, if it shows the added bytes,
/// lies on the midpoint, inside the band.
pub proof fn lemma_exact_blocks_reach_midpoint(
    s: RamState,
    total: u64,
    used: u64,
    used_after: u64,
)
    requires
        s.wf(),
        total > 0,
        total % 100 == 0,
        s.memory_one_percent == total / 100,
        s.memory_one_percent % 4 == 0,
        s.memory_one_percent / 4 <= u32::MAX,
        usage_of(total, used) < s.band.low,
        s.pool.len() > 0,
        used_after == used + s.step(total, used).pool_bytes() - s.pool_bytes(),
    ensures
        s.refreshed(total, used).multiplier(total) == s.band.mid() - usage_of(total, used),
        usage_of(total, used_after) == s.band.mid(),
        s.band.holds(usage_of(total, used_after) as int),
{
    let seen = s.refreshed(total, used);
    let after = s.step(total, used);
    let part: int = (total / 100) as int;
    let gap: int = s.band.mid() - usage_of(total, used);
    assert(1 <= gap <= 100);
    assert(part > 0 && part * 100 == total);
    lemma_div_multiples_vanish(gap, part);
    assert(raw_steps(total, gap as nat, s.memory_one_percent) == gap);
    assert(seen.multiplier(total) == gap);
    assert(after.block_words() == s.block_words());
    assert(4 * s.block_words() == part);
    assert(after.pool.len() == s.pool.len() + gap);
    assert((s.pool.len() + gap) * part - s.pool.len() * part == gap * part) by (nonlinear_arith);
    assert(gap * part * 100 == gap * (total as int)) by (nonlinear_arith)
        requires
            part * 100 == total,
    ;
    lemma_hoist_over_denominator(used * 100, gap, total as nat);
}

/// The first block of a pool: adjusting an empty pool by a positive number
/// adds exactly one block, written in full. It holds a quarter of the block
/// size in four-byte elements: its bytes are the block size where that is a
/// whole number of elements, and the block size rounded down to whole elements
/// otherwise. Where the elements cannot be counted in 32 bits the block has
/// the fallback size.
pub proof fn lemma_first_block(s: RamState, multiplier: int)
    requires
        s.pool.len() == 0,
        multiplier > 0,
    ensures
        s.adjusted(multiplier).pool == seq![ramp(s.block_words())],
        s.adjusted(multiplier).pool_bytes() == 4 * s.block_words(),
        s.memory_one_percent / 4 <= u32::MAX && s.memory_one_percent % 4 == 0 ==> s.adjusted(
            multiplier,
        ).pool_bytes() == s.memory_one_percent,
        s.memory_one_percent / 4 <= u32::MAX ==> s.memory_one_percent - 3 <= s.adjusted(
            multiplier,
        ).pool_bytes() <= s.memory_one_percent,
        s.memory_one_percent / 4 > u32::MAX ==> s.adjusted(multiplier).pool_bytes() == 4
            * FALLBACK_BLOCK_WORDS,
{
    let after = s.adjusted(multiplier);
    assert(after.pool.len() == 1);
    assert(after.block_words() == s.block_words());
}

} // verus!
