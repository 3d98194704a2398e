use occupancy::band::TargetBand;
use occupancy::ram::{steps_for, usage_percent_of, Ram, FALLBACK_BLOCK_WORDS, MAX_STEPS};

const GIB: u64 = 1024 * 1024 * 1024;

fn band() -> TargetBand {
    TargetBand::new(45, 55).unwrap()
}

#[test]
fn usage_percent_rounds_down() {
    assert_eq!(usage_percent_of(100, 40), 40);
    assert_eq!(usage_percent_of(1000, 449), 44);
    assert_eq!(usage_percent_of(3, 1), 33);
    assert_eq!(usage_percent_of(3, 2), 66);
    assert_eq!(usage_percent_of(7, 0), 0);
    assert_eq!(usage_percent_of(7, 7), 100);
    assert_eq!(usage_percent_of(10, 25), 250);
}

#[test]
fn steps_are_the_gap_in_units_of_a_block() {
    assert_eq!(steps_for(1000, 10, 10), 10);
    assert_eq!(steps_for(6400, 7, 3), 149);
    assert_eq!(steps_for(99, 10, 1), 0);
    assert_eq!(steps_for(100, 0, 1), 0);
    assert_eq!(steps_for(400 * GIB, 5, GIB), 20);
}

#[test]
fn steps_that_do_not_fit_are_clamped_to_zero() {
    assert_eq!(MAX_STEPS, i32::MAX as u64);
    assert_eq!(steps_for(214_748_364_700, 1, 1), 2_147_483_647);
    assert_eq!(steps_for(214_748_364_800, 1, 1), 0);
    assert_eq!(steps_for(u64::MAX, u64::MAX, 1), 0);
}

#[test]
fn new_takes_the_first_sample_and_sizes_the_block() {
    let ram = Ram::new(band(), GIB, 16_000_000_000, 8_000_000_000);
    assert_eq!(ram.usage_percent(), 50);
    assert_eq!(ram.memory_one_percent(), 160_000_000);
    assert_eq!(ram.band(), band());
    assert_eq!(ram.pool().len(), 0);
    assert_eq!(ram.block_words(), 40_000_000);
}

#[test]
fn new_caps_the_block_at_the_ceiling() {
    let ram = Ram::new(band(), GIB, 400 * GIB, GIB);
    assert_eq!(ram.memory_one_percent(), GIB);
    assert_eq!(ram.block_words(), 268_435_456);
    let small = Ram::new(band(), 64, 1_000_000, 0);
    assert_eq!(small.memory_one_percent(), 64);
    assert_eq!(small.block_words(), 16);
}

#[test]
fn block_words_fall_back_when_they_do_not_fit() {
    let ram = Ram::new(band(), u64::MAX, 2_000_000_000_000, 0);
    assert_eq!(ram.memory_one_percent(), 20_000_000_000);
    assert_eq!(ram.block_words(), FALLBACK_BLOCK_WORDS);
    assert_eq!(FALLBACK_BLOCK_WORDS, 1024 * 1024 * 200 / 4);
}

#[test]
fn refresh_overwrites_the_sample_only() {
    let mut ram = Ram::new(band(), GIB, 1000, 400);
    ram.adjust(1000, 400);
    assert_eq!(ram.pool().len(), 1);
    ram.refresh(1000, 730);
    assert_eq!(ram.usage_percent(), 73);
    assert_eq!(ram.pool().len(), 1);
    assert_eq!(ram.memory_one_percent(), 10);
}

#[test]
fn low_usage_grows_then_in_band_sample_holds() {
    let mut ram = Ram::new(band(), GIB, 100, 40);
    assert_eq!(ram.usage_percent(), 40);
    ram.adjust(100, 40);
    assert!(ram.pool().len() >= 1);
    assert_eq!(ram.pool().len(), 1);
    ram.adjust(100, 50);
    assert_eq!(ram.usage_percent(), 50);
    assert_eq!(ram.pool().len(), 1);
}

#[test]
fn high_usage_pops_the_computed_steps_or_empties_the_pool() {
    let mut ram = Ram::new(band(), GIB, 100, 40);
    ram.adjust(100, 40);
    ram.adjust(100, 10);
    assert_eq!(ram.pool().len(), 41);
    ram.adjust(100, 80);
    assert_eq!(ram.usage_percent(), 80);
    assert_eq!(ram.pool().len(), 11);
    ram.adjust(100, 80);
    assert_eq!(ram.pool().len(), 0);
    ram.adjust(100, 80);
    assert_eq!(ram.pool().len(), 0);
}

#[test]
fn in_band_cycles_leave_the_pool_unchanged() {
    let mut ram = Ram::new(band(), GIB, 1000, 400);
    ram.adjust(1000, 400);
    ram.adjust(1000, 400);
    let held = ram.pool().len();
    assert_eq!(held, 11);
    for used in [450u64, 459, 500, 555, 559] {
        for _ in 0..5 {
            ram.adjust(1000, used);
            assert_eq!(ram.pool().len(), held);
        }
    }
}

#[test]
fn band_ends_count_as_inside() {
    let mut ram = Ram::new(band(), GIB, 100, 45);
    ram.adjust(100, 45);
    assert_eq!(ram.pool().len(), 0);
    ram.adjust(100, 44);
    assert_eq!(ram.pool().len(), 1);
    ram.adjust(100, 55);
    assert_eq!(ram.pool().len(), 1);
    ram.adjust(100, 56);
    assert_eq!(ram.pool().len(), 0);
}

#[test]
fn growth_from_empty_adds_one_block_of_the_block_size() {
    let mut ram = Ram::new(band(), GIB, 100_000, 10_000);
    assert_eq!(ram.memory_one_percent(), 1000);
    ram.adjust(100_000, 10_000);
    assert_eq!(ram.pool().len(), 1);
    assert_eq!(ram.pool().block_len(0), Some(250));
    for i in 0..250usize {
        assert_eq!(ram.pool().word(0, i), Some(i as u32));
    }
}

#[test]
fn growth_from_blocks_honours_the_full_step_count() {
    let mut ram = Ram::new(band(), GIB, 100_000, 10_000);
    ram.adjust(100_000, 10_000);
    ram.adjust(100_000, 10_000);
    assert_eq!(ram.pool().len(), 41);
    for index in 0..41usize {
        assert_eq!(ram.pool().block_len(index), Some(250));
    }
    assert_eq!(ram.pool().word(40, 249), Some(249));
}

#[test]
fn growth_reflected_by_the_samples_closes_the_gap() {
    let total: u64 = 10_000;
    let mut used: u64 = 4_000;
    let mut ram = Ram::new(band(), GIB, total, used);
    let mid = ram.band().midpoint();
    let mut gaps: Vec<u64> = Vec::new();
    let mut held: usize = 0;
    for _ in 0..3 {
        ram.adjust(total, used);
        gaps.push(mid - ram.usage_percent());
        let added = ram.pool().len() - held;
        held = ram.pool().len();
        used += added as u64 * 4 * ram.block_words() as u64;
    }
    assert_eq!(gaps, vec![10, 9, 0]);
    assert_eq!(held, 10);
    assert_eq!(used, 5_000);
}

#[test]
fn overflowing_growth_is_held() {
    let mut ram = Ram::new(band(), 1, 1_000_000_000_000, 400_000_000_000);
    assert_eq!(ram.memory_one_percent(), 1);
    ram.adjust_pool(1);
    assert_eq!(ram.pool().len(), 1);
    ram.adjust(1_000_000_000_000, 400_000_000_000);
    assert_eq!(ram.pool().len(), 1);
}

#[test]
fn overflowing_shrink_is_held() {
    let mut ram = Ram::new(band(), 1, 1_000_000_000_000, 400_000_000_000);
    ram.adjust_pool(1);
    ram.adjust_pool(4);
    assert_eq!(ram.pool().len(), 5);
    ram.adjust(1_000_000_000_000, 800_000_000_000);
    assert_eq!(ram.usage_percent(), 80);
    assert_eq!(ram.pool().len(), 5);
}

#[test]
fn adjust_pool_by_zero_changes_nothing() {
    let mut ram = Ram::new(band(), GIB, 1000, 500);
    ram.adjust_pool(0);
    assert_eq!(ram.pool().len(), 0);
    ram.adjust_pool(1);
    ram.adjust_pool(0);
    assert_eq!(ram.pool().len(), 1);
}

#[test]
fn adjust_pool_grows_and_shrinks_by_the_multiplier() {
    let mut ram = Ram::new(band(), GIB, 1000, 500);
    ram.adjust_pool(7);
    assert_eq!(ram.pool().len(), 1);
    ram.adjust_pool(7);
    assert_eq!(ram.pool().len(), 8);
    ram.adjust_pool(-3);
    assert_eq!(ram.pool().len(), 5);
    ram.adjust_pool(-6);
    assert_eq!(ram.pool().len(), 0);
    ram.adjust_pool(-1);
    assert_eq!(ram.pool().len(), 0);
}

#[test]
fn adjust_pool_by_the_smallest_multiplier_empties_the_pool() {
    let mut ram = Ram::new(band(), GIB, 1000, 500);
    ram.adjust_pool(1);
    ram.adjust_pool(2);
    ram.adjust_pool(i32::MIN);
    assert_eq!(ram.pool().len(), 0);
}

#[test]
fn in_band_needs_no_block_size() {
    let mut ram = Ram::new(band(), GIB, 50, 25);
    assert_eq!(ram.memory_one_percent(), 0);
    ram.adjust(50, 25);
    assert_eq!(ram.usage_percent(), 50);
    assert_eq!(ram.pool().len(), 0);
}

#[test]
fn usage_above_a_hundred_percent_shrinks() {
    let mut ram = Ram::new(band(), GIB, 1000, 500);
    ram.adjust_pool(1);
    ram.adjust_pool(200);
    assert_eq!(ram.pool().len(), 201);
    ram.adjust(1000, 2000);
    assert_eq!(ram.usage_percent(), 200);
    assert_eq!(ram.pool().len(), 51);
}
