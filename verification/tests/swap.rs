use arb_core::amount::Amount;
use arb_core::cycle::compose;
use arb_core::edge::GraphEdge;
use arb_core::error::EngineError;
use arb_core::pool::PoolVariant;
use arb_core::swap::{advance_swap, cross_liquidity, simulate_swap, SwapCursor, SwapProgress};
use arb_core::swap_math::{
    compute_swap_step, get_amount0_delta, get_amount1_delta, get_price_after_amount0,
    get_price_after_amount1,
};
use arb_core::tick_math::sqrt_price_at_tick;
use arb_core::ticks::find_next_tick;
use arb_core::token::Address;
use arb_core::v3::{PoolKey, UniswapV3Pool, UniswapV4Pool};
use arb_core::wide::{mul_div, mul_div_up, Wide};
use std::collections::BTreeMap;

const Q96: u128 = 1u128 << 96;
const PRICE_AT_60: u128 = 79_466_191_966_197_645_195_421_774_833;
const PRICE_AT_MINUS_60: u128 = 78_990_846_045_029_531_151_608_375_686;
const UNIT: u128 = 1_000_000_000_000_000_000;

fn amt(x: u128) -> Amount {
    Amount::from_u128(x)
}

fn table(entries: &[(i32, i128)]) -> BTreeMap<i32, i128> {
    entries.iter().cloned().collect()
}

fn pool_with(ticks: &[(i32, i128)], tick: i32, liquidity: u128) -> UniswapV3Pool {
    UniswapV3Pool {
        address: Address::zero(),
        token0: Address::zero(),
        token1: Address::weth(),
        fee: 3000,
        liquidity,
        sqrt_price_x96: amt(Q96),
        tick,
        tick_spacing: 60,
        tick_bitmap: table(ticks),
        last_key: None,
    }
}

#[test]
fn wide_product_is_divided_without_loss() {
    let half = Amount { l0: 0, l1: 0, l2: 0, l3: 0x8000_0000_0000_0000 };
    let three_quarters = Amount { l0: 0, l1: 0, l2: 0, l3: 0xC000_0000_0000_0000 };
    assert_eq!(mul_div(half, amt(6), amt(4)), Some(three_quarters));
    assert_eq!(mul_div_up(half, amt(6), amt(4)), Some(three_quarters));
    assert_eq!(mul_div(amt(7), amt(3), amt(2)), Some(amt(10)));
    assert_eq!(mul_div_up(amt(7), amt(3), amt(2)), Some(amt(11)));
    assert_eq!(mul_div(amt(7), amt(3), amt(0)), None);
    assert_eq!(mul_div_up(amt(7), amt(3), amt(0)), None);
    assert_eq!(mul_div(half, amt(4), amt(1)), None);
    assert_eq!(mul_div(half, amt(4), amt(2)), None);
    assert_eq!(mul_div(half, amt(4), amt(4)), Some(half));
    let top = Amount { l0: u64::MAX, l1: u64::MAX, l2: u64::MAX, l3: u64::MAX };
    assert_eq!(mul_div(top, top, top), Some(top));
    assert_eq!(mul_div_up(top, amt(1), amt(2)), Some(half));
    assert_eq!(mul_div(top, amt(1), amt(2)), half.checked_sub(amt(1)));
    assert_eq!(Wide::widen(amt(5)).narrow(), Some(amt(5)));
    let big = Wide { w0: 0, w1: 0, w2: 0, w3: 0, w4: 1, w5: 0, w6: 0, w7: 0 };
    assert_eq!(big.narrow(), None);
    assert!(!big.is_zero());
}

#[test]
fn tick_prices_match_the_known_ends() {
    assert_eq!(sqrt_price_at_tick(0), Ok(amt(Q96)));
    assert_eq!(sqrt_price_at_tick(-887272), Ok(amt(4_295_128_739)));
    // 1461446703485210103287273052203988822378723970342
    let top = Amount { l0: 0x5d951d5263988d26, l1: 0xefd1fc6a50648849, l2: 0xfffd8963, l3: 0 };
    assert_eq!(sqrt_price_at_tick(887272), Ok(top));
    assert_eq!(sqrt_price_at_tick(60), Ok(amt(PRICE_AT_60)));
    assert_eq!(sqrt_price_at_tick(-60), Ok(amt(PRICE_AT_MINUS_60)));
    assert_eq!(sqrt_price_at_tick(1), Ok(amt(79_232_123_823_359_799_118_286_999_568)));
    assert_eq!(sqrt_price_at_tick(-1), Ok(amt(79_224_201_403_219_477_170_569_942_574)));
    assert_eq!(sqrt_price_at_tick(887273), Err(EngineError::ArithmeticOverflow));
    assert_eq!(sqrt_price_at_tick(-887273), Err(EngineError::ArithmeticOverflow));
    assert_eq!(sqrt_price_at_tick(i32::MIN), Err(EngineError::ArithmeticOverflow));
}

#[test]
fn price_and_tick_belong_together_within_one_tick() {
    let mut p = pool_with(&[], 0, UNIT);
    assert!(p.check_consistent());
    p.tick = -1;
    assert!(p.check_consistent());
    p.tick = 1;
    assert!(!p.check_consistent());
    p.tick = -2;
    assert!(!p.check_consistent());
    p.tick = 60;
    p.sqrt_price_x96 = amt(PRICE_AT_60);
    assert!(p.check_consistent());
    p.sqrt_price_x96 = amt(PRICE_AT_60 - 1);
    assert!(!p.check_consistent());
    p.tick = 887272;
    assert!(!p.check_consistent());
    p.tick = i32::MAX;
    assert!(!p.check_consistent());
    p.tick = i32::MIN;
    assert!(!p.check_consistent());
}

#[test]
fn amounts_between_prices_round_as_asked() {
    let lo = amt(PRICE_AT_MINUS_60);
    let hi = amt(Q96);
    assert_eq!(get_amount0_delta(lo, hi, UNIT, true), Some(amt(3_004_354_062_741_926)));
    assert_eq!(get_amount0_delta(lo, hi, UNIT, false), Some(amt(3_004_354_062_741_925)));
    assert_eq!(get_amount1_delta(lo, hi, UNIT, true), Some(amt(2_995_354_955_910_781)));
    assert_eq!(get_amount1_delta(lo, hi, UNIT, false), Some(amt(2_995_354_955_910_780)));
    assert_eq!(get_amount0_delta(hi, lo, UNIT, true), None);
    assert_eq!(get_amount1_delta(hi, lo, UNIT, true), None);
    assert_eq!(get_amount0_delta(amt(0), hi, UNIT, true), None);
    assert_eq!(get_amount0_delta(hi, hi, UNIT, true), Some(amt(0)));
}

#[test]
fn price_moves_with_the_input() {
    let p = amt(Q96);
    let x = amt(1_000_000_000_000_000);
    assert_eq!(
        get_price_after_amount0(p, UNIT, x),
        Some(amt(79_149_013_500_763_574_019_524_425_911))
    );
    assert_eq!(
        get_price_after_amount1(p, UNIT, x),
        Some(amt(79_307_390_676_778_601_931_137_494_286))
    );
    assert_eq!(get_price_after_amount0(p, UNIT, amt(0)), Some(p));
    assert_eq!(get_price_after_amount1(p, 0, x), None);
}

#[test]
fn step_stops_at_the_boundary_or_before() {
    let target = amt(PRICE_AT_MINUS_60);
    let through = compute_swap_step(amt(Q96), target, UNIT, amt(10_000_000_000_000_000), 3000, true)
        .unwrap();
    assert_eq!(through.next_price, target);
    assert_eq!(through.amount_in, amt(3_004_354_062_741_926));
    assert_eq!(through.amount_out, amt(2_995_354_955_910_780));
    assert_eq!(through.fee_amount, amt(9_040_182_736_436));

    let within = compute_swap_step(amt(Q96), target, UNIT, amt(1_000_000_000_000_000), 3000, true)
        .unwrap();
    assert_eq!(within.next_price, amt(79_149_250_711_305_166_342_700_278_159));
    assert_eq!(within.amount_in, amt(997_000_000_000_000));
    assert_eq!(within.amount_out, amt(996_006_981_039_903));
    assert_eq!(within.fee_amount, amt(3_000_000_000_000));

    assert_eq!(compute_swap_step(amt(Q96), target, UNIT, amt(5), 1_000_000, true), None);
}

#[test]
fn next_tick_is_found_in_the_direction_of_the_price() {
    let ticks = table(&[(-120, 7), (-60, 5), (60, -3)]);
    assert_eq!(find_next_tick(&ticks, 0, true), Some((-60, 5)));
    assert_eq!(find_next_tick(&ticks, -60, true), Some((-60, 5)));
    assert_eq!(find_next_tick(&ticks, -61, true), Some((-120, 7)));
    assert_eq!(find_next_tick(&ticks, -121, true), None);
    assert_eq!(find_next_tick(&ticks, 0, false), Some((60, -3)));
    assert_eq!(find_next_tick(&ticks, 59, false), Some((60, -3)));
    assert_eq!(find_next_tick(&ticks, 60, false), None);
    assert_eq!(find_next_tick(&ticks, -200, false), Some((-120, 7)));
    assert_eq!(find_next_tick(&ticks, i32::MAX, false), None);
    assert_eq!(find_next_tick(&ticks, i32::MIN, true), None);
    assert_eq!(find_next_tick(&BTreeMap::new(), 0, true), None);
}

#[test]
fn crossing_changes_the_active_liquidity() {
    assert_eq!(cross_liquidity(10, 4, true), Some(6));
    assert_eq!(cross_liquidity(10, 4, false), Some(14));
    assert_eq!(cross_liquidity(10, -4, true), Some(14));
    assert_eq!(cross_liquidity(10, -4, false), Some(6));
    assert_eq!(cross_liquidity(10, 11, true), None);
    assert_eq!(cross_liquidity(u128::MAX, 1, false), None);
    assert_eq!(cross_liquidity(0, i128::MIN, true), Some(1u128 << 127));
    assert_eq!(cross_liquidity(0, i128::MIN, false), None);
}

#[test]
fn swap_within_one_range() {
    let p = pool_with(&[], 0, UNIT);
    let x = amt(1_000_000_000_000_000);
    assert_eq!(p.get_amount_out(x, true), Ok(amt(996_006_981_039_903)));
    assert_eq!(p.get_amount_out(x, false), Ok(amt(996_006_981_039_903)));
    assert_eq!(p.get_amount_out(amt(0), true), Ok(amt(0)));
}

#[test]
fn swap_across_an_initialized_tick() {
    let down = pool_with(&[(-60, 500_000_000_000_000_000)], 0, UNIT);
    assert_eq!(
        down.get_amount_out(amt(10_000_000_000_000_000), true),
        Ok(amt(9_824_480_656_168_965))
    );
    let up = pool_with(&[(60, -400_000_000_000_000_000)], 0, UNIT);
    assert_eq!(
        up.get_amount_out(amt(10_000_000_000_000_000), false),
        Ok(amt(9_840_108_695_586_136))
    );
    let two = pool_with(&[(60, -400_000_000_000_000_000), (120, 100_000_000_000_000_000)], 0, UNIT);
    assert_eq!(
        two.get_amount_out(amt(100_000_000_000_000_000), false),
        Ok(amt(87_410_154_041_040_738))
    );
}

#[test]
fn swap_without_liquidity_or_with_a_boundary_on_the_wrong_side() {
    let dry = pool_with(&[], 0, 0);
    assert_eq!(dry.get_amount_out(amt(1), true), Err(EngineError::InsufficientLiquidity));
    assert_eq!(dry.get_amount_out(amt(1), false), Err(EngineError::InsufficientLiquidity));
    let skewed = pool_with(&[(60, 5)], 100, UNIT);
    assert_eq!(skewed.get_amount_out(amt(1000), true), Err(EngineError::InsufficientLiquidity));
    let drained = pool_with(&[(-60, 2_000_000_000_000_000_000)], 0, UNIT);
    assert_eq!(
        drained.get_amount_out(amt(10_000_000_000_000_000), true),
        Err(EngineError::InsufficientLiquidity)
    );
    let far = pool_with(&[(-900_000, 1)], 0, UNIT);
    assert_eq!(far.get_amount_out(amt(1000), true), Err(EngineError::ArithmeticOverflow));
}

#[test]
fn steps_are_taken_one_at_a_time() {
    let ticks = table(&[(-60, 500_000_000_000_000_000)]);
    let start = SwapCursor {
        price: amt(Q96),
        tick: 0,
        liquidity: UNIT,
        remaining: amt(10_000_000_000_000_000),
        out: amt(0),
    };
    let after = match advance_swap(&ticks, 3000, true, start) {
        SwapProgress::Next(c) => c,
        SwapProgress::Done(r) => panic!("the swap ended early: {:?}", r),
    };
    assert_eq!(after.price, amt(PRICE_AT_MINUS_60));
    assert_eq!(after.tick, -61);
    assert_eq!(after.liquidity, 500_000_000_000_000_000);
    assert_eq!(
        after.remaining,
        amt(10_000_000_000_000_000 - 3_004_354_062_741_926 - 9_040_182_736_436)
    );
    assert_eq!(after.out, amt(2_995_354_955_910_780));
    assert_eq!(
        advance_swap(&ticks, 3000, true, after),
        SwapProgress::Done(Ok(amt(9_824_480_656_168_965)))
    );
    assert_eq!(
        simulate_swap(&ticks, 3000, true, amt(Q96), 0, UNIT, amt(10_000_000_000_000_000)),
        Ok(amt(9_824_480_656_168_965))
    );
}

#[test]
fn hooked_pool_swaps_in_its_one_range() {
    let p = UniswapV4Pool {
        key: PoolKey {
            currency0: Address::zero(),
            currency1: Address::weth(),
            fee: 500,
            tick_spacing: 10,
            hooks: Address::zero(),
        },
        liquidity: 5 * UNIT,
        sqrt_price_x96: amt(Q96),
        tick: 0,
        hook_address: Address::zero(),
        last_key: None,
    };
    assert_eq!(p.get_amount_out(amt(1_000_000_000_000), true), Ok(amt(999_499_800_199)));
    // at the fee of 3000 that a hook may set, the figures of the other design
    let larger = UniswapV4Pool { liquidity: UNIT, ..p };
    assert_eq!(
        larger.get_amount_out_at_fee(amt(1_000_000_000_000_000), true, 3000),
        Ok(amt(996_006_981_039_903))
    );
    let v = PoolVariant::V4(p);
    assert_eq!(v.get_amount_out(amt(1_000_000_000_000), true), Ok(amt(999_499_800_199)));
}

#[test]
fn cycle_may_run_through_pools_of_any_design() {
    let hops = vec![
        GraphEdge::new(PoolVariant::V3(pool_with(&[], 0, UNIT)), true),
        GraphEdge::new(PoolVariant::V3(pool_with(&[], 0, UNIT)), false),
    ];
    let mid: u128 = 996_006_981_039_903;
    let out = pool_with(&[], 0, UNIT).get_amount_out(amt(mid), false).unwrap();
    assert_eq!(compose(&hops, amt(1_000_000_000_000_000)), Ok(out));
    assert!(out.less_than(&amt(mid)));
}
