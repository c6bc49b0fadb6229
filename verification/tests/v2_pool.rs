use arb_core::amount::Amount;
use arb_core::error::EngineError;
use arb_core::event::{OrderingKey, ReserveUpdate, StateChange};
use arb_core::token::Address;
use arb_core::v2::UniswapV2Pool;

fn addr(last: u8) -> Address {
    let mut bytes = [0u8; 20];
    bytes[19] = last;
    Address::new(bytes)
}

fn sample_pool() -> UniswapV2Pool {
    UniswapV2Pool::new(
        addr(1),
        addr(2),
        addr(3),
        1_000_000u128 * 10u128.pow(18),
        2_000_000u128 * 10u128.pow(6),
        30,
    )
}

fn reserves(pool: u8, block: u64, log_index: u64, a: u128, b: u128) -> StateChange {
    StateChange::Reserves(ReserveUpdate {
        pool_id: addr(pool),
        key: OrderingKey { block, log_index },
        reserve_a: a,
        reserve_b: b,
    })
}

#[test]
fn constant_product_output_is_exact() {
    let pool = sample_pool();
    let amount_in = 10_000u128 * 10u128.pow(18);
    let out = pool.get_amount_out(Amount::from_u128(amount_in), true).unwrap();
    let with_fee = amount_in * 9970;
    let expected = with_fee * pool.reserve1 / (pool.reserve0 * 10000 + with_fee);
    assert_eq!(out.to_u128(), Some(expected));
    assert_eq!(out.to_u128(), Some(19_743_160_687));
}

#[test]
fn constant_product_other_direction() {
    let pool = sample_pool();
    let amount_in = 1_000u128 * 10u128.pow(6);
    let out = pool.get_amount_out(Amount::from_u128(amount_in), false).unwrap();
    let with_fee = amount_in * 9970;
    let expected = with_fee * pool.reserve0 / (pool.reserve1 * 10000 + with_fee);
    assert_eq!(out.to_u128(), Some(expected));
}

#[test]
fn empty_pool_with_no_input_has_no_liquidity() {
    let pool = UniswapV2Pool::new(addr(1), addr(2), addr(3), 0, 0, 30);
    assert_eq!(
        pool.get_amount_out(Amount::zero(), true),
        Err(EngineError::InsufficientLiquidity)
    );
}

#[test]
fn fee_above_all_is_an_overflow() {
    let pool = UniswapV2Pool::new(addr(1), addr(2), addr(3), 10, 10, 10_001);
    assert_eq!(
        pool.get_amount_out(Amount::from_u64(5), true),
        Err(EngineError::ArithmeticOverflow)
    );
}

#[test]
fn huge_input_is_an_overflow() {
    let pool = sample_pool();
    let max = Amount { l0: u64::MAX, l1: u64::MAX, l2: u64::MAX, l3: u64::MAX };
    assert_eq!(pool.get_amount_out(max, true), Err(EngineError::ArithmeticOverflow));
}

#[test]
fn input_beyond_128_bits_is_taken() {
    let pool = UniswapV2Pool::new(addr(1), addr(2), addr(3), 0, 1u128 << 100, 0);
    let big = Amount { l0: 0, l1: 0, l2: 1, l3: 0 };
    let out = pool.get_amount_out(big, true).unwrap();
    assert_eq!(out, Amount::from_u128(1u128 << 100));
}

#[test]
fn same_update_twice_is_refused_the_second_time() {
    let mut pool = sample_pool();
    let event = reserves(1, 100, 7, 5_000, 6_000);
    assert_eq!(pool.apply_state_change(&event), Ok(()));
    assert_eq!(pool.reserve0, 5_000);
    assert_eq!(pool.reserve1, 6_000);
    assert_eq!(pool.last_key, Some(OrderingKey { block: 100, log_index: 7 }));
    let before_out = pool.get_amount_out(Amount::from_u64(100), true);
    assert_eq!(pool.apply_state_change(&event), Err(EngineError::StateDesync));
    assert_eq!(pool.reserve0, 5_000);
    assert_eq!(pool.reserve1, 6_000);
    assert_eq!(pool.last_key, Some(OrderingKey { block: 100, log_index: 7 }));
    assert_eq!(pool.get_amount_out(Amount::from_u64(100), true), before_out);
}

#[test]
fn stale_update_is_refused() {
    let mut pool = sample_pool();
    assert_eq!(pool.apply_state_change(&reserves(1, 100, 7, 5_000, 6_000)), Ok(()));
    assert_eq!(
        pool.apply_state_change(&reserves(1, 100, 6, 1, 2)),
        Err(EngineError::StateDesync)
    );
    assert_eq!(
        pool.apply_state_change(&reserves(1, 99, 50, 1, 2)),
        Err(EngineError::StateDesync)
    );
    assert_eq!((pool.reserve0, pool.reserve1), (5_000, 6_000));
    assert_eq!(pool.apply_state_change(&reserves(1, 100, 8, 1, 2)), Ok(()));
    assert_eq!((pool.reserve0, pool.reserve1), (1, 2));
    assert_eq!(pool.apply_state_change(&reserves(1, 101, 0, 3, 4)), Ok(()));
    assert_eq!((pool.reserve0, pool.reserve1), (3, 4));
}

#[test]
fn update_for_another_pool_is_refused() {
    let mut pool = sample_pool();
    let r0 = pool.reserve0;
    assert_eq!(
        pool.apply_state_change(&reserves(9, 100, 7, 5_000, 6_000)),
        Err(EngineError::StateDesync)
    );
    assert_eq!(pool.reserve0, r0);
    assert_eq!(pool.last_key, None);
}
