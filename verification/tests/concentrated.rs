use arb_core::amount::Amount;
use arb_core::error::EngineError;
use arb_core::event::{LiquidityEventKind, LiquidityUpdate, OrderingKey, ReserveUpdate, StateChange};
use arb_core::pool::PoolVariant;
use arb_core::token::Address;
use arb_core::v3::{shift_liquidity, shift_net, PoolKey, UniswapV3Pool, UniswapV4Pool};
use std::collections::BTreeMap;

fn addr3(last: u8) -> Address {
    let mut bytes = [0u8; 20];
    bytes[19] = last;
    Address::new(bytes)
}

fn v3_pool() -> UniswapV3Pool {
    UniswapV3Pool {
        address: addr3(1),
        token0: addr3(2),
        token1: addr3(3),
        fee: 3000,
        liquidity: 1_000,
        sqrt_price_x96: Amount::from_u128(1u128 << 96),
        tick: 0,
        tick_spacing: 60,
        tick_bitmap: BTreeMap::new(),
        last_key: None,
    }
}

fn v4_pool() -> UniswapV4Pool {
    UniswapV4Pool {
        key: PoolKey {
            currency0: addr3(2),
            currency1: addr3(3),
            fee: 500,
            tick_spacing: 10,
            hooks: addr3(7),
        },
        liquidity: 50,
        sqrt_price_x96: Amount::from_u128(1u128 << 96),
        tick: 0,
        hook_address: addr3(7),
        last_key: None,
    }
}

fn change(
    pool: u8,
    block: u64,
    kind: LiquidityEventKind,
    delta: i128,
    tick: i32,
    affected: i32,
) -> StateChange {
    StateChange::Liquidity(LiquidityUpdate {
        pool_id: addr3(pool),
        key: OrderingKey { block, log_index: 0 },
        kind,
        liquidity_delta: delta,
        new_sqrt_price: Amount::from_u128(5u128 << 96),
        new_tick: tick,
        affected_tick: affected,
    })
}

#[test]
fn liquidity_moves_by_a_signed_change() {
    assert_eq!(shift_liquidity(10, 5), Some(15));
    assert_eq!(shift_liquidity(10, -10), Some(0));
    assert_eq!(shift_liquidity(10, -11), None);
    assert_eq!(shift_liquidity(u128::MAX, 1), None);
    assert_eq!(shift_liquidity(u128::MAX, 0), Some(u128::MAX));
    assert_eq!(shift_liquidity(1u128 << 127, i128::MIN), Some(0));
    assert_eq!(shift_liquidity((1u128 << 127) - 1, i128::MIN), None);
}

#[test]
fn net_liquidity_moves_within_its_range() {
    assert_eq!(shift_net(10, 5, false), Some(15));
    assert_eq!(shift_net(10, 5, true), Some(5));
    assert_eq!(shift_net(i128::MAX, 1, false), None);
    assert_eq!(shift_net(i128::MIN, 1, true), None);
    assert_eq!(shift_net(-1, i128::MIN, true), Some(i128::MAX));
    assert_eq!(shift_net(0, i128::MIN, true), None);
    assert_eq!(shift_net(0, i128::MIN, false), Some(i128::MIN));
}

#[test]
fn swap_sets_price_tick_and_liquidity() {
    let mut p = v3_pool();
    assert_eq!(p.apply_state_change(&change(1, 10, LiquidityEventKind::Swap, -400, -120, 0)), Ok(()));
    assert_eq!(p.liquidity, 600);
    assert_eq!(p.tick, -120);
    assert_eq!(p.sqrt_price_x96, Amount::from_u128(5u128 << 96));
    assert_eq!(p.last_key, Some(OrderingKey { block: 10, log_index: 0 }));
    assert!(p.tick_bitmap.is_empty());
    assert_eq!((p.fee, p.tick_spacing), (3000, 60));
}

#[test]
fn mint_and_burn_move_the_net_at_the_tick() {
    let mut p = v3_pool();
    assert_eq!(p.apply_state_change(&change(1, 10, LiquidityEventKind::Mint, 700, 0, -60)), Ok(()));
    assert_eq!(p.tick_bitmap.get(&-60), Some(&700));
    assert_eq!(p.liquidity, 1_000);
    assert_eq!(p.apply_state_change(&change(1, 11, LiquidityEventKind::Burn, 200, 0, -60)), Ok(()));
    assert_eq!(p.tick_bitmap.get(&-60), Some(&500));
    assert_eq!(p.apply_state_change(&change(1, 12, LiquidityEventKind::Burn, 500, 0, -60)), Ok(()));
    assert_eq!(p.tick_bitmap.get(&-60), None);
    assert!(p.tick_bitmap.is_empty());
    assert_eq!(p.apply_state_change(&change(1, 13, LiquidityEventKind::Burn, 5, 0, 120)), Ok(()));
    assert_eq!(p.tick_bitmap.get(&120), Some(&-5));
}

#[test]
fn refused_changes_leave_the_pool_alone() {
    let mut p = v3_pool();
    assert_eq!(p.apply_state_change(&change(1, 10, LiquidityEventKind::Mint, 700, 3, -60)), Ok(()));
    // the same key again
    assert_eq!(
        p.apply_state_change(&change(1, 10, LiquidityEventKind::Mint, 700, 3, -60)),
        Err(EngineError::StateDesync)
    );
    // another pool
    assert_eq!(
        p.apply_state_change(&change(9, 11, LiquidityEventKind::Swap, 1, 4, 0)),
        Err(EngineError::StateDesync)
    );
    // more liquidity taken than there is
    assert_eq!(
        p.apply_state_change(&change(1, 11, LiquidityEventKind::Swap, -1_001, 4, 0)),
        Err(EngineError::ArithmeticOverflow)
    );
    // a net beyond the range
    assert_eq!(
        p.apply_state_change(&change(1, 11, LiquidityEventKind::Mint, i128::MAX, 4, -60)),
        Err(EngineError::ArithmeticOverflow)
    );
    // a reserve update is not for this design
    let wrong = StateChange::Reserves(ReserveUpdate {
        pool_id: addr3(1),
        key: OrderingKey { block: 50, log_index: 0 },
        reserve_a: 1,
        reserve_b: 1,
    });
    assert_eq!(p.apply_state_change(&wrong), Err(EngineError::StateDesync));
    assert_eq!(p.liquidity, 1_000);
    assert_eq!(p.tick, 3);
    assert_eq!(p.tick_bitmap.get(&-60), Some(&700));
    assert_eq!(p.tick_bitmap.len(), 1);
    assert_eq!(p.last_key, Some(OrderingKey { block: 10, log_index: 0 }));
}

#[test]
fn hooked_pool_is_known_by_its_hook() {
    let mut p = v4_pool();
    assert!(p.address().same(&addr3(7)));
    assert!(p.tokens().0.same(&addr3(2)));
    assert!(p.tokens().1.same(&addr3(3)));
    assert_eq!(p.apply_state_change(&change(7, 4, LiquidityEventKind::Swap, 25, 9, 0)), Ok(()));
    assert_eq!((p.liquidity, p.tick), (75, 9));
    assert_eq!(p.apply_state_change(&change(7, 5, LiquidityEventKind::Mint, 25, 11, 60)), Ok(()));
    assert_eq!((p.liquidity, p.tick), (75, 11));
    assert_eq!(
        p.apply_state_change(&change(7, 5, LiquidityEventKind::Swap, 1, 0, 0)),
        Err(EngineError::StateDesync)
    );
    assert_eq!(
        p.apply_state_change(&change(7, 6, LiquidityEventKind::Swap, -76, 0, 0)),
        Err(EngineError::ArithmeticOverflow)
    );
    assert_eq!((p.liquidity, p.tick), (75, 11));
}

#[test]
fn variant_forwards_to_its_pool() {
    let v3 = PoolVariant::V3(v3_pool());
    assert!(v3.address().same(&addr3(1)));
    assert!(v3.tokens().1.same(&addr3(3)));
    let mut v4 = PoolVariant::V4(v4_pool());
    assert!(v4.address().same(&addr3(7)));
    assert_eq!(v4.apply_state_change(&change(7, 4, LiquidityEventKind::Swap, 25, 9, 0)), Ok(()));
    match v4.duplicate() {
        PoolVariant::V4(p) => assert_eq!((p.liquidity, p.tick), (75, 9)),
        _ => panic!("another design came back"),
    }
    let mut copy = v3.duplicate();
    assert_eq!(copy.apply_state_change(&change(1, 4, LiquidityEventKind::Mint, 3, 0, 60)), Ok(()));
    match (&v3, &copy) {
        (PoolVariant::V3(a), PoolVariant::V3(b)) => {
            assert!(a.tick_bitmap.is_empty());
            assert_eq!(b.tick_bitmap.get(&60), Some(&3));
        }
        _ => panic!("another design came back"),
    }
}
