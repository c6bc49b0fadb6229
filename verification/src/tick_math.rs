use crate::amount::{amount_limit, Amount};
use crate::error::EngineError;
use vstd::prelude::*;

verus! {

/// The largest tick that has a price; the smallest is its negative.
pub open spec fn max_tick() -> int {
    887272
}

/// Two to the power 128.
pub open spec fn two_to_128() -> nat {
    0x1_0000_0000_0000_0000 * 0x1_0000_0000_0000_0000
}

/// For bit `i` of a tick's magnitude, the factor `1.0001^(-2^i / 2)` in
/// 128-bit fixed point.
pub open spec fn tick_factor(i: int) -> nat {
    if i == 0 {
        0xfffcb933bd6fad37aa2d162d1a594001
    } else if i == 1 {
        0xfff97272373d413259a46990580e213a
    } else if i == 2 {
        0xfff2e50f5f656932ef12357cf3c7fdcc
    } else if i == 3 {
        0xffe5caca7e10e4e61c3624eaa0941cd0
    } else if i == 4 {
        0xffcb9843d60f6159c9db58835c926644
    } else if i == 5 {
        0xff973b41fa98c081472e6896dfb254c0
    } else if i == 6 {
        0xff2ea16466c96a3843ec78b326b52861
    } else if i == 7 {
        0xfe5dee046a99a2a811c461f1969c3053
    } else if i == 8 {
        0xfcbe86c7900a88aedcffc83b479aa3a4
    } else if i == 9 {
        0xf987a7253ac413176f2b074cf7815e54
    } else if i == 10 {
        0xf3392b0822b70005940c7a398e4b70f3
    } else if i == 11 {
        0xe7159475a2c29b7443b29c7fa6e889d9
    } else if i == 12 {
        0xd097f3bdfd2022b8845ad8f792aa5825
    } else if i == 13 {
        0xa9f746462d870fdf8a65dc1f90e061e5
    } else if i == 14 {
        0x70d869a156d2a1b890bb3df62baf32f7
    } else if i == 15 {
        0x31be135f97d08fd981231505542fcfa6
    } else if i == 16 {
        0x9aa508b5b7a84e1c677de54f3e99bc9
    } else if i == 17 {
        0x5d6af8dedb81196699c329225ee604
    } else if i == 18 {
        0x2216e584f5fa1ea926041bedfe98
    } else {
        0x48a170391f7dc42444e8fa2
    }
}

/// The ratio `r` multiplied by the factor of every set bit of `rest`, bits
/// `i` to 19 of the tick's magnitude, each product cut back to 128-bit fixed
/// point.
pub open spec fn ratio_from(rest: nat, i: int, r: nat) -> nat
    decreases 20 - i,
{
    if i >= 20 {
        r
    } else {
        ratio_from(
            rest / 2,
            i + 1,
            if rest % 2 == 1 {
                r * tick_factor(i) / two_to_128()
            } else {
                r
            },
        )
    }
}

/// The square-root price at a tick, `sqrt(1.0001^tick)` in 96-bit fixed
/// point, computed bit by bit from the table of factors and rounded up.
/// A tick beyond the largest has none.
#[verifier::opaque]
pub open spec fn sqrt_price_at(tick: int) -> Result<nat, EngineError> {
    let magnitude = if tick < 0 {
        -tick
    } else {
        tick
    };
    let r = ratio_from(magnitude as nat, 0, two_to_128());
    if magnitude > max_tick() || r == 0 {
        Err(EngineError::ArithmeticOverflow)
    } else {
        let ratio = if tick > 0 {
            ((amount_limit() - 1) / (r as int)) as nat
        } else {
            r
        };
        Ok(ratio / 0x1_0000_0000 + if ratio % 0x1_0000_0000 == 0 {
            0nat
        } else {
            1nat
        })
    }
}

/// Exec form of `tick_factor`.
fn factor(i: u32) -> (r: u128)
    ensures
        r == tick_factor(i as int),
{
    if i == 0 {
        0xfffcb933bd6fad37aa2d162d1a594001
    } else if i == 1 {
        0xfff97272373d413259a46990580e213a
    } else if i == 2 {
        0xfff2e50f5f656932ef12357cf3c7fdcc
    } else if i == 3 {
        0xffe5caca7e10e4e61c3624eaa0941cd0
    } else if i == 4 {
        0xffcb9843d60f6159c9db58835c926644
    } else if i == 5 {
        0xff973b41fa98c081472e6896dfb254c0
    } else if i == 6 {
        0xff2ea16466c96a3843ec78b326b52861
    } else if i == 7 {
        0xfe5dee046a99a2a811c461f1969c3053
    } else if i == 8 {
        0xfcbe86c7900a88aedcffc83b479aa3a4
    } else if i == 9 {
        0xf987a7253ac413176f2b074cf7815e54
    } else if i == 10 {
        0xf3392b0822b70005940c7a398e4b70f3
    } else if i == 11 {
        0xe7159475a2c29b7443b29c7fa6e889d9
    } else if i == 12 {
        0xd097f3bdfd2022b8845ad8f792aa5825
    } else if i == 13 {
        0xa9f746462d870fdf8a65dc1f90e061e5
    } else if i == 14 {
        0x70d869a156d2a1b890bb3df62baf32f7
    } else if i == 15 {
        0x31be135f97d08fd981231505542fcfa6
    } else if i == 16 {
        0x9aa508b5b7a84e1c677de54f3e99bc9
    } else if i == 17 {
        0x5d6af8dedb81196699c329225ee604
    } else if i == 18 {
        0x2216e584f5fa1ea926041bedfe98
    } else {
        0x48a170391f7dc42444e8fa2
    }
}

/// A ratio of at most one, times a factor below one, is again at most one,
/// and the product fits in 256 bits.
proof fn lemma_scaled_ratio(r: nat, c: nat, x: nat)
    requires
        r <= x,
        c < x,
        x > 0,
    ensures
        r * c < x * x,
        (r * c) / x <= x,
{
    assert(r * c < x * x) by (nonlinear_arith)
        requires
            r <= x,
            c < x,
            x > 0,
    ;
    assert((r * c) / x <= x) by (nonlinear_arith)
        requires
            r * c < x * x,
            x > 0,
    ;
}

/// The square-root price at a tick.
pub fn sqrt_price_at_tick(tick: i32) -> (r: Result<Amount, EngineError>)
    ensures
        match r {
            Ok(p) => sqrt_price_at(tick as int) == Ok::<nat, EngineError>(p.value()),
            Err(e) => sqrt_price_at(tick as int) == Err::<nat, EngineError>(e),
        },
        r is Ok ==> -max_tick() <= tick <= max_tick(),
{
    reveal(sqrt_price_at);
    if tick > 887272 || tick < -887272 {
        return Err(EngineError::ArithmeticOverflow);
    }
    let magnitude: u32 = if tick < 0 {
        (-tick) as u32
    } else {
        tick as u32
    };
    let one = Amount { l0: 0, l1: 0, l2: 1, l3: 0 };
    let mut ratio = one;
    let mut rest: u32 = magnitude;
    let mut i: u32 = 0;
    while i < 20
        invariant
            i <= 20,
            one.value() == two_to_128(),
            ratio.value() <= two_to_128(),
            ratio_from(magnitude as nat, 0, two_to_128()) == ratio_from(
                rest as nat,
                i as int,
                ratio.value(),
            ),
        decreases 20 - i,
    {
        if rest % 2 == 1 {
            let c = Amount::from_u128(factor(i));
            proof {
                lemma_scaled_ratio(ratio.value(), c.value(), two_to_128());
            }
            let product = match ratio.checked_mul(c) {
                Some(p) => p,
                None => {
                    return Err(EngineError::ArithmeticOverflow);
                },
            };
            ratio = match product.checked_div(one) {
                Some(q) => q,
                None => {
                    return Err(EngineError::ArithmeticOverflow);
                },
            };
        }
        rest = rest / 2;
        i += 1;
    }
    if ratio.is_zero() {
        return Err(EngineError::ArithmeticOverflow);
    }
    if tick > 0 {
        let top = Amount { l0: u64::MAX, l1: u64::MAX, l2: u64::MAX, l3: u64::MAX };
        ratio = match top.checked_div(ratio) {
            Some(q) => q,
            None => {
                return Err(EngineError::ArithmeticOverflow);
            },
        };
    }
    let low: u64 = ratio.l0 % 0x1_0000_0000;
    let cut = Amount {
        l0: ratio.l0 / 0x1_0000_0000 + (ratio.l1 % 0x1_0000_0000) * 0x1_0000_0000,
        l1: ratio.l1 / 0x1_0000_0000 + (ratio.l2 % 0x1_0000_0000) * 0x1_0000_0000,
        l2: ratio.l2 / 0x1_0000_0000 + (ratio.l3 % 0x1_0000_0000) * 0x1_0000_0000,
        l3: ratio.l3 / 0x1_0000_0000,
    };
    assert(cut.value() == ratio.value() / 0x1_0000_0000);
    assert((ratio.value() % 0x1_0000_0000 == 0) == (low == 0));
    if low == 0 {
        Ok(cut)
    } else {
        match cut.checked_add(Amount::from_u64(1)) {
            Some(p) => Ok(p),
            None => Err(EngineError::ArithmeticOverflow),
        }
    }
}

/// Whether a square-root price and a tick belong together: the price lies
/// between the price of the tick and that of the tick above it, the ends
/// included.
pub open spec fn price_matches_tick(price: nat, tick: i32) -> bool {
    match (sqrt_price_at(tick as int), sqrt_price_at(tick + 1)) {
        (Ok(lower), Ok(upper)) => lower <= price <= upper,
        _ => false,
    }
}

/// Exec form of `price_matches_tick`.
pub fn check_price_matches_tick(price: Amount, tick: i32) -> (r: bool)
    ensures
        r == price_matches_tick(price.value(), tick),
{
    if tick >= 887272 {
        proof {
            reveal(sqrt_price_at);
        }
        return false;
    }
    match (sqrt_price_at_tick(tick), sqrt_price_at_tick(tick + 1)) {
        (Ok(lower), Ok(upper)) => !price.less_than(&lower) && !upper.less_than(&price),
        _ => false,
    }
}

} // verus!
