use crate::amount::{amount_limit, Amount};
use alloy_primitives::{U256, U512};
use vstd::prelude::*;

verus! {

/// An unsigned 512-bit quantity, held as eight 64-bit limbs, least
/// significant first: room for the full product of two amounts.
#[derive(Clone, Copy, Debug, PartialEq, Eq, Structural)]
pub struct Wide {
    pub w0: u64,
    pub w1: u64,
    pub w2: u64,
    pub w3: u64,
    pub w4: u64,
    pub w5: u64,
    pub w6: u64,
    pub w7: u64,
}

/// The full product of two 256-bit values, from `ruint::Uint::widening_mul`
/// with a 512-bit result, which cannot overflow.
#[verifier::external_body]
fn u256_widening_mul(a: Amount, b: Amount) -> (r: Wide)
    ensures
        r.value() == a.value() * b.value(),
{
    let x = U256::from_limbs([a.l0, a.l1, a.l2, a.l3]);
    let y = U256::from_limbs([b.l0, b.l1, b.l2, b.l3]);
    let p: U512 = x.widening_mul(y);
    let l = p.into_limbs();
    Wide { w0: l[0], w1: l[1], w2: l[2], w3: l[3], w4: l[4], w5: l[5], w6: l[6], w7: l[7] }
}

/// Divides 512-bit values with `ruint::Uint::checked_div`. Claimed: the
/// quotient, rounded down, comes back exactly when the divisor is not zero.
#[verifier::external_body]
fn u512_checked_div(a: Wide, b: Wide) -> (r: Option<Wide>)
    ensures
        r.is_some() <==> b.value() != 0,
        r.is_some() ==> r.unwrap().value() == a.value() / b.value(),
{
    let x = U512::from_limbs([a.w0, a.w1, a.w2, a.w3, a.w4, a.w5, a.w6, a.w7]);
    let y = U512::from_limbs([b.w0, b.w1, b.w2, b.w3, b.w4, b.w5, b.w6, b.w7]);
    x.checked_div(y).map(|p| p.into_limbs()).map(|l| Wide {
        w0: l[0], w1: l[1], w2: l[2], w3: l[3], w4: l[4], w5: l[5], w6: l[6], w7: l[7],
    })
}

/// The remainder of 512-bit values with `ruint::Uint::checked_rem`.
/// Claimed: the remainder comes back exactly when the divisor is not zero.
#[verifier::external_body]
fn u512_checked_rem(a: Wide, b: Wide) -> (r: Option<Wide>)
    ensures
        r.is_some() <==> b.value() != 0,
        r.is_some() ==> r.unwrap().value() == a.value() % b.value(),
{
    let x = U512::from_limbs([a.w0, a.w1, a.w2, a.w3, a.w4, a.w5, a.w6, a.w7]);
    let y = U512::from_limbs([b.w0, b.w1, b.w2, b.w3, b.w4, b.w5, b.w6, b.w7]);
    x.checked_rem(y).map(|p| p.into_limbs()).map(|l| Wide {
        w0: l[0], w1: l[1], w2: l[2], w3: l[3], w4: l[4], w5: l[5], w6: l[6], w7: l[7],
    })
}

impl Wide {
    /// The number that the eight limbs stand for.
    pub open spec fn value(self) -> nat {
        (self.w0 + 0x1_0000_0000_0000_0000 * (self.w1 + 0x1_0000_0000_0000_0000 * (self.w2
            + 0x1_0000_0000_0000_0000 * (self.w3 + 0x1_0000_0000_0000_0000 * (self.w4
            + 0x1_0000_0000_0000_0000 * (self.w5 + 0x1_0000_0000_0000_0000 * (self.w6
            + 0x1_0000_0000_0000_0000 * self.w7))))))) as nat
    }

    /// The amount, in 512 bits.
    pub fn widen(a: Amount) -> (r: Wide)
        ensures
            r.value() == a.value(),
    {
        Wide { w0: a.l0, w1: a.l1, w2: a.l2, w3: a.l3, w4: 0, w5: 0, w6: 0, w7: 0 }
    }

    /// The value as an amount, where it is below two to the power 256.
    pub fn narrow(&self) -> (r: Option<Amount>)
        ensures
            r.is_some() <==> self.value() < amount_limit(),
            r.is_some() ==> r.unwrap().value() == self.value(),
    {
        if self.w4 != 0 || self.w5 != 0 || self.w6 != 0 || self.w7 != 0 {
            None
        } else {
            Some(Amount { l0: self.w0, l1: self.w1, l2: self.w2, l3: self.w3 })
        }
    }

    pub fn is_zero(&self) -> (r: bool)
        ensures
            r == (self.value() == 0),
    {
        self.w0 == 0 && self.w1 == 0 && self.w2 == 0 && self.w3 == 0 && self.w4 == 0 && self.w5
            == 0 && self.w6 == 0 && self.w7 == 0
    }
}

/// `a * b / d` rounded down, computed without loss: absent where `d` is zero
/// or the quotient is two to the power 256 or more.
pub open spec fn mul_div_floor(a: nat, b: nat, d: nat) -> Option<nat> {
    if d == 0 || (a * b) / d >= amount_limit() {
        None
    } else {
        Some((a * b) / d)
    }
}

/// `a * b / d` rounded up, computed without loss: absent where `d` is zero
/// or the result is two to the power 256 or more.
pub open spec fn mul_div_ceil(a: nat, b: nat, d: nat) -> Option<nat> {
    if d == 0 {
        None
    } else {
        let q = (a * b) / d + if (a * b) % d == 0 {
            0nat
        } else {
            1nat
        };
        if q >= amount_limit() {
            None
        } else {
            Some(q)
        }
    }
}

/// Exec form of `mul_div_floor`.
pub fn mul_div(a: Amount, b: Amount, d: Amount) -> (r: Option<Amount>)
    ensures
        match r {
            Some(q) => mul_div_floor(a.value(), b.value(), d.value()) == Some(q.value()),
            None => mul_div_floor(a.value(), b.value(), d.value()) is None,
        },
{
    let product = u256_widening_mul(a, b);
    match u512_checked_div(product, Wide::widen(d)) {
        Some(q) => q.narrow(),
        None => None,
    }
}

/// Exec form of `mul_div_ceil`.
pub fn mul_div_up(a: Amount, b: Amount, d: Amount) -> (r: Option<Amount>)
    ensures
        match r {
            Some(q) => mul_div_ceil(a.value(), b.value(), d.value()) == Some(q.value()),
            None => mul_div_ceil(a.value(), b.value(), d.value()) is None,
        },
{
    let product = u256_widening_mul(a, b);
    let wide_d = Wide::widen(d);
    let q = match u512_checked_div(product, wide_d) {
        Some(q) => q,
        None => {
            return None;
        },
    };
    let rest = match u512_checked_rem(product, wide_d) {
        Some(rest) => rest,
        None => {
            return None;
        },
    };
    match q.narrow() {
        Some(low) => {
            if rest.is_zero() {
                Some(low)
            } else {
                low.checked_add(Amount::from_u64(1))
            }
        },
        None => None,
    }
}

} // verus!
