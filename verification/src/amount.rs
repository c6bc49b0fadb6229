use alloy_primitives::U256;
use vstd::prelude::*;

verus! {

/// An unsigned 256-bit quantity, held as four 64-bit limbs, least
/// significant first.
#[derive(Clone, Copy, Debug, PartialEq, Eq, Structural)]
pub struct Amount {
    pub l0: u64,
    pub l1: u64,
    pub l2: u64,
    pub l3: u64,
}

/// Two to the power 256: one more than the largest `Amount`.
pub open spec fn amount_limit() -> nat {
    0x1_0000_0000_0000_0000 * 0x1_0000_0000_0000_0000 * 0x1_0000_0000_0000_0000
        * 0x1_0000_0000_0000_0000
}

/// Multiplies two 256-bit values with `ruint::Uint::checked_mul`, reached
/// through `alloy_primitives::U256`. Claimed: the product comes back exactly
/// when it is below two to the power 256, and nothing comes back otherwise.
#[verifier::external_body]
fn u256_checked_mul(a: Amount, b: Amount) -> (r: Option<Amount>)
    ensures
        r.is_some() <==> a.value() * b.value() < amount_limit(),
        r.is_some() ==> r.unwrap().value() == a.value() * b.value(),
{
    let x = U256::from_limbs([a.l0, a.l1, a.l2, a.l3]);
    let y = U256::from_limbs([b.l0, b.l1, b.l2, b.l3]);
    x.checked_mul(y).map(|p| p.into_limbs()).map(|l| Amount { l0: l[0], l1: l[1], l2: l[2], l3: l[3] })
}

/// Adds two 256-bit values with `ruint::Uint::checked_add`. Claimed: the sum
/// comes back exactly when it is below two to the power 256.
#[verifier::external_body]
fn u256_checked_add(a: Amount, b: Amount) -> (r: Option<Amount>)
    ensures
        r.is_some() <==> a.value() + b.value() < amount_limit(),
        r.is_some() ==> r.unwrap().value() == a.value() + b.value(),
{
    let x = U256::from_limbs([a.l0, a.l1, a.l2, a.l3]);
    let y = U256::from_limbs([b.l0, b.l1, b.l2, b.l3]);
    x.checked_add(y).map(|p| p.into_limbs()).map(|l| Amount { l0: l[0], l1: l[1], l2: l[2], l3: l[3] })
}

/// Subtracts with `ruint::Uint::checked_sub`. Claimed: the difference comes
/// back exactly when the second value does not exceed the first.
#[verifier::external_body]
fn u256_checked_sub(a: Amount, b: Amount) -> (r: Option<Amount>)
    ensures
        r.is_some() <==> b.value() <= a.value(),
        r.is_some() ==> r.unwrap().value() == a.value() - b.value(),
{
    let x = U256::from_limbs([a.l0, a.l1, a.l2, a.l3]);
    let y = U256::from_limbs([b.l0, b.l1, b.l2, b.l3]);
    x.checked_sub(y).map(|p| p.into_limbs()).map(|l| Amount { l0: l[0], l1: l[1], l2: l[2], l3: l[3] })
}

/// Divides with `ruint::Uint::checked_div`. Claimed: the quotient, rounded
/// down, comes back exactly when the divisor is not zero.
#[verifier::external_body]
fn u256_checked_div(a: Amount, b: Amount) -> (r: Option<Amount>)
    ensures
        r.is_some() <==> b.value() != 0,
        r.is_some() ==> r.unwrap().value() == a.value() / b.value(),
{
    let x = U256::from_limbs([a.l0, a.l1, a.l2, a.l3]);
    let y = U256::from_limbs([b.l0, b.l1, b.l2, b.l3]);
    x.checked_div(y).map(|p| p.into_limbs()).map(|l| Amount { l0: l[0], l1: l[1], l2: l[2], l3: l[3] })
}

impl Amount {
    /// The number that the four limbs stand for.
    pub open spec fn value(self) -> nat {
        (self.l0 + 0x1_0000_0000_0000_0000 * (self.l1 + 0x1_0000_0000_0000_0000 * (self.l2
            + 0x1_0000_0000_0000_0000 * self.l3))) as nat
    }

    /// Two amounts with the same value are the same amount, and every value
    /// is below two to the power 256.
    pub proof fn lemma_value_injective(a: Amount, b: Amount)
        ensures
            a.value() == b.value() <==> a == b,
            a.value() < amount_limit(),
    {
    }

    pub fn zero() -> (r: Amount)
        ensures
            r.value() == 0,
    {
        Amount { l0: 0, l1: 0, l2: 0, l3: 0 }
    }

    pub fn from_u64(x: u64) -> (r: Amount)
        ensures
            r.value() == x,
    {
        Amount { l0: x, l1: 0, l2: 0, l3: 0 }
    }

    pub fn from_u128(x: u128) -> (r: Amount)
        ensures
            r.value() == x,
    {
        let lo: u64 = (x % 0x1_0000_0000_0000_0000u128) as u64;
        let hi: u64 = (x / 0x1_0000_0000_0000_0000u128) as u64;
        Amount { l0: lo, l1: hi, l2: 0, l3: 0 }
    }

    /// The value as a `u128`, where it fits.
    pub fn to_u128(&self) -> (r: Option<u128>)
        ensures
            r.is_some() <==> self.value() <= u128::MAX,
            r.is_some() ==> r.unwrap() == self.value(),
    {
        if self.l2 != 0 || self.l3 != 0 {
            None
        } else {
            let hi: u128 = self.l1 as u128;
            let lo: u128 = self.l0 as u128;
            Some(hi * 0x1_0000_0000_0000_0000u128 + lo)
        }
    }

    pub fn is_zero(&self) -> (r: bool)
        ensures
            r == (self.value() == 0),
    {
        self.l0 == 0 && self.l1 == 0 && self.l2 == 0 && self.l3 == 0
    }

    /// Whether this amount is strictly below the other.
    pub fn less_than(&self, other: &Amount) -> (r: bool)
        ensures
            r == (self.value() < other.value()),
    {
        if self.l3 != other.l3 {
            self.l3 < other.l3
        } else if self.l2 != other.l2 {
            self.l2 < other.l2
        } else if self.l1 != other.l1 {
            self.l1 < other.l1
        } else {
            self.l0 < other.l0
        }
    }

    /// The product, where it is below two to the power 256.
    pub fn checked_mul(self, rhs: Amount) -> (r: Option<Amount>)
        ensures
            r.is_some() <==> self.value() * rhs.value() < amount_limit(),
            r.is_some() ==> r.unwrap().value() == self.value() * rhs.value(),
    {
        u256_checked_mul(self, rhs)
    }

    /// The sum, where it is below two to the power 256.
    pub fn checked_add(self, rhs: Amount) -> (r: Option<Amount>)
        ensures
            r.is_some() <==> self.value() + rhs.value() < amount_limit(),
            r.is_some() ==> r.unwrap().value() == self.value() + rhs.value(),
    {
        u256_checked_add(self, rhs)
    }

    /// The difference, where the subtrahend does not exceed this amount.
    pub fn checked_sub(self, rhs: Amount) -> (r: Option<Amount>)
        ensures
            r.is_some() <==> rhs.value() <= self.value(),
            r.is_some() ==> r.unwrap().value() == self.value() - rhs.value(),
    {
        u256_checked_sub(self, rhs)
    }

    /// The quotient rounded down, where the divisor is not zero.
    pub fn checked_div(self, rhs: Amount) -> (r: Option<Amount>)
        ensures
            r.is_some() <==> rhs.value() != 0,
            r.is_some() ==> r.unwrap().value() == self.value() / rhs.value(),
    {
        u256_checked_div(self, rhs)
    }
}

} // verus!
