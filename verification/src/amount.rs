//! Numeric types that can count a balance.

use vstd::prelude::*;

verus! {

/// A numeric type that holds a non-negative amount up to a fixed maximum and
/// adds and subtracts with a check in place of wrapping.
pub trait Amount: Copy {
    /// The amount that a value stands for.
    spec fn value(self) -> nat;

    /// The largest amount that the type can hold.
    spec fn max_value() -> nat;

    /// The amount zero.
    fn zero() -> (z: Self)
        ensures
            z.value() == 0,
    ;

    /// The sum of two amounts, or `None` where it is above the maximum.
    fn checked_add(self, rhs: Self) -> (sum: Option<Self>)
        ensures
            match sum {
                Some(s) => s.value() == self.value() + rhs.value() && s.value() <= Self::max_value(),
                None => self.value() + rhs.value() > Self::max_value(),
            },
    ;

    /// The difference of two amounts, or `None` where `rhs` is the larger.
    fn checked_sub(self, rhs: Self) -> (difference: Option<Self>)
        ensures
            match difference {
                Some(d) => rhs.value() <= self.value() && d.value() == self.value() - rhs.value(),
                None => rhs.value() > self.value(),
            },
    ;
}

/// Calls `num::traits::Zero::zero` for `u64`, which returns the literal `0`.
#[verifier::external_body]
fn zero_u64() -> (z: u64)
    ensures
        z == 0,
{
    num::traits::Zero::zero()
}

/// Calls `num::traits::CheckedAdd::checked_add` for `u64`, which hands its
/// operands to `u64::checked_add`: the sum where it fits in a `u64`, else
/// `None`.
#[verifier::external_body]
fn checked_add_u64(a: u64, b: u64) -> (sum: Option<u64>)
    ensures
        sum == (if a + b <= u64::MAX { Some((a + b) as u64) } else { None }),
{
    num::traits::CheckedAdd::checked_add(&a, &b)
}

/// Calls `num::traits::CheckedSub::checked_sub` for `u64`, which hands its
/// operands to `u64::checked_sub`: the difference where it is not negative,
/// else `None`.
#[verifier::external_body]
fn checked_sub_u64(a: u64, b: u64) -> (difference: Option<u64>)
    ensures
        difference == (if b <= a { Some((a - b) as u64) } else { None }),
{
    num::traits::CheckedSub::checked_sub(&a, &b)
}

impl Amount for u64 {
    open spec fn value(self) -> nat {
        self as nat
    }

    open spec fn max_value() -> nat {
        u64::MAX as nat
    }

    fn zero() -> (z: Self) {
        zero_u64()
    }

    fn checked_add(self, rhs: Self) -> (sum: Option<Self>) {
        checked_add_u64(self, rhs)
    }

    fn checked_sub(self, rhs: Self) -> (difference: Option<Self>) {
        checked_sub_u64(self, rhs)
    }
}

/// Calls `num::traits::Zero::zero` for `u128`, which returns the literal `0`.
#[verifier::external_body]
fn zero_u128() -> (z: u128)
    ensures
        z == 0,
{
    num::traits::Zero::zero()
}

/// Calls `num::traits::CheckedAdd::checked_add` for `u128`, which hands its
/// operands to `u128::checked_add`: the sum where it fits in a `u128`, else
/// `None`.
#[verifier::external_body]
fn checked_add_u128(a: u128, b: u128) -> (sum: Option<u128>)
    ensures
        sum == (if a + b <= u128::MAX { Some((a + b) as u128) } else { None }),
{
    num::traits::CheckedAdd::checked_add(&a, &b)
}

/// Calls `num::traits::CheckedSub::checked_sub` for `u128`, which hands its
/// operands to `u128::checked_sub`: the difference where it is not negative,
/// else `None`.
#[verifier::external_body]
fn checked_sub_u128(a: u128, b: u128) -> (difference: Option<u128>)
    ensures
        difference == (if b <= a { Some((a - b) as u128) } else { None }),
{
    num::traits::CheckedSub::checked_sub(&a, &b)
}

impl Amount for u128 {
    open spec fn value(self) -> nat {
        self as nat
    }

    open spec fn max_value() -> nat {
        u128::MAX as nat
    }

    fn zero() -> (z: Self) {
        zero_u128()
    }

    fn checked_add(self, rhs: Self) -> (sum: Option<Self>) {
        checked_add_u128(self, rhs)
    }

    fn checked_sub(self, rhs: Self) -> (difference: Option<Self>) {
        checked_sub_u128(self, rhs)
    }
}

} // verus!
