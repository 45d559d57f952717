//! Scalars: the unsigned quantities that count blocks, extrinsics and
//! tokens, with the checked arithmetic the ledger is built on.

use vstd::prelude::*;

verus! {

/// An unsigned quantity with a largest value. `value` maps the scalars of a
/// type one to one onto the numbers from zero to `ceiling()`.
pub trait Scalar: Copy + Sized {
    /// The number this scalar stands for.
    spec fn value(self) -> nat;

    /// The largest number the type can hold.
    spec fn ceiling() -> nat;

    /// The scalar that stands for `n`, for `n` up to `ceiling()`.
    spec fn from_value(n: nat) -> Self;

    /// Every scalar lies within the range of its type, and every range fits
    /// in 128 bits.
    proof fn value_in_range(self)
        ensures
            self.value() <= Self::ceiling(),
            Self::ceiling() <= u128::MAX,
    ;

    /// A scalar is determined by its value.
    proof fn value_names_the_scalar(self)
        ensures
            Self::from_value(self.value()) == self,
    ;

    /// Every number within the range is the value of a scalar.
    proof fn from_value_in_range(n: nat)
        requires
            n <= Self::ceiling(),
        ensures
            Self::from_value(n).value() == n,
    ;

    /// The additive identity.
    fn zero() -> (r: Self)
        ensures
            r.value() == 0,
    ;

    /// The unit step.
    fn one() -> (r: Self)
        ensures
            r.value() == 1,
    ;

    /// The sum, or `None` where it exceeds the range.
    fn checked_add(&self, v: &Self) -> (r: Option<Self>)
        ensures
            r == (if self.value() + v.value() <= Self::ceiling() {
                Some(Self::from_value(self.value() + v.value()))
            } else {
                None
            }),
    ;

    /// The difference, or `None` where it would be negative.
    fn checked_sub(&self, v: &Self) -> (r: Option<Self>)
        ensures
            r == (if v.value() <= self.value() {
                Some(Self::from_value((self.value() - v.value()) as nat))
            } else {
                None
            }),
    ;

    /// The value as a 128-bit integer.
    fn to_wide(&self) -> (r: u128)
        ensures
            r == self.value(),
    ;

    /// The scalar with the given value, or `None` where it exceeds the range.
    fn from_wide(w: u128) -> (r: Option<Self>)
        ensures
            r == (if w <= Self::ceiling() {
                Some(Self::from_value(w as nat))
            } else {
                None
            }),
    ;
}

/// Whether `a` is smaller than `b`.
pub fn less_than<S: Scalar>(a: &S, b: &S) -> (r: bool)
    ensures
        r == (a.value() < b.value()),
{
    a.to_wide() < b.to_wide()
}

/// The sum of two scalars whose sum lies within the range.
pub fn add_within<S: Scalar>(a: &S, b: &S) -> (r: S)
    requires
        a.value() + b.value() <= S::ceiling(),
    ensures
        r.value() == a.value() + b.value(),
{
    proof {
        S::from_value_in_range(a.value() + b.value());
    }
    match a.checked_add(b) {
        Some(s) => s,
        None => *a,
    }
}

/// The difference of two scalars of which the second is no larger.
pub fn sub_within<S: Scalar>(a: &S, b: &S) -> (r: S)
    requires
        b.value() <= a.value(),
    ensures
        r.value() == a.value() - b.value(),
{
    proof {
        a.value_in_range();
        S::from_value_in_range((a.value() - b.value()) as nat);
    }
    match a.checked_sub(b) {
        Some(s) => s,
        None => *a,
    }
}

/// The sum of two scalars, or `None` where it exceeds the range.
pub fn sum_of<S: Scalar>(a: &S, b: &S) -> (r: Option<S>)
    ensures
        match r {
            Some(s) => s.value() == a.value() + b.value() && s.value() <= S::ceiling(),
            None => a.value() + b.value() > S::ceiling(),
        },
{
    proof {
        if a.value() + b.value() <= S::ceiling() {
            S::from_value_in_range(a.value() + b.value());
        }
    }
    a.checked_add(b)
}

/// The difference of two scalars, or `None` where it would be negative.
pub fn difference_of<S: Scalar>(a: &S, b: &S) -> (r: Option<S>)
    ensures
        match r {
            Some(s) => s.value() == a.value() - b.value(),
            None => a.value() < b.value(),
        },
{
    proof {
        if b.value() <= a.value() {
            a.value_in_range();
            S::from_value_in_range((a.value() - b.value()) as nat);
        }
    }
    a.checked_sub(b)
}

/// `num::traits::Zero::zero` for `u32`: returns 0.
#[verifier::external_body]
fn zero_u32() -> (r: u32)
    ensures
        r == 0,
{
    num::traits::Zero::zero()
}

/// `num::traits::One::one` for `u32`: returns 1.
#[verifier::external_body]
fn one_u32() -> (r: u32)
    ensures
        r == 1,
{
    num::traits::One::one()
}

/// `num::traits::CheckedAdd::checked_add` for `u32`: the sum where it fits
/// in `u32`, else `None`.
#[verifier::external_body]
fn checked_add_u32(a: &u32, b: &u32) -> (r: Option<u32>)
    ensures
        r == (if *a + *b <= u32::MAX {
            Some((*a + *b) as u32)
        } else {
            None
        }),
{
    num::traits::CheckedAdd::checked_add(a, b)
}

/// `num::traits::CheckedSub::checked_sub` for `u32`: the difference where
/// it is not negative, else `None`.
#[verifier::external_body]
fn checked_sub_u32(a: &u32, b: &u32) -> (r: Option<u32>)
    ensures
        r == (if *b <= *a {
            Some((*a - *b) as u32)
        } else {
            None
        }),
{
    num::traits::CheckedSub::checked_sub(a, b)
}

impl Scalar for u32 {
    open spec fn value(self) -> nat {
        self as nat
    }

    open spec fn ceiling() -> nat {
        u32::MAX as nat
    }

    open spec fn from_value(n: nat) -> u32 {
        n as u32
    }

    proof fn value_in_range(self) {
    }

    proof fn value_names_the_scalar(self) {
    }

    proof fn from_value_in_range(n: nat) {
    }

    fn zero() -> (r: u32) {
        zero_u32()
    }

    fn one() -> (r: u32) {
        one_u32()
    }

    fn checked_add(&self, v: &u32) -> (r: Option<u32>) {
        checked_add_u32(self, v)
    }

    fn checked_sub(&self, v: &u32) -> (r: Option<u32>) {
        checked_sub_u32(self, v)
    }

    fn to_wide(&self) -> (r: u128) {
        *self as u128
    }

    fn from_wide(w: u128) -> (r: Option<u32>) {
        if w <= u32::MAX as u128 {
            Some(w as u32)
        } else {
            None
        }
    }
}

/// `num::traits::Zero::zero` for `u64`: returns 0.
#[verifier::external_body]
fn zero_u64() -> (r: u64)
    ensures
        r == 0,
{
    num::traits::Zero::zero()
}

/// `num::traits::One::one` for `u64`: returns 1.
#[verifier::external_body]
fn one_u64() -> (r: u64)
    ensures
        r == 1,
{
    num::traits::One::one()
}

/// `num::traits::CheckedAdd::checked_add` for `u64`: the sum where it fits
/// in `u64`, else `None`.
#[verifier::external_body]
fn checked_add_u64(a: &u64, b: &u64) -> (r: Option<u64>)
    ensures
        r == (if *a + *b <= u64::MAX {
            Some((*a + *b) as u64)
        } else {
            None
        }),
{
    num::traits::CheckedAdd::checked_add(a, b)
}

/// `num::traits::CheckedSub::checked_sub` for `u64`: the difference where
/// it is not negative, else `None`.
#[verifier::external_body]
fn checked_sub_u64(a: &u64, b: &u64) -> (r: Option<u64>)
    ensures
        r == (if *b <= *a {
            Some((*a - *b) as u64)
        } else {
            None
        }),
{
    num::traits::CheckedSub::checked_sub(a, b)
}

impl Scalar for u64 {
    open spec fn value(self) -> nat {
        self as nat
    }

    open spec fn ceiling() -> nat {
        u64::MAX as nat
    }

    open spec fn from_value(n: nat) -> u64 {
        n as u64
    }

    proof fn value_in_range(self) {
    }

    proof fn value_names_the_scalar(self) {
    }

    proof fn from_value_in_range(n: nat) {
    }

    fn zero() -> (r: u64) {
        zero_u64()
    }

    fn one() -> (r: u64) {
        one_u64()
    }

    fn checked_add(&self, v: &u64) -> (r: Option<u64>) {
        checked_add_u64(self, v)
    }

    fn checked_sub(&self, v: &u64) -> (r: Option<u64>) {
        checked_sub_u64(self, v)
    }

    fn to_wide(&self) -> (r: u128) {
        *self as u128
    }

    fn from_wide(w: u128) -> (r: Option<u64>) {
        if w <= u64::MAX as u128 {
            Some(w as u64)
        } else {
            None
        }
    }
}

/// `num::traits::Zero::zero` for `u128`: returns 0.
#[verifier::external_body]
fn zero_u128() -> (r: u128)
    ensures
        r == 0,
{
    num::traits::Zero::zero()
}

/// `num::traits::One::one` for `u128`: returns 1.
#[verifier::external_body]
fn one_u128() -> (r: u128)
    ensures
        r == 1,
{
    num::traits::One::one()
}

/// `num::traits::CheckedAdd::checked_add` for `u128`: the sum where it fits
/// in `u128`, else `None`.
#[verifier::external_body]
fn checked_add_u128(a: &u128, b: &u128) -> (r: Option<u128>)
    ensures
        r == (if *a + *b <= u128::MAX {
            Some((*a + *b) as u128)
        } else {
            None
        }),
{
    num::traits::CheckedAdd::checked_add(a, b)
}

/// `num::traits::CheckedSub::checked_sub` for `u128`: the difference where
/// it is not negative, else `None`.
#[verifier::external_body]
fn checked_sub_u128(a: &u128, b: &u128) -> (r: Option<u128>)
    ensures
        r == (if *b <= *a {
            Some((*a - *b) as u128)
        } else {
            None
        }),
{
    num::traits::CheckedSub::checked_sub(a, b)
}

impl Scalar for u128 {
    open spec fn value(self) -> nat {
        self as nat
    }

    open spec fn ceiling() -> nat {
        u128::MAX as nat
    }

    open spec fn from_value(n: nat) -> u128 {
        n as u128
    }

    proof fn value_in_range(self) {
    }

    proof fn value_names_the_scalar(self) {
    }

    proof fn from_value_in_range(n: nat) {
    }

    fn zero() -> (r: u128) {
        zero_u128()
    }

    fn one() -> (r: u128) {
        one_u128()
    }

    fn checked_add(&self, v: &u128) -> (r: Option<u128>) {
        checked_add_u128(self, v)
    }

    fn checked_sub(&self, v: &u128) -> (r: Option<u128>) {
        checked_sub_u128(self, v)
    }

    fn to_wide(&self) -> (r: u128) {
        *self as u128
    }

    fn from_wide(w: u128) -> (r: Option<u128>) {
        if w <= u128::MAX as u128 {
            Some(w as u128)
        } else {
            None
        }
    }
}

} // verus!
