//! Checks on what a system call returned.
//!
//! A call into the system reports failure through its return value. Each
//! `Expect*` type names one condition that a healthy return value meets;
//! [`UnsafeNoPanic`] holds a return value and turns it into a `Result` by one
//! of them.

use vstd::prelude::*;

verus! {

/// A condition on values of type `T`.
pub trait AssertReturn<T> {
    /// Whether `ty` meets the condition.
    spec fn holds(ty: &T) -> bool;

    /// Tests `ty` against the condition.
    fn check(ty: &T) -> (r: bool)
        ensures
            r == Self::holds(ty),
    ;
}

/// The value is not negative.
pub struct ExpectNonNegative;

/// The value is not the all-ones pattern, `-1` for a signed integer.
pub struct ExpectNotMax;

/// The value is not zero.
pub struct ExpectNotZero;

/// The value is greater than zero.
pub struct ExpectPositive;

/// The value, an address, is not null.
pub struct ExpectNonNullPtr;

/// The value is the default of its type, zero for an integer.
pub struct ExpectDefault;

impl AssertReturn<i32> for ExpectDefault {
    open spec fn holds(ty: &i32) -> bool {
        *ty == 0
    }

    fn check(ty: &i32) -> (r: bool) {
        *ty == 0
    }
}

impl AssertReturn<usize> for ExpectNonNullPtr {
    open spec fn holds(ty: &usize) -> bool {
        *ty != 0
    }

    fn check(ty: &usize) -> (r: bool) {
        *ty != 0
    }
}

impl AssertReturn<i32> for ExpectNonNegative {
    open spec fn holds(ty: &i32) -> bool {
        *ty >= 0
    }

    fn check(ty: &i32) -> (r: bool) {
        *ty >= 0
    }
}

impl AssertReturn<i32> for ExpectNotMax {
    open spec fn holds(ty: &i32) -> bool {
        *ty != -1
    }

    fn check(ty: &i32) -> (r: bool) {
        *ty != -1
    }
}

impl AssertReturn<u32> for ExpectNotZero {
    open spec fn holds(ty: &u32) -> bool {
        *ty != 0
    }

    fn check(ty: &u32) -> (r: bool) {
        *ty != 0
    }
}

impl AssertReturn<i32> for ExpectNotZero {
    open spec fn holds(ty: &i32) -> bool {
        *ty != 0
    }

    fn check(ty: &i32) -> (r: bool) {
        *ty != 0
    }
}

impl AssertReturn<i64> for ExpectPositive {
    open spec fn holds(ty: &i64) -> bool {
        *ty > 0
    }

    fn check(ty: &i64) -> (r: bool) {
        *ty > 0
    }
}

/// What a call returned, not yet looked at.
#[derive(Debug)]
pub struct UnsafeNoPanic<T> {
    res: T,
}

impl<T> View for UnsafeNoPanic<T> {
    type V = T;

    closed spec fn view(&self) -> T {
        self.res
    }
}

impl<T> UnsafeNoPanic<T> {
    /// Makes the call `f` and holds what it returned.
    pub fn new<F>(f: F) -> (r: Self) where F: Fn() -> T
        requires
            f.requires(()),
        ensures
            f.ensures((), r@),
    {
        UnsafeNoPanic { res: f() }
    }

    /// Hands the value out if it meets the condition `S`, and fails with `ex`
    /// if it does not.
    pub fn expect<S, E>(self, _s: S, ex: E) -> (r: Result<T, E>) where S: AssertReturn<T>
        ensures
            S::holds(&self@) ==> r == Ok::<T, E>(self@),
            !S::holds(&self@) ==> r == Err::<T, E>(ex),
    {
        match self.check::<S, E>(ex) {
            Ok(()) => Ok(self.res),
            Err(e) => Err(e),
        }
    }

    /// Fails with `ex` unless the value meets the condition `S`.
    pub fn check<S, E>(&self, ex: E) -> (r: Result<(), E>) where S: AssertReturn<T>
        ensures
            S::holds(&self@) ==> r == Ok::<(), E>(()),
            !S::holds(&self@) ==> r == Err::<(), E>(ex),
    {
        if !S::check(&self.res) {
            return Err(ex);
        }
        Ok(())
    }
}

} // verus!
