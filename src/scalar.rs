use vstd::prelude::*;

verus! {

/// The absolute value of an integer.
pub open spec fn abs(x: int) -> int {
    if x < 0 {
        -x
    } else {
        x
    }
}

/// The capabilities an element type supplies to the arithmetic kernels: an
/// additive identity and the four arithmetic operations, each with the
/// condition under which it is defined (no overflow, no division by zero).
pub trait Scalar: Copy + Sized {
    spec fn zero_spec() -> Self;

    spec fn add_ok(a: Self, b: Self) -> bool;

    spec fn add_spec(a: Self, b: Self) -> Self;

    spec fn sub_ok(a: Self, b: Self) -> bool;

    spec fn sub_spec(a: Self, b: Self) -> Self;

    spec fn mul_ok(a: Self, b: Self) -> bool;

    spec fn mul_spec(a: Self, b: Self) -> Self;

    spec fn div_ok(a: Self, b: Self) -> bool;

    spec fn div_spec(a: Self, b: Self) -> Self;

    fn zero() -> (r: Self)
        ensures
            r == Self::zero_spec(),
    ;

    fn plus(a: Self, b: Self) -> (r: Self)
        requires
            Self::add_ok(a, b),
        ensures
            r == Self::add_spec(a, b),
    ;

    fn minus(a: Self, b: Self) -> (r: Self)
        requires
            Self::sub_ok(a, b),
        ensures
            r == Self::sub_spec(a, b),
    ;

    fn times(a: Self, b: Self) -> (r: Self)
        requires
            Self::mul_ok(a, b),
        ensures
            r == Self::mul_spec(a, b),
    ;

    fn divide(a: Self, b: Self) -> (r: Self)
        requires
            Self::div_ok(a, b),
        ensures
            r == Self::div_spec(a, b),
    ;
}

impl Scalar for i32 {
    open spec fn zero_spec() -> i32 {
        0
    }

    open spec fn add_ok(a: i32, b: i32) -> bool {
        i32::MIN <= a + b <= i32::MAX
    }

    open spec fn add_spec(a: i32, b: i32) -> i32 {
        (a + b) as i32
    }

    open spec fn sub_ok(a: i32, b: i32) -> bool {
        i32::MIN <= a - b <= i32::MAX
    }

    open spec fn sub_spec(a: i32, b: i32) -> i32 {
        (a - b) as i32
    }

    open spec fn mul_ok(a: i32, b: i32) -> bool {
        i32::MIN <= a * b <= i32::MAX
    }

    open spec fn mul_spec(a: i32, b: i32) -> i32 {
        (a * b) as i32
    }

    open spec fn div_ok(a: i32, b: i32) -> bool {
        b != 0 && !(a == i32::MIN && b == -1)
    }

    open spec fn div_spec(a: i32, b: i32) -> i32 {
        // Integer division rounds toward zero.
        let q = abs(a as int) / abs(b as int);
        if (a < 0) == (b < 0) {
            q as i32
        } else {
            -q as i32
        }
    }

    fn zero() -> (r: i32) {
        0
    }

    fn plus(a: i32, b: i32) -> (r: i32) {
        a + b
    }

    fn minus(a: i32, b: i32) -> (r: i32) {
        a - b
    }

    fn times(a: i32, b: i32) -> (r: i32) {
        a * b
    }

    fn divide(a: i32, b: i32) -> (r: i32) {
        // Truncating division, computed on the magnitudes.
        let ua: i64 = if a < 0 { -(a as i64) } else { a as i64 };
        let ub: i64 = if b < 0 { -(b as i64) } else { b as i64 };
        let q: i64 = ua / ub;
        assert(q <= ua) by (nonlinear_arith) requires ub >= 1, ua >= 0, q == ua / ub;
        if (a < 0) == (b < 0) {
            q as i32
        } else {
            (-q) as i32
        }
    }
}

impl Scalar for i64 {
    open spec fn zero_spec() -> i64 {
        0
    }

    open spec fn add_ok(a: i64, b: i64) -> bool {
        i64::MIN <= a + b <= i64::MAX
    }

    open spec fn add_spec(a: i64, b: i64) -> i64 {
        (a + b) as i64
    }

    open spec fn sub_ok(a: i64, b: i64) -> bool {
        i64::MIN <= a - b <= i64::MAX
    }

    open spec fn sub_spec(a: i64, b: i64) -> i64 {
        (a - b) as i64
    }

    open spec fn mul_ok(a: i64, b: i64) -> bool {
        i64::MIN <= a * b <= i64::MAX
    }

    open spec fn mul_spec(a: i64, b: i64) -> i64 {
        (a * b) as i64
    }

    open spec fn div_ok(a: i64, b: i64) -> bool {
        b != 0 && !(a == i64::MIN && b == -1)
    }

    open spec fn div_spec(a: i64, b: i64) -> i64 {
        // Integer division rounds toward zero.
        let q = abs(a as int) / abs(b as int);
        if (a < 0) == (b < 0) {
            q as i64
        } else {
            -q as i64
        }
    }

    fn zero() -> (r: i64) {
        0
    }

    fn plus(a: i64, b: i64) -> (r: i64) {
        a + b
    }

    fn minus(a: i64, b: i64) -> (r: i64) {
        a - b
    }

    fn times(a: i64, b: i64) -> (r: i64) {
        a * b
    }

    fn divide(a: i64, b: i64) -> (r: i64) {
        // Truncating division, computed on the magnitudes.
        let ua: i128 = if a < 0 { -(a as i128) } else { a as i128 };
        let ub: i128 = if b < 0 { -(b as i128) } else { b as i128 };
        let q: i128 = ua / ub;
        assert(q <= ua) by (nonlinear_arith) requires ub >= 1, ua >= 0, q == ua / ub;
        if (a < 0) == (b < 0) {
            q as i64
        } else {
            (-q) as i64
        }
    }
}

} // verus!
