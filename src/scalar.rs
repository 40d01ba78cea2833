use vstd::prelude::*;

verus! {

/// An integer element type: an exact integer value, a representable range,
/// zero, and addition, subtraction and multiplication that are exact whenever
/// the result is representable.
pub trait Scalar: Copy + Sized {
    /// The integer this value stands for.
    spec fn value(self) -> int;

    /// `v` is representable in this type.
    spec fn fits(v: int) -> bool;

    /// The additive identity.
    fn zero() -> (z: Self)
        ensures
            z.value() == 0,
    ;

    /// `self + o`.
    fn plus(self, o: Self) -> (r: Self)
        requires
            Self::fits(self.value() + o.value()),
        ensures
            r.value() == self.value() + o.value(),
    ;

    /// `self - o`.
    fn minus(self, o: Self) -> (r: Self)
        requires
            Self::fits(self.value() - o.value()),
        ensures
            r.value() == self.value() - o.value(),
    ;

    /// `self * o`.
    fn times(self, o: Self) -> (r: Self)
        requires
            Self::fits(self.value() * o.value()),
        ensures
            r.value() == self.value() * o.value(),
    ;

    /// The value as an `i128`.
    fn to_i128(self) -> (r: i128)
        ensures
            r == self.value(),
            r > i128::MIN,
    ;
}

impl Scalar for i32 {
    open spec fn value(self) -> int {
        self as int
    }

    open spec fn fits(v: int) -> bool {
        i32::MIN <= v <= i32::MAX
    }

    fn zero() -> (z: i32) {
        0
    }

    fn plus(self, o: i32) -> (r: i32) {
        self + o
    }

    fn minus(self, o: i32) -> (r: i32) {
        self - o
    }

    fn times(self, o: i32) -> (r: i32) {
        self * o
    }

    fn to_i128(self) -> (r: i128) {
        self as i128
    }
}

impl Scalar for i64 {
    open spec fn value(self) -> int {
        self as int
    }

    open spec fn fits(v: int) -> bool {
        i64::MIN <= v <= i64::MAX
    }

    fn zero() -> (z: i64) {
        0
    }

    fn plus(self, o: i64) -> (r: i64) {
        self + o
    }

    fn minus(self, o: i64) -> (r: i64) {
        self - o
    }

    fn times(self, o: i64) -> (r: i64) {
        self * o
    }

    fn to_i128(self) -> (r: i128) {
        self as i128
    }
}

impl Scalar for u32 {
    open spec fn value(self) -> int {
        self as int
    }

    open spec fn fits(v: int) -> bool {
        0 <= v <= u32::MAX
    }

    fn zero() -> (z: u32) {
        0
    }

    fn plus(self, o: u32) -> (r: u32) {
        self + o
    }

    fn minus(self, o: u32) -> (r: u32) {
        self - o
    }

    fn times(self, o: u32) -> (r: u32) {
        self * o
    }

    fn to_i128(self) -> (r: i128) {
        self as i128
    }
}

impl Scalar for u64 {
    open spec fn value(self) -> int {
        self as int
    }

    open spec fn fits(v: int) -> bool {
        0 <= v <= u64::MAX
    }

    fn zero() -> (z: u64) {
        0
    }

    fn plus(self, o: u64) -> (r: u64) {
        self + o
    }

    fn minus(self, o: u64) -> (r: u64) {
        self - o
    }

    fn times(self, o: u64) -> (r: u64) {
        self * o
    }

    fn to_i128(self) -> (r: i128) {
        self as i128
    }
}

} // verus!
