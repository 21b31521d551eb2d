//! The element type of tensors: what the library asks of it, and the
//! integers as one such type.

use vstd::prelude::*;

verus! {

/// The arithmetic a tensor element supports.
///
/// Every operation is a function of its arguments alone: the executable
/// method returns exactly what the specification function of the same name
/// denotes. Tensor contracts are stated over these specification functions,
/// so they fix the order of every accumulation and hold for any element type,
/// whether or not its addition is associative.
pub trait Scalar: Copy {
    spec fn zero_spec() -> Self;

    spec fn one_spec() -> Self;

    /// A value that exceeds no element.
    spec fn lowest_spec() -> Self;

    /// A value that no element exceeds.
    spec fn highest_spec() -> Self;

    /// The element that stands for a count of items.
    spec fn count_spec(n: usize) -> Self;

    spec fn plus_spec(self, rhs: Self) -> Self;

    spec fn minus_spec(self, rhs: Self) -> Self;

    spec fn times_spec(self, rhs: Self) -> Self;

    spec fn over_spec(self, rhs: Self) -> Self;

    spec fn root_spec(self) -> Self;

    spec fn exceeds_spec(self, rhs: Self) -> bool;

    spec fn equals_spec(self, rhs: Self) -> bool;

    fn zero() -> (r: Self)
        ensures
            r == Self::zero_spec(),
    ;

    fn one() -> (r: Self)
        ensures
            r == Self::one_spec(),
    ;

    fn lowest() -> (r: Self)
        ensures
            r == Self::lowest_spec(),
    ;

    fn highest() -> (r: Self)
        ensures
            r == Self::highest_spec(),
    ;

    fn count(n: usize) -> (r: Self)
        ensures
            r == Self::count_spec(n),
    ;

    fn plus(self, rhs: Self) -> (r: Self)
        ensures
            r == self.plus_spec(rhs),
    ;

    fn minus(self, rhs: Self) -> (r: Self)
        ensures
            r == self.minus_spec(rhs),
    ;

    fn times(self, rhs: Self) -> (r: Self)
        ensures
            r == self.times_spec(rhs),
    ;

    fn over(self, rhs: Self) -> (r: Self)
        ensures
            r == self.over_spec(rhs),
    ;

    /// The square root.
    fn root(self) -> (r: Self)
        ensures
            r == self.root_spec(),
    ;

    /// Whether `self` is strictly greater than `rhs`.
    fn exceeds(self, rhs: Self) -> (r: bool)
        ensures
            r == self.exceeds_spec(rhs),
    ;

    /// Whether the two compare equal as numbers.
    fn equals(self, rhs: Self) -> (r: bool)
        ensures
            r == self.equals_spec(rhs),
    ;
}

/// Functions whose results are only approximations of the mathematical
/// value, with no promise that two evaluations agree. Nothing is stated of
/// what they return.
pub trait Transcendental: Scalar {
    fn exp(self) -> Self;

    fn ln(self) -> Self;

    fn tanh(self) -> Self;
}

/// A source of random draws, owned by the caller and passed explicitly.
/// Nothing is stated of what it returns.
pub trait RandomSource<T> {
    /// One draw from the standard normal distribution.
    fn standard_normal(&mut self) -> T;

    /// One draw that is `true` with probability `1 - p`.
    fn keep(&mut self, p: T) -> bool;
}

pub open spec fn is_floor_sqrt(x: int, r: int) -> bool {
    0 <= r && r * r <= x < (r + 1) * (r + 1)
}

/// The largest integer whose square does not exceed `x`; zero for negative `x`.
pub open spec fn floor_sqrt(x: int) -> int {
    if x <= 0 {
        0
    } else {
        choose|r: int| is_floor_sqrt(x, r)
    }
}

proof fn lemma_floor_sqrt_is(x: int, r: int)
    requires
        x > 0,
        0 <= r,
        r * r <= x < (r + 1) * (r + 1),
    ensures
        floor_sqrt(x) == r,
{
    let c = floor_sqrt(x);
    assert(is_floor_sqrt(x, r));
    assert(is_floor_sqrt(x, c));
    assert(c == r) by (nonlinear_arith)
        requires
            0 <= c,
            0 <= r,
            c * c <= x < (c + 1) * (c + 1),
            r * r <= x < (r + 1) * (r + 1),
    {
        if c < r {
            assert((c + 1) * (c + 1) <= r * r);
        }
        if r < c {
            assert((r + 1) * (r + 1) <= c * c);
        }
    }
}

/// Truncating division made total: zero where the quotient does not exist.
pub open spec fn total_quotient(x: i64, y: i64) -> i64 {
    match x.checked_div(y) {
        Some(q) => q,
        None => 0,
    }
}

/// Sixty-four bit integers: wrapping ring operations, truncating division
/// that yields zero where the quotient does not exist, and the floor of the
/// square root.
impl Scalar for i64 {
    open spec fn zero_spec() -> i64 {
        0
    }

    open spec fn one_spec() -> i64 {
        1
    }

    open spec fn lowest_spec() -> i64 {
        i64::MIN
    }

    open spec fn highest_spec() -> i64 {
        i64::MAX
    }

    open spec fn count_spec(n: usize) -> i64 {
        if n <= i64::MAX {
            n as i64
        } else {
            i64::MAX
        }
    }

    open spec fn plus_spec(self, rhs: i64) -> i64 {
        self.wrapping_add(rhs)
    }

    open spec fn minus_spec(self, rhs: i64) -> i64 {
        self.wrapping_sub(rhs)
    }

    open spec fn times_spec(self, rhs: i64) -> i64 {
        self.wrapping_mul(rhs)
    }

    open spec fn over_spec(self, rhs: i64) -> i64 {
        total_quotient(self, rhs)
    }

    open spec fn root_spec(self) -> i64 {
        floor_sqrt(self as int) as i64
    }

    open spec fn exceeds_spec(self, rhs: i64) -> bool {
        self > rhs
    }

    open spec fn equals_spec(self, rhs: i64) -> bool {
        self == rhs
    }

    fn zero() -> (r: i64) {
        0
    }

    fn one() -> (r: i64) {
        1
    }

    fn lowest() -> (r: i64) {
        i64::MIN
    }

    fn highest() -> (r: i64) {
        i64::MAX
    }

    fn count(n: usize) -> (r: i64) {
        if n as u64 <= 0x7fff_ffff_ffff_ffffu64 {
            n as i64
        } else {
            i64::MAX
        }
    }

    fn plus(self, rhs: i64) -> (r: i64) {
        self.wrapping_add(rhs)
    }

    fn minus(self, rhs: i64) -> (r: i64) {
        self.wrapping_sub(rhs)
    }

    fn times(self, rhs: i64) -> (r: i64) {
        self.wrapping_mul(rhs)
    }

    fn over(self, rhs: i64) -> (r: i64) {
        match self.checked_div(rhs) {
            Some(q) => q,
            None => 0,
        }
    }

    fn root(self) -> (r: i64) {
        if self <= 0 {
            return 0;
        }
        let x: u64 = self as u64;
        let mut lo: u64 = 0;
        let mut hi: u64 = 3037000500;
        assert(x < 3037000500 * 3037000500);
        while hi - lo > 1
            invariant
                x == self,
                self > 0,
                lo < hi <= 3037000500,
                lo * lo <= x < hi * hi,
            decreases hi - lo,
        {
            let mid = lo + (hi - lo) / 2;
            assert(mid * mid <= 3037000500 * 3037000500) by (nonlinear_arith)
                requires
                    mid <= 3037000500,
            ;
            if mid * mid <= x {
                lo = mid;
            } else {
                hi = mid;
            }
        }
        proof {
            lemma_floor_sqrt_is(self as int, lo as int);
        }
        lo as i64
    }

    fn exceeds(self, rhs: i64) -> (r: bool) {
        self > rhs
    }

    fn equals(self, rhs: i64) -> (r: bool) {
        self == rhs
    }
}

} // verus!
