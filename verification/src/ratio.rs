//! Exact rational parameters.
//!
//! An effect strength is a fraction `num / den` with a positive denominator.
//! Clamping a strength to an integer interval and rounding a fraction toward
//! zero are both exact, so the effects built on top need no approximation.

use vstd::prelude::*;

verus! {

/// A fraction `num / den` with `den > 0`.
#[derive(Clone, Copy, Debug)]
pub struct Ratio {
    num: i32,
    den: u32,
}

/// The part of the fraction `a / d` before the point: `a / d` rounded toward
/// zero. Meaningful for `d > 0`.
pub open spec fn trunc(a: int, d: int) -> int {
    if a >= 0 {
        a / d
    } else {
        -((-a) / d)
    }
}

/// `a / d` limited from above by `hi`, then rounded toward zero.
pub open spec fn trunc_at_most(a: int, d: int, hi: int) -> int {
    if a >= hi * d {
        hi
    } else {
        trunc(a, d)
    }
}

/// `a / d` limited from below by `lo`, then rounded toward zero.
pub open spec fn trunc_at_least(a: int, d: int, lo: int) -> int {
    if a <= lo * d {
        lo
    } else {
        trunc(a, d)
    }
}

/// `a / d` limited from below by `lo`, then from above by `hi`, then rounded
/// toward zero.
pub open spec fn trunc_between(a: int, d: int, lo: int, hi: int) -> int {
    if a <= lo * d {
        if lo >= hi {
            hi
        } else {
            lo
        }
    } else {
        trunc_at_most(a, d, hi)
    }
}

/// A quotient of a number below `hi * d` is below `hi`.
pub proof fn lemma_quotient_below(a: int, d: int, hi: int)
    requires
        d > 0,
        0 <= a < hi * d,
    ensures
        0 <= a / d < hi,
        trunc(a, d) == a / d,
{
    vstd::arithmetic::div_mod::lemma_fundamental_div_mod(a, d);
    vstd::arithmetic::div_mod::lemma_mod_bound(a, d);
    let q = a / d;
    assert(0 <= q < hi) by (nonlinear_arith)
        requires
            d > 0,
            0 <= a < hi * d,
            a == d * q + a % d,
            0 <= a % d < d,
    ;
}

/// A quotient of a number that is at most `hi * d` is at most `hi`.
pub proof fn lemma_quotient_at_most(a: int, d: int, hi: int)
    requires
        d > 0,
        0 <= a <= hi * d,
    ensures
        0 <= a / d <= hi,
        trunc(a, d) == a / d,
{
    assert(a < (hi + 1) * d) by (nonlinear_arith)
        requires
            d > 0,
            a <= hi * d,
    ;
    lemma_quotient_below(a, d, hi + 1);
}

/// A multiple of `d` divided by `d` gives the multiplier back, and multiples
/// of `d` compare as their multipliers do.
pub proof fn lemma_multiple(v: int, d: int, bound: int)
    requires
        d > 0,
    ensures
        (v * d) / d == v,
        v * d >= bound * d <==> v >= bound,
        v * d <= bound * d <==> v <= bound,
        v >= 0 ==> v * d >= 0,
        v >= 0 ==> trunc(v * d, d) == v,
{
    vstd::arithmetic::div_mod::lemma_div_multiples_vanish(v, d);
    assert(v * d == d * v) by (nonlinear_arith);
    assert((v * d >= bound * d <==> v >= bound) && (v * d <= bound * d <==> v <= bound) && (v
        >= 0 ==> v * d >= 0)) by (nonlinear_arith)
        requires
            d > 0,
    ;
}

/// The product of a whole number and a denominator, which always fits.
fn times(n: i32, d: u32) -> (p: i64)
    ensures
        p == n * d,
{
    assert(-0x8000_0000_0000_0000 <= n * d <= 0x7fff_ffff_ffff_ffff) by (nonlinear_arith)
        requires
            -0x8000_0000 <= n <= 0x7fff_ffff,
            0 <= d <= 0xffff_ffff,
    ;
    (n as i64) * (d as i64)
}

impl Ratio {
    #[verifier::type_invariant]
    spec fn positive_denominator(self) -> bool {
        self.den > 0
    }

    /// The numerator.
    pub closed spec fn numer(self) -> int {
        self.num as int
    }

    /// The denominator.
    pub closed spec fn denom(self) -> int {
        self.den as int
    }

    /// A fraction is well formed when its denominator is positive and both
    /// parts fit their machine types. Every value that executable code can
    /// hold is well formed.
    pub open spec fn wf(self) -> bool {
        &&& 0 < self.denom() <= u32::MAX
        &&& i32::MIN <= self.numer() <= i32::MAX
    }

    /// The whole number `n` as the fraction `n / 1`.
    pub closed spec fn whole(n: int) -> Ratio {
        Ratio { num: n as i32, den: 1 }
    }

    /// The fraction is below the whole number `n`.
    pub open spec fn below(self, n: int) -> bool {
        self.numer() < n * self.denom()
    }

    /// The fraction is above the whole number `n`.
    pub open spec fn above(self, n: int) -> bool {
        self.numer() > n * self.denom()
    }

    /// The fraction equals the whole number `n`.
    pub open spec fn equals(self, n: int) -> bool {
        self.numer() == n * self.denom()
    }

    /// The fraction raised to at least `lo` and then lowered to at most `hi`.
    /// A fraction already inside the interval is kept as it is, numerator and
    /// denominator alike.
    pub open spec fn clamped(self, lo: int, hi: int) -> Ratio {
        let raised = if self.below(lo) {
            Ratio::whole(lo)
        } else {
            self
        };
        if raised.above(hi) {
            Ratio::whole(hi)
        } else {
            raised
        }
    }

    /// The fraction rounded toward zero.
    pub open spec fn truncated(self) -> int {
        trunc(self.numer(), self.denom())
    }

    /// The parts of a whole number.
    pub proof fn lemma_whole(n: int)
        requires
            i32::MIN <= n <= i32::MAX,
        ensures
            Ratio::whole(n).numer() == n,
            Ratio::whole(n).denom() == 1,
            Ratio::whole(n).wf(),
    {
    }

    /// A clamped fraction is well formed and lies in the interval.
    pub proof fn lemma_clamped(self, lo: int, hi: int)
        requires
            self.wf(),
            i32::MIN <= lo <= hi <= i32::MAX,
        ensures
            self.clamped(lo, hi).wf(),
            !self.clamped(lo, hi).below(lo),
            !self.clamped(lo, hi).above(hi),
            !self.below(lo) && !self.above(hi) ==> self.clamped(lo, hi) == self,
    {
        Ratio::lemma_whole(lo);
        Ratio::lemma_whole(hi);
        assert(lo * 1 == lo && hi * 1 == hi);
    }

    /// Builds `num / den`, or nothing when `den` is zero.
    pub fn new(num: i32, den: u32) -> (r: Option<Ratio>)
        ensures
            den == 0 <==> r is None,
            r matches Some(q) ==> q.numer() == num && q.denom() == den && q.wf(),
    {
        if den == 0 {
            None
        } else {
            Some(Ratio { num, den })
        }
    }

    /// Builds the whole number `n`.
    pub fn from_integer(n: i32) -> (r: Ratio)
        ensures
            r == Ratio::whole(n as int),
            r.numer() == n,
            r.denom() == 1,
            r.wf(),
    {
        Ratio { num: n, den: 1 }
    }

    /// The numerator.
    pub fn numerator(&self) -> (n: i32)
        ensures
            n == self.numer(),
            self.wf(),
    {
        proof {
            use_type_invariant(self);
        }
        self.num
    }

    /// The denominator.
    pub fn denominator(&self) -> (d: u32)
        ensures
            d == self.denom(),
            d > 0,
            self.wf(),
    {
        proof {
            use_type_invariant(self);
        }
        self.den
    }

    /// Whether the fraction equals the whole number `n`.
    pub fn is_integer(&self, n: i32) -> (b: bool)
        ensures
            b == self.equals(n as int),
            self.wf(),
    {
        proof {
            use_type_invariant(self);
        }
        self.num as i64 == times(n, self.den)
    }

    /// Whether the fraction is greater than zero.
    pub fn is_positive(&self) -> (b: bool)
        ensures
            b == self.above(0),
            self.wf(),
    {
        proof {
            use_type_invariant(self);
        }
        self.num > 0
    }

    /// Rounds the fraction toward zero.
    pub fn truncate(&self) -> (q: i32)
        ensures
            q == self.truncated(),
    {
        proof {
            use_type_invariant(self);
        }
        let d = self.den as u64;
        if self.num >= 0 {
            let a = self.num as u64;
            proof {
                assert(a <= a * d) by (nonlinear_arith)
                    requires
                        a >= 0,
                        d >= 1,
                ;
                lemma_quotient_at_most(a as int, d as int, a as int);
            }
            (a / d) as i32
        } else {
            let a = (-(self.num as i64)) as u64;
            proof {
                assert(a <= a * d) by (nonlinear_arith)
                    requires
                        a >= 0,
                        d >= 1,
                ;
                lemma_quotient_at_most(a as int, d as int, a as int);
            }
            -((a / d) as i64) as i32
        }
    }

    /// Limits the fraction to the interval from `lo` to `hi`.
    pub fn clamp(self, lo: i32, hi: i32) -> (r: Ratio)
        ensures
            r == self.clamped(lo as int, hi as int),
            r.wf(),
            lo <= hi ==> !r.below(lo as int) && !r.above(hi as int),
    {
        proof {
            use_type_invariant(self);
            if lo <= hi {
                self.lemma_clamped(lo as int, hi as int);
            }
        }
        let raised = if (self.num as i64) < times(lo, self.den) {
            Ratio { num: lo, den: 1 }
        } else {
            self
        };
        if (raised.num as i64) > times(hi, raised.den) {
            Ratio { num: hi, den: 1 }
        } else {
            raised
        }
    }
}

} // verus!
