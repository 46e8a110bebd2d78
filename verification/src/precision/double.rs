//! Numbers in double precision: 53 binary digits and an exponent, and each
//! result is the nearest such number, of two equally near the even one.
use vstd::prelude::*;
#[allow(unused_imports)]
use vstd::string::*;

#[allow(unused_imports)]
use crate::precision::single::{
    Digits, below, fraction_at_least, fraction_at_most, lemma_fraction_doubled,
    lemma_nearest_at_most, lemma_small_powers, lemma_term_bound, lemma_two_to, nearest, nearest_to,
    power, tenths_of, two_to,
};

verus! {

/// The least digits of a number other than zero.
pub const LOW_DOUBLE: u64 = 4_503_599_627_370_496;

/// What the digits of a number stay below.
pub const HIGH_DOUBLE: u64 = 9_007_199_254_740_992;

/// The greatest denominator of a quotient.
pub const MAX_DENOMINATOR: u64 = 100_000;

/// The number nearest to a fraction of at least `LOW_DOUBLE`, times a power of
/// two.
pub open spec fn fitted_double(num: nat, den: nat, k: int) -> Digits
    decreases num - den,
{
    if 0 < den && num >= den * HIGH_DOUBLE {
        fitted_double(num, 2 * den, k + 1)
    } else {
        let m = nearest(num as int, den as int);
        if m >= HIGH_DOUBLE {
            (LOW_DOUBLE as nat, k + 1)
        } else {
            (m as nat, k)
        }
    }
}

/// The number nearest to a fraction, times a power of two.
pub open spec fn rounded_double(num: nat, den: nat, k: int) -> Digits
    decreases den * HIGH_DOUBLE - num,
{
    if num == 0 || den == 0 {
        (0, 0)
    } else if num < den * LOW_DOUBLE {
        rounded_double(2 * num, den, k - 1)
    } else {
        fitted_double(num, den, k)
    }
}

/// Zero, or a number with all its digits.
pub open spec fn proper_double(a: Digits) -> bool {
    if a.0 == 0 {
        a.1 == 0
    } else {
        LOW_DOUBLE <= a.0 < HIGH_DOUBLE
    }
}

/// The whole part of a number.
pub open spec fn whole_of(a: Digits) -> nat {
    if a.1 >= 0 {
        a.0 * two_to(a.1 as nat)
    } else {
        a.0 / two_to((-a.1) as nat)
    }
}

/// The whole number nearest to a number; of two the greater.
pub open spec fn nearest_whole_of(a: Digits) -> nat {
    if a.1 >= 0 {
        a.0 * two_to(a.1 as nat)
    } else {
        let unit = two_to((-a.1) as nat);
        (2 * a.0 + unit) / (2 * unit)
    }
}

/// A whole number, or the greatest that can be counted where it is beyond.
pub open spec fn capped(n: nat) -> nat {
    if n > u64::MAX {
        u64::MAX as nat
    } else {
        n
    }
}

/// A number in double precision.
#[derive(Debug, Clone, Copy, PartialEq, Eq, Structural)]
pub struct Double {
    pub digits: u64,
    pub exponent: i64,
}

impl View for Double {
    type V = Digits;

    open spec fn view(&self) -> Digits {
        (self.digits as nat, self.exponent as int)
    }
}

proof fn lemma_double_bounds(num: int, den: int)
    requires
        den > 0,
        den * LOW_DOUBLE <= num < den * HIGH_DOUBLE,
    ensures
        LOW_DOUBLE <= nearest(num, den) <= HIGH_DOUBLE,
{
    assert(LOW_DOUBLE <= num / den < HIGH_DOUBLE) by (nonlinear_arith)
        requires
            den > 0,
            den * LOW_DOUBLE <= num < den * HIGH_DOUBLE,
    ;
}

impl Double {
    /// All digits are there, and the exponent is that of some finite number.
    pub open spec fn wf(&self) -> bool {
        proper_double(self@) && -1_200 <= self.exponent <= 1_200
    }

    fn round(num: u128, den: u64, k: i64) -> (r: Double)
        requires
            num <= 0x1_0000_0000_0000_0000,
            0 < den <= MAX_DENOMINATOR,
            -3_000 <= k <= 3_000,
        ensures
            r@ == rounded_double(num as nat, den as nat, k as int),
            proper_double(r@),
            num > 0 ==> k - 100 <= r.exponent <= k + 100,
            0 < num < den * HIGH_DOUBLE ==> r.exponent <= k + 1,
    {
        if num == 0 {
            return Double { digits: 0, exponent: 0 };
        }
        let mut n: u128 = num;
        let mut d: u128 = den as u128;
        let mut e: i64 = k;
        let ghost mut j = 0nat;
        proof {
            lemma_small_powers();
        }
        while n < d * LOW_DOUBLE as u128
            invariant
                0 < n,
                n <= 0x1_0000_0000_0000_0000 || n < d * HIGH_DOUBLE,
                d == den,
                0 < den <= MAX_DENOMINATOR,
                e == k - j,
                -3_000 <= k <= 3_000,
                two_to(j) <= n,
                j <= 100,
                rounded_double(n as nat, d as nat, e as int) == rounded_double(
                    num as nat,
                    den as nat,
                    k as int,
                ),
                num < d * HIGH_DOUBLE ==> n < d * HIGH_DOUBLE,
            decreases d * HIGH_DOUBLE - n,
        {
            proof {
                lemma_small_powers();
                assert(n < 100_000 * LOW_DOUBLE);
                if j >= 70 {
                    lemma_two_to(64, 6);
                    lemma_two_to(70, j);
                    reveal_with_fuel(two_to, 7);
                }
                j = j + 1;
            }
            n = 2 * n;
            e -= 1;
        }
        let ghost start = e;
        let ghost mut i = 0nat;
        proof {
            lemma_small_powers();
            assert(start >= k - 90) by {
                if j > 90 {
                    lemma_two_to(64, 26);
                    lemma_two_to(90, j);
                    assert(two_to(26) == 67_108_864) by {
                        reveal_with_fuel(two_to, 27);
                    }
                    assert(100_000 * HIGH_DOUBLE < 0x1_0000_0000_0000_0000 * 67_108_864);
                }
            }
        }
        while n >= d * HIGH_DOUBLE as u128
            invariant
                0 < n,
                n <= 0x1_0000_0000_0000_0000 || n < den * HIGH_DOUBLE,
                den <= d,
                0 < den <= MAX_DENOMINATOR,
                d * LOW_DOUBLE <= n,
                e == start + i,
                two_to(i) <= d,
                k - 90 <= start <= k,
                -3_000 <= k <= 3_000,
                i > 0 ==> num >= den * HIGH_DOUBLE,
                n < den * HIGH_DOUBLE ==> i == 0,
                num < den * HIGH_DOUBLE ==> n < den * HIGH_DOUBLE,
                fitted_double(n as nat, d as nat, e as int) == rounded_double(
                    num as nat,
                    den as nat,
                    k as int,
                ),
            decreases n - d,
        {
            proof {
                lemma_small_powers();
                if i >= 64 {
                    lemma_two_to(64, i);
                }
                i = i + 1;
                assert((2 * d) * LOW_DOUBLE == d * HIGH_DOUBLE);
                assert(den * HIGH_DOUBLE <= d * HIGH_DOUBLE);
            }
            d = 2 * d;
            e += 1;
        }
        proof {
            lemma_small_powers();
            if i >= 64 {
                lemma_two_to(64, i);
            }
            lemma_double_bounds(n as int, d as int);
        }
        let m: u128 = nearest_to(n, d);
        if m >= HIGH_DOUBLE as u128 {
            Double { digits: LOW_DOUBLE, exponent: e + 1 }
        } else {
            Double { digits: m as u64, exponent: e }
        }
    }

    /// The number nearest to a count.
    pub fn of_count(n: u64) -> (r: Double)
        ensures
            r@ == rounded_double(n as nat, 1, 0),
            proper_double(r@),
            -100 <= r.exponent <= 100,
    {
        Double::round(n as u128, 1, 0)
    }

    /// The number nearest to a fraction.
    pub fn ratio(num: u64, den: u64) -> (r: Double)
        requires
            0 < den <= MAX_DENOMINATOR,
        ensures
            r@ == rounded_double(num as nat, den as nat, 0),
            proper_double(r@),
            -100 <= r.exponent <= 100,
            num < den * HIGH_DOUBLE ==> r.exponent <= 1,
    {
        Double::round(num as u128, den, 0)
    }

    /// The quotient by a whole number.
    pub fn over(&self, den: u64) -> (r: Double)
        requires
            self.wf(),
            0 < den <= MAX_DENOMINATOR,
        ensures
            r@ == rounded_double(self@.0, den as nat, self@.1),
            proper_double(r@),
            self.exponent - 100 <= r.exponent <= self.exponent + 100 || r@.0 == 0,
    {
        Double::round(self.digits as u128, den, self.exponent)
    }

    /// The product by a small number.
    pub fn times(&self, factor: u64) -> (r: Double)
        requires
            self.wf(),
            factor <= 100,
        ensures
            r@ == rounded_double(factor as nat * self@.0, 1, self@.1),
            proper_double(r@),
            self.exponent - 100 <= r.exponent <= self.exponent + 100 || r@.0 == 0,
    {
        proof {
            assert(factor * self.digits <= 100 * HIGH_DOUBLE) by (nonlinear_arith)
                requires
                    factor <= 100,
                    self.digits <= HIGH_DOUBLE,
            ;
        }
        Double::round(factor as u128 * self.digits as u128, 1, self.exponent)
    }

    /// Whether the number is less than another.
    pub fn is_below(&self, other: &Double) -> (r: bool)
        ensures
            r == below(self@, other@),
    {
        other.digits != 0 && (self.digits == 0 || self.exponent < other.exponent || (
        self.exponent == other.exponent && self.digits < other.digits))
    }

    /// The whole part of the number.
    pub fn whole(&self) -> (r: u64)
        requires
            proper_double(self@),
            -2_000 <= self.exponent <= 2_000,
        ensures
            r == capped(whole_of(self@)),
    {
        if self.exponent >= 0 {
            return self.scaled();
        }
        if self.exponent < -100 {
            proof {
                let t = two_to((-self.exponent) as nat);
                lemma_small_powers();
                lemma_two_to(64, (-self.exponent) as nat);
                assert(self.digits as nat / t == 0) by (nonlinear_arith)
                    requires
                        self.digits < t,
                ;
            }
            return 0;
        }
        let unit: u128 = power((-self.exponent) as u32);
        proof {
            assert(self.digits as int / unit as int <= self.digits) by (nonlinear_arith)
                requires
                    unit >= 1,
            ;
        }
        (self.digits as u128 / unit) as u64
    }

    /// The whole number nearest to the number; of two the greater.
    pub fn nearest_whole(&self) -> (r: u64)
        requires
            proper_double(self@),
            -2_000 <= self.exponent <= 2_000,
        ensures
            r == capped(nearest_whole_of(self@)),
    {
        if self.exponent >= 0 {
            return self.scaled();
        }
        let ghost t = two_to((-self.exponent) as nat);
        proof {
            lemma_small_powers();
            lemma_two_to((-self.exponent) as nat, 64);
            lemma_two_to(64, (-self.exponent) as nat);
        }
        if self.exponent < -100 {
            proof {
                assert((2 * self.digits as nat + t) / (2 * t) == 0) by (nonlinear_arith)
                    requires
                        2 * self.digits < t,
                ;
            }
            return 0;
        }
        let unit: u128 = power((-self.exponent) as u32);
        proof {
            lemma_term_bound();
            lemma_two_to((-self.exponent) as nat, 100);
            assert((2 * self.digits as int + unit) / (2 * unit as int) <= 2 * self.digits + 1)
                by (nonlinear_arith)
                requires
                    unit >= 1,
                    self.digits >= 0,
            ;
        }
        ((2 * self.digits as u128 + unit) / (2 * unit)) as u64
    }

    fn scaled(&self) -> (r: u64)
        requires
            proper_double(self@),
            0 <= self.exponent <= 2_000,
        ensures
            r == capped(self@.0 * two_to(self.exponent as nat)),
    {
        proof {
            assert(two_to(11) == 2_048 && two_to(12) == 4_096) by {
                reveal_with_fuel(two_to, 13);
            }
        }
        if self.digits == 0 {
            proof {
                let t = two_to(self.exponent as nat);
                assert(0 * t == 0);
            }
            return 0;
        }
        if self.exponent > 11 {
            proof {
                let t = two_to(self.exponent as nat);
                lemma_two_to(12, self.exponent as nat);
                assert(self.digits * t > u64::MAX) by (nonlinear_arith)
                    requires
                        self.digits >= LOW_DOUBLE,
                        t >= 4_096,
                ;
            }
            return u64::MAX;
        }
        let unit: u128 = power(self.exponent as u32);
        proof {
            lemma_two_to(self.exponent as nat, 11);
            assert(self.digits * unit <= (HIGH_DOUBLE - 1) * 2_048) by (nonlinear_arith)
                requires
                    self.digits <= HIGH_DOUBLE - 1,
                    unit <= 2_048,
            ;
        }
        (self.digits as u128 * unit) as u64
    }

    /// How many tenths the number has, to the nearest.
    pub fn tenths(&self) -> (r: u64)
        requires
            proper_double(self@),
            -100 <= self.exponent <= 1,
        ensures
            r == tenths_of(self@),
    {
        proof {
            lemma_small_powers();
        }
        if self.exponent >= 0 {
            let unit: u64 = if self.exponent == 0 {
                1
            } else {
                2
            };
            10 * self.digits * unit
        } else {
            let unit: u128 = power((-self.exponent) as u32);
            proof {
                lemma_term_bound();
                lemma_two_to((-self.exponent) as nat, 100);
                lemma_nearest_at_most(10 * self.digits as int, unit as int);
            }
            nearest_to(10 * self.digits as u128, unit) as u64
        }
    }
}

// ---- rounding ----

/// The number nearest to a fraction is one with all its digits, or zero for
/// nothing.
pub proof fn lemma_rounded_double_is_proper(num: nat, den: nat, k: int)
    requires
        den > 0,
    ensures
        proper_double(rounded_double(num, den, k)),
        (rounded_double(num, den, k).0 == 0) == (num == 0),
    decreases den * HIGH_DOUBLE - num,
{
    if num > 0 {
        if num < den * LOW_DOUBLE {
            lemma_rounded_double_is_proper(2 * num, den, k - 1);
        } else {
            lemma_fitted_double_is_proper(num, den, k);
        }
    }
}

proof fn lemma_fitted_double_is_proper(num: nat, den: nat, k: int)
    requires
        den > 0,
        num >= den * LOW_DOUBLE,
    ensures
        LOW_DOUBLE <= fitted_double(num, den, k).0 < HIGH_DOUBLE,
        fitted_double(num, den, k).1 >= k,
    decreases num - den,
{
    if num >= den * HIGH_DOUBLE {
        lemma_fitted_double_is_proper(num, 2 * den, k + 1);
    } else {
        lemma_double_bounds(num as int, den as int);
    }
}

/// Rounding keeps the order: what is at most a number is rounded to at most
/// that number, and what is at least a number to at least that number.
pub proof fn law_double_rounding_keeps_order(num: nat, den: nat, k: int, b: Digits)
    requires
        den > 0,
        num > 0,
        proper_double(b),
        b.0 > 0,
    ensures
        fraction_at_most(num, den, k, b) ==> !below(b, rounded_double(num, den, k)),
        fraction_at_least(num, den, k, b) ==> !below(rounded_double(num, den, k), b),
    decreases den * HIGH_DOUBLE - num,
{
    if num < den * LOW_DOUBLE {
        lemma_fraction_doubled(num, den, k, b);
        law_double_rounding_keeps_order(2 * num, den, k - 1, b);
    } else {
        lemma_double_fitting_keeps_order(num, den, k, b);
    }
}

proof fn lemma_double_fitting_keeps_order(num: nat, den: nat, k: int, b: Digits)
    requires
        den > 0,
        num >= den * LOW_DOUBLE,
        proper_double(b),
        b.0 > 0,
    ensures
        fraction_at_most(num, den, k, b) ==> !below(b, fitted_double(num, den, k)),
        fraction_at_least(num, den, k, b) ==> !below(fitted_double(num, den, k), b),
    decreases num - den,
{
    if num >= den * HIGH_DOUBLE {
        lemma_fraction_doubled(num, den, k, b);
        lemma_double_fitting_keeps_order(num, 2 * den, k + 1, b);
    } else {
        let (n, d, c) = (num as int, den as int, b.0 as int);
        assert(two_to(0) == 1);
        lemma_double_bounds(n, d);
        let m = nearest(n, d);
        assert(n == d * (n / d) + n % d && 0 <= n % d < d) by (nonlinear_arith)
            requires
                d > 0,
        ;
        if b.1 == k {
            assert(b.0 * two_to(0) == b.0) by (nonlinear_arith)
                requires
                    two_to(0) == 1,
            ;
            if n <= d * c {
                assert(n / d < c || (n / d == c && n % d == 0)) by (nonlinear_arith)
                    requires
                        n <= d * c,
                        n == d * (n / d) + n % d,
                        0 <= n % d,
                        d > 0,
                ;
                assert(m <= c);
            }
            if n >= d * c {
                assert(n / d >= c) by (nonlinear_arith)
                    requires
                        n >= d * c,
                        d > 0,
                ;
                assert(m >= c);
            }
        } else if b.1 < k {
            let t = two_to((k - b.1) as nat);
            lemma_two_to(0, (k - b.1) as nat);
            assert(num * t > den * b.0) by (nonlinear_arith)
                requires
                    t >= 2,
                    num >= den * LOW_DOUBLE,
                    b.0 < 2 * LOW_DOUBLE,
                    den > 0,
            ;
        } else {
            let t = two_to((b.1 - k) as nat);
            lemma_two_to(0, (b.1 - k) as nat);
            assert(b.0 * t >= HIGH_DOUBLE) by (nonlinear_arith)
                requires
                    t >= 2,
                    b.0 >= LOW_DOUBLE,
            ;
            assert(den * (b.0 * t) >= den * HIGH_DOUBLE) by (nonlinear_arith)
                requires
                    b.0 * t >= HIGH_DOUBLE,
                    den > 0,
            ;
        }
    }
}

/// A count below two to the fifty-two is a number as it is; a greater one has
/// an exponent of at least zero.
pub proof fn lemma_double_count(n: nat)
    requires
        n > 0,
    ensures
        ({
            let a = rounded_double(n, 1, 0);
            &&& LOW_DOUBLE <= a.0 < HIGH_DOUBLE
            &&& if n < LOW_DOUBLE {
                a.1 <= 0 && a.0 == n * two_to((-a.1) as nat)
            } else {
                a.1 >= 0
            }
        }),
{
    lemma_rounded_double_is_proper(n, 1, 0);
    if n < LOW_DOUBLE {
        assert(n * two_to(0) == n) by (nonlinear_arith)
            requires
                two_to(0) == 1,
        ;
        lemma_small_double_count(n, n, 0);
    } else {
        lemma_fitted_double_is_proper(n, 1, 0);
    }
}

proof fn lemma_small_double_count(n: nat, num: nat, k: int)
    requires
        0 < num < HIGH_DOUBLE,
        k <= 0,
        num == n * two_to((-k) as nat),
    ensures
        rounded_double(num, 1, k).1 <= 0,
        rounded_double(num, 1, k).0 == n * two_to((-rounded_double(num, 1, k).1) as nat),
    decreases HIGH_DOUBLE - num,
{
    if num < LOW_DOUBLE {
        let t = two_to((-k) as nat);
        assert(two_to((-(k - 1)) as nat) == 2 * t);
        assert(2 * num == n * (2 * t)) by (nonlinear_arith)
            requires
                num == n * t,
        ;
        lemma_small_double_count(n, 2 * num, k - 1);
    } else {
        assert(num as int / 1 == num && num as int % 1 == 0);
        assert(nearest(num as int, 1) == num);
    }
}

} // verus!
