//! Numbers in single precision: 24 binary digits and an exponent, and each
//! result is the nearest such number, of two equally near the even one.
use vstd::prelude::*;
#[allow(unused_imports)]
use vstd::string::*;

#[allow(unused_imports)]
use crate::text::{cat3, decimal, decimal_text};

verus! {

/// The least digits of a number other than zero.
pub const LOW: u32 = 8_388_608;

/// What the digits of a number stay below.
pub const HIGH: u32 = 16_777_216;

/// The greatest numerator that is rounded.
pub const MAX_TERM: u128 = 0x10_0000_0000_0000_0000_0000_0000;

/// A number: its digits and its exponent to the base two.
pub type Digits = (nat, int);

/// A power of two.
pub open spec fn two_to(n: nat) -> nat
    decreases n,
{
    if n == 0 {
        1
    } else {
        2 * two_to((n - 1) as nat)
    }
}

/// `x / y` rounded to the nearest number, halves to the even one.
pub open spec fn nearest(x: int, y: int) -> int {
    let q = x / y;
    let twice = 2 * (x % y);
    if twice > y || (twice == y && q % 2 != 0) {
        q + 1
    } else {
        q
    }
}

/// The number nearest to a fraction of at least `LOW`, times a power of two.
pub open spec fn fitted(num: nat, den: nat, k: int) -> Digits
    decreases num - den,
{
    if 0 < den && num >= den * HIGH {
        fitted(num, 2 * den, k + 1)
    } else {
        let m = nearest(num as int, den as int);
        if m >= HIGH {
            (LOW as nat, k + 1)
        } else {
            (m as nat, k)
        }
    }
}

/// The number nearest to a fraction, times a power of two.
pub open spec fn rounded(num: nat, den: nat, k: int) -> Digits
    decreases den * HIGH - num,
{
    if num == 0 || den == 0 {
        (0, 0)
    } else if num < den * LOW {
        rounded(2 * num, den, k - 1)
    } else {
        fitted(num, den, k)
    }
}

/// The lesser of two exponents.
pub open spec fn lesser(a: int, b: int) -> int {
    if a < b {
        a
    } else {
        b
    }
}

/// The sum of two numbers.
pub open spec fn sum(a: Digits, b: Digits) -> Digits {
    if a.0 == 0 {
        b
    } else if b.0 == 0 {
        a
    } else {
        let k = lesser(a.1, b.1);
        rounded(a.0 * two_to((a.1 - k) as nat) + b.0 * two_to((b.1 - k) as nat), 1, k)
    }
}

/// What is left of one without a number that is not greater.
pub open spec fn rest_of_one(a: Digits) -> Digits {
    if a.0 == 0 {
        (LOW as nat, -23)
    } else {
        rounded((two_to((-a.1) as nat) - a.0) as nat, 1, a.1)
    }
}

/// The quotient of two numbers.
pub open spec fn quotient(a: Digits, b: Digits) -> Digits {
    rounded(a.0, b.0, a.1 - b.1)
}

/// A hundred times a number.
pub open spec fn hundredfold(a: Digits) -> Digits {
    rounded(100 * a.0, 1, a.1)
}

/// One number is less than another.
pub open spec fn below(a: Digits, b: Digits) -> bool {
    b.0 != 0 && (a.0 == 0 || a.1 < b.1 || (a.1 == b.1 && a.0 < b.0))
}

/// How many tenths a number has, to the nearest.
pub open spec fn tenths_of(a: Digits) -> int {
    if a.1 >= 0 {
        (10 * a.0 * two_to(a.1 as nat)) as int
    } else {
        nearest(10 * a.0 as int, two_to((-a.1) as nat) as int)
    }
}

/// Zero, or a number with all its digits.
pub open spec fn proper(a: Digits) -> bool {
    if a.0 == 0 {
        a.1 == 0
    } else {
        LOW <= a.0 < HIGH
    }
}

/// The exponent of a number other than zero lies between two bounds.
pub open spec fn within(a: Digits, lo: int, hi: int) -> bool {
    a.0 != 0 ==> lo <= a.1 <= hi
}

/// A number is at most a power of two.
pub open spec fn at_most_two_to(a: Digits, p: int) -> bool {
    a.0 != 0 ==> a.1 <= p - 23 && (a.1 == p - 23 ==> a.0 == LOW)
}

// ---- powers of two ----

pub proof fn lemma_two_to(a: nat, b: nat)
    ensures
        two_to(a) >= 1,
        two_to(a + b) == two_to(a) * two_to(b),
        a <= b ==> two_to(a) <= two_to(b),
        a < b ==> 2 * two_to(a) <= two_to(b),
    decreases a, b,
{
    if a > 0 {
        lemma_two_to((a - 1) as nat, b);
        assert(two_to(a + b) == 2 * two_to(((a - 1) + b) as nat));
        assert(two_to(a) * two_to(b) == 2 * (two_to((a - 1) as nat) * two_to(b)))
            by (nonlinear_arith)
            requires
                two_to(a) == 2 * two_to((a - 1) as nat),
        ;
        if a <= b {
            lemma_two_to((a - 1) as nat, (b - 1) as nat);
        }
    } else if b > 0 {
        lemma_two_to(0, (b - 1) as nat);
    }
}

pub proof fn lemma_small_powers()
    ensures
        two_to(0) == 1,
        two_to(1) == 2,
        two_to(7) == 128,
        two_to(23) == LOW,
        two_to(24) == HIGH,
        two_to(30) == 1_073_741_824,
        two_to(31) == 2_147_483_648,
        two_to(32) == 4_294_967_296,
        two_to(64) == 0x1_0000_0000_0000_0000,
{
    reveal_with_fuel(two_to, 40);
    lemma_two_to(32, 32);
    assert(two_to(32) == 0x1_0000_0000);
}

pub proof fn lemma_term_bound()
    ensures
        two_to(100) == MAX_TERM,
{
    lemma_small_powers();
    lemma_two_to(64, 36);
    assert(two_to(36) == 0x10_0000_0000) by {
        reveal_with_fuel(two_to, 40);
    }
}

/// A small power of two.
pub fn power(n: u32) -> (r: u128)
    requires
        n <= 100,
    ensures
        r == two_to(n as nat),
        r >= 1,
{
    let mut r: u128 = 1;
    let mut i: u32 = 0;
    proof {
        lemma_small_powers();
    }
    while i < n
        invariant
            i <= n <= 100,
            r == two_to(i as nat),
            1 <= r,
        decreases n - i,
    {
        proof {
            lemma_two_to(i as nat, 100);
            lemma_term_bound();
        }
        r = 2 * r;
        i += 1;
    }
    r
}

// ---- rounding ----

/// The number nearest to a fraction is one with all its digits, or zero for
/// nothing.
pub proof fn lemma_rounded_is_proper(num: nat, den: nat, k: int)
    requires
        den > 0,
    ensures
        proper(rounded(num, den, k)),
        (rounded(num, den, k).0 == 0) == (num == 0),
    decreases den * HIGH - num,
{
    if num > 0 {
        if num < den * LOW {
            lemma_rounded_is_proper(2 * num, den, k - 1);
        } else {
            lemma_fitted_is_proper(num, den, k);
        }
    }
}

proof fn lemma_fitted_is_proper(num: nat, den: nat, k: int)
    requires
        den > 0,
        num >= den * LOW,
    ensures
        LOW <= fitted(num, den, k).0 < HIGH,
    decreases num - den,
{
    if num >= den * HIGH {
        lemma_fitted_is_proper(num, 2 * den, k + 1);
    } else {
        lemma_quotient_bounds(num as int, den as int);
    }
}

proof fn lemma_quotient_bounds(num: int, den: int)
    requires
        den > 0,
        den * LOW <= num < den * HIGH,
    ensures
        LOW <= num / den < HIGH,
        LOW <= nearest(num, den) <= HIGH,
        num == den * LOW ==> nearest(num, den) == LOW,
{
    assert(LOW <= num / den < HIGH) by (nonlinear_arith)
        requires
            den > 0,
            den * LOW <= num < den * HIGH,
    ;
    if num == den * LOW {
        assert(num / den == LOW && num % den == 0) by (nonlinear_arith)
            requires
                den > 0,
                num == den * LOW,
        ;
    }
}

/// A fraction of at most a power of two is rounded to at most that power.
proof fn lemma_rounded_at_most(num: nat, den: nat, k: int, p: int)
    requires
        den > 0,
        p >= k,
        num <= den * two_to((p - k) as nat),
    ensures
        at_most_two_to(rounded(num, den, k), p),
    decreases den * HIGH - num,
{
    if num > 0 {
        if num < den * LOW {
            let t = two_to((p - k) as nat);
            assert(two_to((p - (k - 1)) as nat) == 2 * t);
            assert(2 * num <= den * (2 * t)) by (nonlinear_arith)
                requires
                    num <= den * t,
            ;
            lemma_rounded_at_most(2 * num, den, k - 1, p);
        } else {
            lemma_fitted_at_most(num, den, k, p);
        }
    }
}

proof fn lemma_fitted_at_most(num: nat, den: nat, k: int, p: int)
    requires
        den > 0,
        num >= den * LOW,
        p >= k,
        num <= den * two_to((p - k) as nat),
    ensures
        at_most_two_to(fitted(num, den, k), p),
    decreases num - den,
{
    lemma_small_powers();
    let t = two_to((p - k) as nat);
    assert(t >= LOW) by (nonlinear_arith)
        requires
            den > 0,
            den * LOW <= den * t,
    ;
    if p - k < 23 {
        lemma_two_to((p - k) as nat, 23);
    }
    assert(p - k >= 23);
    if num >= den * HIGH {
        assert(t == 2 * two_to((p - (k + 1)) as nat));
        let u = two_to((p - (k + 1)) as nat);
        assert(num <= (2 * den) * u) by (nonlinear_arith)
            requires
                num <= den * t,
                t == 2 * u,
        ;
        assert(num >= (2 * den) * LOW);
        lemma_fitted_at_most(num, 2 * den, k + 1, p);
    } else {
        lemma_quotient_bounds(num as int, den as int);
        if p - k == 23 {
            assert(num == den * LOW);
        }
    }
}

/// A fraction that has its digits after `j` doublings is rounded to a number
/// with an exponent not below `k - j`.
proof fn lemma_rounded_at_least(num: nat, den: nat, k: int, j: nat)
    requires
        den > 0,
        num > 0,
        num * two_to(j) >= den * LOW,
    ensures
        rounded(num, den, k).1 >= k - j,
    decreases den * HIGH - num,
{
    if num < den * LOW {
        assert(j > 0) by {
            assert(two_to(0) == 1);
            assert(num * 1 == num);
        }
        let t = two_to((j - 1) as nat);
        assert((2 * num) * t == num * two_to(j)) by (nonlinear_arith)
            requires
                two_to(j) == 2 * t,
        ;
        lemma_rounded_at_least(2 * num, den, k - 1, (j - 1) as nat);
    } else {
        lemma_fitted_at_least(num, den, k);
    }
}

proof fn lemma_fitted_at_least(num: nat, den: nat, k: int)
    ensures
        fitted(num, den, k).1 >= k,
    decreases num - den,
{
    if 0 < den && num >= den * HIGH {
        lemma_fitted_at_least(num, 2 * den, k + 1);
    }
}

/// A number in single precision.
#[derive(Debug, Clone, Copy, PartialEq, Eq, Structural)]
pub struct Single {
    pub digits: u32,
    pub exponent: i64,
}

impl View for Single {
    type V = Digits;

    open spec fn view(&self) -> Digits {
        (self.digits as nat, self.exponent as int)
    }
}

/// A quotient rounded to the nearest number.
pub fn nearest_to(num: u128, den: u128) -> (r: u128)
    requires
        den > 0,
        den * 2 <= u128::MAX,
        num < u128::MAX,
    ensures
        r == nearest(num as int, den as int),
{
    let q: u128 = num / den;
    let twice: u128 = 2 * (num % den);
    proof {
        assert(q <= num) by (nonlinear_arith)
            requires
                q == num / den,
                den >= 1,
        ;
    }
    if twice > den || (twice == den && q % 2 != 0) {
        q + 1
    } else {
        q
    }
}

impl Single {
    /// The number nearest to a fraction, times a power of two.
    pub fn round(num: u128, den: u128, k: i64) -> (r: Single)
        requires
            num <= MAX_TERM,
            0 < den <= 0x1_0000_0000_0000_0000,
            -1000 <= k <= 1000,
        ensures
            r@ == rounded(num as nat, den as nat, k as int),
            proper(r@),
            (r.digits == 0) == (num == 0),
    {
        proof {
            lemma_rounded_is_proper(num as nat, den as nat, k as int);
        }
        if num == 0 {
            return Single { digits: 0, exponent: 0 };
        }
        let mut n: u128 = num;
        let mut d: u128 = den;
        let mut e: i64 = k;
        let ghost mut j = 0nat;
        while n < d * LOW as u128
            invariant
                0 < n <= MAX_TERM,
                0 < d <= 0x1_0000_0000_0000_0000,
                e == k - j,
                -1000 <= k <= 1000,
                two_to(j) <= n,
                j <= 200,
                rounded(n as nat, d as nat, e as int) == rounded(num as nat, den as nat, k as int),
            decreases d * HIGH - n,
        {
            proof {
                lemma_term_bound();
                if j >= 100 {
                    lemma_two_to(100, j);
                }
                j = j + 1;
                assert(d * LOW <= 0x1_0000_0000_0000_0000 * LOW);
                assert(2 * n < 0x1_0000_0000_0000_0000 * HIGH);
                assert(0x1_0000_0000_0000_0000 * HIGH <= MAX_TERM);
            }
            n = 2 * n;
            e -= 1;
        }
        let ghost start = e;
        let ghost mut i = 0nat;
        proof {
            lemma_small_powers();
        }
        while n >= d * HIGH as u128
            invariant
                0 < n <= MAX_TERM,
                0 < d,
                d * LOW <= n,
                e == start + i,
                two_to(i) <= d,
                -2000 <= start <= 1000,
                fitted(n as nat, d as nat, e as int) == rounded(num as nat, den as nat, k as int),
            decreases n - d,
        {
            proof {
                lemma_term_bound();
                if i >= 100 {
                    lemma_two_to(100, i);
                }
                i = i + 1;
                assert((2 * d) * LOW == d * HIGH);
            }
            d = 2 * d;
            e += 1;
        }
        proof {
            lemma_term_bound();
            if i >= 100 {
                lemma_two_to(100, i);
            }
        }
        let m: u128 = nearest_to(n, d);
        proof {
            lemma_quotient_bounds(n as int, d as int);
        }
        if m >= HIGH as u128 {
            Single { digits: LOW, exponent: e + 1 }
        } else {
            Single { digits: m as u32, exponent: e }
        }
    }
}

impl Single {
    /// Nothing.
    pub fn zero() -> (r: Single)
        ensures
            r@ == (0nat, 0int),
    {
        Single { digits: 0, exponent: 0 }
    }

    /// One.
    pub fn one() -> (r: Single)
        ensures
            r@ == (LOW as nat, -23int),
    {
        Single { digits: LOW, exponent: -23 }
    }

    /// The number nearest to a fraction of small numbers.
    pub fn ratio(num: u32, den: u32) -> (r: Single)
        requires
            den > 0,
        ensures
            r@ == rounded(num as nat, den as nat, 0),
            proper(r@),
            num <= den ==> at_most_two_to(r@, 0),
            num <= den <= 128 ==> within(r@, -30, -23),
    {
        proof {
            if num <= den {
                lemma_share_bounds(num as nat, den as nat);
            }
        }
        Single::round(num as u128, den as u128, 0)
    }

    /// The number nearest to a count.
    pub fn of_count(n: usize) -> (r: Single)
        ensures
            r@ == rounded(n as nat, 1, 0),
            proper(r@),
            (r.digits == 0) == (n == 0),
            within(r@, -23, 41),
    {
        proof {
            lemma_small_powers();
            lemma_rounded_at_most(n as nat, 1, 0, 64);
            if n > 0 {
                assert(n * two_to(23) >= 1 * LOW) by (nonlinear_arith)
                    requires
                        n >= 1,
                        two_to(23) == LOW,
                ;
                lemma_rounded_at_least(n as nat, 1, 0, 23);
            }
        }
        Single::round(n as u128, 1, 0)
    }

    /// Whether the number is zero.
    pub fn is_zero(&self) -> (r: bool)
        ensures
            r == (self@.0 == 0),
    {
        self.digits == 0
    }

    /// Whether the number is less than another.
    pub fn is_below(&self, other: &Single) -> (r: bool)
        ensures
            r == below(self@, other@),
    {
        other.digits != 0 && (self.digits == 0 || self.exponent < other.exponent || (
        self.exponent == other.exponent && self.digits < other.digits))
    }

    /// What is left of one.
    pub fn rest_of_one(&self) -> (r: Single)
        requires
            proper(self@),
            at_most_two_to(self@, 0),
            within(self@, -30, -23),
        ensures
            r@ == rest_of_one(self@),
            proper(r@),
            at_most_two_to(r@, 0),
            within(r@, -53, -23),
    {
        if self.digits == 0 {
            return Single::one();
        }
        let k: i64 = self.exponent;
        let all: u128 = power((-k) as u32);
        proof {
            lemma_rest_bounds(self@);
        }
        Single::round(all - self.digits as u128, 1, k)
    }

    /// The sum with a number of at most one, which does not go beyond the count
    /// that single precision can hold.
    pub fn plus(&self, other: &Single) -> (r: Single)
        requires
            proper(self@),
            proper(other@),
            at_most_two_to(self@, 24),
            within(self@, -53, 1),
            at_most_two_to(other@, 0),
            within(other@, -53, -23),
        ensures
            r@ == sum(self@, other@),
            proper(r@),
            at_most_two_to(r@, 24),
            within(r@, -53, 1),
    {
        if self.digits == 0 {
            return *other;
        }
        if other.digits == 0 {
            return *self;
        }
        let k: i64 = if self.exponent < other.exponent {
            self.exponent
        } else {
            other.exponent
        };
        let up: u128 = power((self.exponent - k) as u32);
        let small_up: u128 = power((other.exponent - k) as u32);
        proof {
            lemma_sum_bounds(self@, other@);
        }
        let num: u128 = self.digits as u128 * up + other.digits as u128 * small_up;
        Single::round(num, 1, k)
    }

    /// The quotient by a count.
    pub fn over(&self, other: &Single) -> (r: Single)
        requires
            proper(self@),
            proper(other@),
            other.digits != 0,
            within(self@, -53, 1),
            within(other@, -23, 41),
        ensures
            r@ == quotient(self@, other@),
            proper(r@),
            within(r@, -118, 2),
    {
        if self.digits == 0 {
            return Single::zero();
        }
        let k: i64 = self.exponent - other.exponent;
        proof {
            lemma_small_powers();
            assert(self.digits * two_to(24) >= other.digits * LOW) by (nonlinear_arith)
                requires
                    self.digits >= LOW,
                    other.digits < HIGH,
                    two_to(24) == HIGH,
            ;
            lemma_rounded_at_least(self.digits as nat, other.digits as nat, k as int, 24);
            assert(self.digits <= other.digits * two_to(1));
            lemma_rounded_at_most(
                self.digits as nat,
                other.digits as nat,
                k as int,
                k as int + 1,
            );
        }
        Single::round(self.digits as u128, other.digits as u128, k)
    }

    /// A hundred times the number.
    pub fn hundredfold(&self) -> (r: Single)
        requires
            proper(self@),
            within(self@, -118, 2),
        ensures
            r@ == hundredfold(self@),
            proper(r@),
            within(r@, self@.1, 10),
    {
        if self.digits == 0 {
            return Single::zero();
        }
        proof {
            lemma_small_powers();
            let num = (100 * self.digits) as nat;
            assert(num * two_to(0) >= 1 * LOW);
            lemma_rounded_at_least(num, 1, self.exponent as int, 0);
            lemma_rounded_at_most(num, 1, self.exponent as int, self.exponent as int + 31);
        }
        Single::round(100 * self.digits as u128, 1, self.exponent)
    }

    /// How many tenths the number has, to the nearest.
    pub fn tenths(&self) -> (r: u64)
        requires
            proper(self@),
            within(self@, -118, 10),
        ensures
            r == tenths_of(self@),
    {
        proof {
            lemma_small_powers();
        }
        if self.exponent < -64 {
            proof {
                let num = (10 * self.digits) as int;
                let den = two_to((-self.exponent) as nat) as int;
                lemma_two_to(64, (-self.exponent) as nat);
                assert(num / den == 0 && num % den == num) by (nonlinear_arith)
                    requires
                        0 <= num < den,
                ;
            }
            return 0;
        }
        if self.exponent >= 0 {
            let up: u128 = power(self.exponent as u32);
            proof {
                lemma_two_to(self.exponent as nat, 10);
                assert(two_to(10) == 1024) by {
                    reveal_with_fuel(two_to, 20);
                }
                assert(10 * self.digits * up <= 10 * HIGH * 1024) by (nonlinear_arith)
                    requires
                        self.digits < HIGH,
                        up <= 1024,
                ;
            }
            (10 * self.digits as u128 * up) as u64
        } else {
            let den: u128 = power((-self.exponent) as u32);
            proof {
                lemma_two_to((-self.exponent) as nat, 64);
                lemma_nearest_at_most((10 * self.digits) as int, den as int);
            }
            nearest_to(10 * self.digits as u128, den) as u64
        }
    }
}

proof fn lemma_rest_bounds(a: Digits)
    requires
        proper(a),
        at_most_two_to(a, 0),
        within(a, -30, -23),
    ensures
        a.0 != 0 ==> a.0 <= two_to((-a.1) as nat) <= 1_073_741_824,
        proper(rest_of_one(a)),
        at_most_two_to(rest_of_one(a), 0),
        within(rest_of_one(a), -53, -23),
{
    lemma_small_powers();
    if a.0 != 0 {
        let k = a.1;
        lemma_two_to(23, (-k) as nat);
        lemma_two_to((-k) as nat, 30);
        if k > -24 {
            assert(a.0 == LOW);
        } else {
            lemma_two_to(24, (-k) as nat);
        }
        let left = (two_to((-k) as nat) - a.0) as nat;
        lemma_rounded_is_proper(left, 1, k);
        lemma_rounded_at_most(left, 1, k, 0);
        if left > 0 {
            assert(left * two_to(23) >= 1 * LOW) by (nonlinear_arith)
                requires
                    left >= 1,
                    two_to(23) == LOW,
            ;
            lemma_rounded_at_least(left, 1, k, 23);
        }
    }
}

/// What a small share leaves of one is a number between zero and one.
pub proof fn lemma_rest_of_share(num: nat, den: nat)
    requires
        num <= den,
        0 < den <= 128,
    ensures
        proper(rest_of_one(rounded(num, den, 0))),
        at_most_two_to(rest_of_one(rounded(num, den, 0)), 0),
        within(rest_of_one(rounded(num, den, 0)), -53, -23),
{
    lemma_share_bounds(num, den);
    lemma_rest_bounds(rounded(num, den, 0));
}

proof fn lemma_share_bounds(num: nat, den: nat)
    requires
        num <= den,
        0 < den,
    ensures
        proper(rounded(num, den, 0)),
        at_most_two_to(rounded(num, den, 0), 0),
        den <= 128 ==> within(rounded(num, den, 0), -30, -23),
{
    lemma_small_powers();
    lemma_rounded_is_proper(num, den, 0);
    assert(den * two_to(0) == den) by (nonlinear_arith)
        requires
            two_to(0) == 1,
    ;
    lemma_rounded_at_most(num, den, 0, 0);
    if 0 < num && den <= 128 {
        assert(num * two_to(30) >= den * LOW) by (nonlinear_arith)
            requires
                num >= 1,
                den <= 128,
                two_to(30) == 128 * LOW,
        ;
        lemma_rounded_at_least(num, den, 0, 30);
    }
}

/// A sum with a number of at most one does not go beyond two to the
/// twenty-four.
pub proof fn lemma_sum_is_held(a: Digits, b: Digits)
    requires
        proper(a),
        proper(b),
        at_most_two_to(a, 24),
        within(a, -53, 1),
        at_most_two_to(b, 0),
        within(b, -53, -23),
    ensures
        proper(sum(a, b)),
        at_most_two_to(sum(a, b), 24),
        within(sum(a, b), -53, 1),
{
    if a.0 != 0 && b.0 != 0 {
        lemma_sum_bounds(a, b);
        let k = lesser(a.1, b.1);
        lemma_rounded_is_proper(
            a.0 * two_to((a.1 - k) as nat) + b.0 * two_to((b.1 - k) as nat),
            1,
            k,
        );
    }
}

pub proof fn lemma_nearest_at_most(num: int, den: int)
    requires
        num >= 0,
        den > 0,
    ensures
        0 <= nearest(num, den) <= num + 1,
{
    assert(0 <= num / den <= num) by (nonlinear_arith)
        requires
            num >= 0,
            den >= 1,
    ;
}

proof fn lemma_sum_bounds(a: Digits, b: Digits)
    requires
        proper(a),
        proper(b),
        a.0 != 0,
        b.0 != 0,
        at_most_two_to(a, 24),
        within(a, -53, 1),
        at_most_two_to(b, 0),
        within(b, -53, -23),
    ensures
        ({
            let k = lesser(a.1, b.1);
            let up = two_to((a.1 - k) as nat);
            let small_up = two_to((b.1 - k) as nat);
            &&& 0 <= a.1 - k <= 54
            &&& 0 <= b.1 - k <= 54
            &&& a.0 * up <= 0x1_0000_0000_0000_0000 * HIGH
            &&& b.0 * small_up <= 0x1_0000_0000_0000_0000 * HIGH
            &&& a.0 * up + b.0 * small_up > 0
            &&& at_most_two_to(sum(a, b), 24)
            &&& within(sum(a, b), -53, 1)
        }),
{
    lemma_small_powers();
    let k = lesser(a.1, b.1);
    let x = (a.1 - k) as nat;
    let y = (b.1 - k) as nat;
    let up = two_to(x);
    let small_up = two_to(y);
    lemma_two_to(x, 64);
    lemma_two_to(y, 64);
    let num = a.0 * up + b.0 * small_up;
    assert(a.0 * up <= 0x1_0000_0000_0000_0000 * HIGH && a.0 * up >= LOW) by (nonlinear_arith)
        requires
            LOW <= a.0 < HIGH,
            1 <= up <= 0x1_0000_0000_0000_0000,
    ;
    assert(b.0 * small_up <= 0x1_0000_0000_0000_0000 * HIGH && b.0 * small_up >= LOW)
        by (nonlinear_arith)
        requires
            LOW <= b.0 < HIGH,
            1 <= small_up <= 0x1_0000_0000_0000_0000,
    ;
    assert(num * two_to(0) >= 1 * LOW);
    lemma_rounded_at_least(num, 1, k, 0);
    // The lesser number is at most one.
    let one = two_to((-k) as nat);
    lemma_two_to((-b.1) as nat, y);
    assert(b.0 * small_up <= one) by {
        let t = two_to((-b.1) as nat);
        assert(one == t * small_up);
        assert(b.0 <= t) by {
            if b.1 == -23 {
            } else {
                lemma_two_to(24, (-b.1) as nat);
            }
        }
        assert(b.0 * small_up <= t * small_up) by (nonlinear_arith)
            requires
                b.0 <= t,
        ;
    }
    if a.1 <= 0 {
        // The greater one is a whole unit short of the bound.
        let top = two_to((24 - k) as nat);
        lemma_two_to(24, (-k) as nat);
        lemma_two_to((-a.1) as nat, x);
        let t = two_to((-a.1) as nat);
        assert(one == t * up);
        assert(a.0 * up + one <= top) by (nonlinear_arith)
            requires
                a.0 <= HIGH - 1,
                t >= 1,
                one == t * up,
                top == HIGH * one,
                up >= 1,
        ;
        lemma_rounded_at_most(num, 1, k, 24);
    } else {
        // The bound itself: half a unit more is rounded away.
        assert(a.0 == LOW && a.1 == 1);
        lemma_two_to(1, (-k) as nat);
        assert(up == 2 * one);
        lemma_held(num, one, k);
    }
}

/// At the bound, one more is rounded away.
proof fn lemma_held(num: nat, one: nat, k: int)
    requires
        k <= 0,
        one == two_to((-k) as nat),
        LOW * (2 * one) <= num <= LOW * (2 * one) + one,
    ensures
        rounded(num, 1, k) == (LOW as nat, 1int),
{
    lemma_two_to(0, (-k) as nat);
    assert(num >= 1 * LOW);
    lemma_held_step(num, one, k, 1);
}

proof fn lemma_held_step(num: nat, one: nat, k: int, den: nat)
    requires
        k <= 1,
        den >= 1,
        2 * one == den * two_to((1 - k) as nat),
        LOW * (2 * one) <= num <= LOW * (2 * one) + one,
    ensures
        fitted(num, den, k) == (LOW as nat, 1int),
    decreases 1 - k,
{
    if k == 1 {
        assert(two_to(0) == 1);
        assert(den * two_to((1 - k) as nat) == den) by (nonlinear_arith)
            requires
                two_to((1 - k) as nat) == 1,
        ;
        assert(num < den * HIGH);
        let r = num - LOW * den;
        assert(num as int / den as int == LOW && num as int % den as int == r) by (nonlinear_arith)
            requires
                num == LOW * den + r,
                0 <= r < den,
        ;
    } else {
        let t = two_to((1 - (k + 1)) as nat);
        assert(two_to((1 - k) as nat) == 2 * t);
        lemma_two_to(0, (1 - (k + 1)) as nat);
        assert(2 * one == (2 * den) * t) by (nonlinear_arith)
            requires
                2 * one == den * (2 * t),
        ;
        assert(2 * one >= 2 * den) by (nonlinear_arith)
            requires
                2 * one == (2 * den) * t,
                t >= 1,
        ;
        assert(num >= den * HIGH) by (nonlinear_arith)
            requires
                num >= LOW * (2 * one),
                2 * one >= 2 * den,
        ;
        lemma_held_step(num, one, k + 1, 2 * den);
    }
}

/// Doubling a term and lowering the exponent by one changes nothing.
proof fn lemma_rounded_doubled(num: nat, den: nat, k: int)
    requires
        den > 0,
    ensures
        rounded(2 * num, den, k - 1) == rounded(num, den, k),
{
    if num >= den * LOW && num > 0 {
        assert(2 * num >= den * HIGH);
        lemma_fitted_doubled(num, den, k);
    }
}

proof fn lemma_fitted_doubled(num: nat, den: nat, k: int)
    requires
        den > 0,
    ensures
        fitted(2 * num, 2 * den, k) == fitted(num, den, k),
    decreases num - den,
{
    if num >= den * HIGH {
        lemma_fitted_doubled(num, 2 * den, k + 1);
    } else {
        let (n, d) = (num as int, den as int);
        assert((2 * n) / (2 * d) == n / d && (2 * n) % (2 * d) == 2 * (n % d)) by (nonlinear_arith)
            requires
                d > 0,
        ;
    }
}

/// A term times a power of two, with an exponent as much lower, is rounded to
/// the same number.
proof fn lemma_rounded_scaled(num: nat, den: nat, k: int, j: nat)
    requires
        den > 0,
    ensures
        rounded(num * two_to(j), den, k - j) == rounded(num, den, k),
    decreases j,
{
    if j > 0 {
        lemma_rounded_scaled(num, den, k, (j - 1) as nat);
        let t = two_to((j - 1) as nat);
        lemma_rounded_doubled(num * t, den, k - (j - 1));
        assert(num * two_to(j) == 2 * (num * t)) by (nonlinear_arith)
            requires
                two_to(j) == 2 * t,
        ;
    } else {
        assert(num * two_to(0) == num) by (nonlinear_arith)
            requires
                two_to(0) == 1,
        ;
    }
}

/// A fraction times a power of two is at most a number.
pub open spec fn fraction_at_most(num: nat, den: nat, k: int, b: Digits) -> bool {
    if k <= b.1 {
        num <= den * (b.0 * two_to((b.1 - k) as nat))
    } else {
        num * two_to((k - b.1) as nat) <= den * b.0
    }
}

/// A fraction times a power of two is at least a number.
pub open spec fn fraction_at_least(num: nat, den: nat, k: int, b: Digits) -> bool {
    if k <= b.1 {
        num >= den * (b.0 * two_to((b.1 - k) as nat))
    } else {
        num * two_to((k - b.1) as nat) >= den * b.0
    }
}

pub proof fn lemma_fraction_doubled(num: nat, den: nat, k: int, b: Digits)
    ensures
        fraction_at_most(2 * num, den, k - 1, b) == fraction_at_most(num, den, k, b),
        fraction_at_least(2 * num, den, k - 1, b) == fraction_at_least(num, den, k, b),
        fraction_at_most(num, 2 * den, k + 1, b) == fraction_at_most(num, den, k, b),
        fraction_at_least(num, 2 * den, k + 1, b) == fraction_at_least(num, den, k, b),
{
    if k <= b.1 {
        let t = two_to((b.1 - k) as nat);
        assert(two_to((b.1 - (k - 1)) as nat) == 2 * t);
        assert(den * (b.0 * (2 * t)) == 2 * (den * (b.0 * t))) by (nonlinear_arith);
    } else {
        let t = two_to((k - b.1) as nat);
        let u = two_to((k - 1 - b.1) as nat);
        assert(t == 2 * u);
        assert((2 * num) * u == num * (2 * u)) by (nonlinear_arith);
        if k - 1 == b.1 {
            assert(u == 1);
            assert(b.0 * two_to(0) == b.0);
            assert(num * (2 * u) == 2 * num) by (nonlinear_arith)
                requires
                    u == 1,
            ;
        }
    }
    if k + 1 <= b.1 {
        let t = two_to((b.1 - k) as nat);
        let u = two_to((b.1 - (k + 1)) as nat);
        assert(t == 2 * u);
        assert((2 * den) * (b.0 * u) == den * (b.0 * (2 * u))) by (nonlinear_arith);
    } else {
        let u = two_to((k + 1 - b.1) as nat);
        let t = two_to((k - b.1) as nat);
        assert(u == 2 * t);
        assert(num * (2 * t) == 2 * (num * t)) by (nonlinear_arith);
        assert((2 * den) * b.0 == 2 * (den * b.0)) by (nonlinear_arith);
        if k == b.1 {
            assert(t == 1);
            assert(b.0 * two_to(0) == b.0);
            assert(num * t == num) by (nonlinear_arith)
                requires
                    t == 1,
            ;
        }
    }
}

/// Rounding keeps the order: what is at most a number is rounded to at most
/// that number, and what is at least a number to at least that number.
pub proof fn law_rounding_keeps_order(num: nat, den: nat, k: int, b: Digits)
    requires
        den > 0,
        proper(b),
    ensures
        fraction_at_most(num, den, k, b) ==> !below(b, rounded(num, den, k)),
        fraction_at_least(num, den, k, b) ==> !below(rounded(num, den, k), b),
    decreases den * HIGH - num,
{
    if num == 0 {
        if fraction_at_least(num, den, k, b) && b.0 > 0 {
            lemma_two_to(0, if k <= b.1 { (b.1 - k) as nat } else { 0 });
            if k <= b.1 {
                let t = two_to((b.1 - k) as nat);
                lemma_two_to((b.1 - k) as nat, 0);
                assert(den * (b.0 * t) > 0) by (nonlinear_arith)
                    requires
                        den > 0,
                        b.0 > 0,
                        t > 0,
                ;
            } else {
                assert(num * two_to((k - b.1) as nat) == 0) by (nonlinear_arith)
                    requires
                        num == 0,
                ;
                assert(den * b.0 > 0) by (nonlinear_arith)
                    requires
                        den > 0,
                        b.0 > 0,
                ;
            }
        }
    } else if num < den * LOW {
        lemma_fraction_doubled(num, den, k, b);
        law_rounding_keeps_order(2 * num, den, k - 1, b);
    } else {
        lemma_fitting_keeps_order(num, den, k, b);
    }
}

proof fn lemma_fitting_keeps_order(num: nat, den: nat, k: int, b: Digits)
    requires
        den > 0,
        num >= den * LOW,
        proper(b),
    ensures
        fraction_at_most(num, den, k, b) ==> !below(b, fitted(num, den, k)),
        fraction_at_least(num, den, k, b) ==> !below(fitted(num, den, k), b),
    decreases num - den,
{
    if num >= den * HIGH {
        lemma_fraction_doubled(num, den, k, b);
        lemma_fitting_keeps_order(num, 2 * den, k + 1, b);
    } else {
        let (n, d, c) = (num as int, den as int, b.0 as int);
        assert(two_to(0) == 1);
        lemma_quotient_bounds(n, d);
        lemma_fitted_is_proper(num, den, k);
        let m = nearest(n, d);
        assert(n == d * (n / d) + n % d && 0 <= n % d < d) by (nonlinear_arith)
            requires
                d > 0,
        ;
        if c == 0 {
            if fraction_at_most(num, den, k, b) {
                if k <= b.1 {
                    let t = two_to((b.1 - k) as nat);
                    assert(den * (b.0 * t) == 0) by (nonlinear_arith)
                        requires
                            b.0 == 0,
                    ;
                } else {
                    lemma_two_to((k - b.1) as nat, 0);
                    let t = two_to((k - b.1) as nat);
                    assert(num * t > 0) by (nonlinear_arith)
                        requires
                            num > 0,
                            t > 0,
                    ;
                    assert(den * b.0 == 0) by (nonlinear_arith)
                        requires
                            b.0 == 0,
                    ;
                }
            }
        } else if b.1 == k {
            assert(b.0 * two_to(0) == b.0) by (nonlinear_arith)
                requires
                    two_to(0) == 1,
            ;
            if n <= d * c {
                assert(n / d < c || (n / d == c && n % d == 0)) by (nonlinear_arith)
                    requires
                        n <= d * c,
                        n == d * (n / d) + n % d,
                        0 <= n % d,
                        d > 0,
                ;
                assert(m <= c);
            }
            if n >= d * c {
                assert(n / d >= c) by (nonlinear_arith)
                    requires
                        n >= d * c,
                        d > 0,
                ;
                assert(m >= c);
            }
        } else if b.1 < k {
            let t = two_to((k - b.1) as nat);
            lemma_two_to(0, (k - b.1) as nat);
            assert(num * t > den * b.0) by (nonlinear_arith)
                requires
                    t >= 2,
                    num >= den * LOW,
                    b.0 < 2 * LOW,
                    den > 0,
            ;
        } else {
            let t = two_to((b.1 - k) as nat);
            lemma_two_to(0, (b.1 - k) as nat);
            assert(b.0 * t >= HIGH) by (nonlinear_arith)
                requires
                    t >= 2,
                    b.0 >= LOW,
            ;
            assert(den * (b.0 * t) >= den * HIGH) by (nonlinear_arith)
                requires
                    b.0 * t >= HIGH,
                    den > 0,
            ;
        }
    }
}

/// A count of at most two to the twenty-four is a number as it is.
pub open spec fn counts(a: Digits, n: nat) -> bool {
    if n == 0 {
        a == (0nat, 0int)
    } else if a.1 <= 0 {
        a.0 == n * two_to((-a.1) as nat)
    } else {
        a == (LOW as nat, 1int) && n == HIGH
    }
}

proof fn lemma_count_is_kept(n: nat)
    requires
        n <= HIGH,
    ensures
        counts(rounded(n, 1, 0), n),
        proper(rounded(n, 1, 0)),
        at_most_two_to(rounded(n, 1, 0), 24),
        within(rounded(n, 1, 0), -23, 1),
{
    lemma_small_powers();
    lemma_rounded_is_proper(n, 1, 0);
    if n == HIGH {
        lemma_held(n, 1, 0);
    } else if n > 0 {
        assert(n * two_to(0) == n) by (nonlinear_arith)
            requires
                two_to(0) == 1,
        ;
        lemma_small_count(n, n, 0);
        lemma_rounded_at_most(n, 1, 0, 24);
        assert(n * two_to(23) >= 1 * LOW) by (nonlinear_arith)
            requires
                n >= 1,
                two_to(23) == LOW,
        ;
        lemma_rounded_at_least(n, 1, 0, 23);
    }
}

proof fn lemma_small_count(n: nat, num: nat, k: int)
    requires
        0 < num < HIGH,
        k <= 0,
        num == n * two_to((-k) as nat),
    ensures
        rounded(num, 1, k).1 <= 0,
        rounded(num, 1, k).0 == n * two_to((-rounded(num, 1, k).1) as nat),
    decreases HIGH - num,
{
    if num < LOW {
        let t = two_to((-k) as nat);
        assert(two_to((-(k - 1)) as nat) == 2 * t);
        assert(2 * num == n * (2 * t)) by (nonlinear_arith)
            requires
                num == n * t,
        ;
        lemma_small_count(n, 2 * num, k - 1);
    } else {
        assert(num as int / 1 == num && num as int % 1 == 0);
        assert(nearest(num as int, 1) == num);
    }
}

proof fn lemma_scaled_order(a: Digits, f: Digits, k: int)
    requires
        proper(a),
        proper(f),
        a.0 != 0,
        !below(f, a),
        k <= a.1,
    ensures
        f.0 != 0,
        a.1 <= f.1,
        a.0 * two_to((a.1 - k) as nat) <= f.0 * two_to((f.1 - k) as nat),
{
    let t = two_to((a.1 - k) as nat);
    if a.1 == f.1 {
        assert(a.0 * t <= f.0 * t) by (nonlinear_arith)
            requires
                a.0 <= f.0,
        ;
    } else {
        let u = two_to((f.1 - a.1) as nat);
        lemma_two_to(0, (f.1 - a.1) as nat);
        lemma_two_to((f.1 - a.1) as nat, (a.1 - k) as nat);
        assert(two_to((f.1 - k) as nat) == u * t);
        assert(a.0 * t <= f.0 * (u * t)) by (nonlinear_arith)
            requires
                a.0 <= 2 * f.0,
                u >= 2,
        ;
    }
}

proof fn lemma_scaled_count(f: Digits, n: nat, k: int)
    requires
        counts(f, n),
        n > 0,
        k <= 0,
        k <= f.1,
    ensures
        f.0 * two_to((f.1 - k) as nat) == n * two_to((-k) as nat),
{
    lemma_small_powers();
    if f.1 <= 0 {
        let x = (-f.1) as nat;
        let y = (f.1 - k) as nat;
        lemma_two_to(x, y);
        assert((n * two_to(x)) * two_to(y) == n * (two_to(x) * two_to(y))) by (nonlinear_arith);
    } else {
        lemma_two_to(1, (-k) as nat);
        let t = two_to((-k) as nat);
        assert(LOW * (2 * t) == HIGH * t);
    }
}

/// A sum of numbers that are at most a count and at most one is at most the
/// next count.
pub proof fn lemma_sum_at_most(a: Digits, b: Digits, n: nat)
    requires
        proper(a),
        proper(b),
        within(a, -53, 1),
        within(b, -53, -23),
        at_most_two_to(b, 0),
        n < HIGH,
        !below(rounded(n, 1, 0), a),
    ensures
        !below(rounded(n + 1, 1, 0), sum(a, b)),
{
    lemma_small_powers();
    let f = rounded(n, 1, 0);
    let g = rounded(n + 1, 1, 0);
    let one = (LOW as nat, -23int);
    lemma_count_is_kept(n);
    lemma_count_is_kept(n + 1);
    assert(!below(one, b));
    assert(!below(g, one)) by {
        assert((n + 1) * two_to(23) >= 1 * LOW) by (nonlinear_arith)
            requires
                two_to(23) == LOW,
        ;
        law_rounding_keeps_order(n + 1, 1, 0, one);
    }
    if a.0 == 0 {
    } else if b.0 == 0 {
        lemma_counts_keep_order(n, n + 1);
    } else {
        let k = lesser(a.1, b.1);
        lemma_scaled_order(a, f, k);
        lemma_scaled_order(b, one, k);
        lemma_scaled_count(f, n, k);
        lemma_scaled_count(g, n + 1, k);
        let t = two_to((-k) as nat);
        lemma_two_to(23, (-23 - k) as nat);
        assert(one.0 * two_to((one.1 - k) as nat) == t);
        assert((n + 1) * t == n * t + t) by (nonlinear_arith);
        let num = a.0 * two_to((a.1 - k) as nat) + b.0 * two_to((b.1 - k) as nat);
        assert(num <= (n + 1) * t);
        assert(fraction_at_most(num, 1, k, g));
        law_rounding_keeps_order(num, 1, k, g);
    }
}

/// One more than a count is the next count; beyond two to the twenty-four it is
/// rounded away.
pub proof fn lemma_sum_with_one(n: nat)
    requires
        n <= HIGH,
    ensures
        sum(rounded(n, 1, 0), (LOW as nat, -23int)) == rounded(
            if n < HIGH {
                n + 1
            } else {
                n
            },
            1,
            0,
        ),
        rounded(HIGH as nat, 1, 0) == (LOW as nat, 1int),
        rounded(HIGH as nat + 1, 1, 0) == (LOW as nat, 1int),
        rounded(1, 1, 0) == (LOW as nat, -23int),
{
    lemma_small_powers();
    let f = rounded(n, 1, 0);
    lemma_count_is_kept(n);
    lemma_held(HIGH as nat, 1, 0);
    lemma_held(HIGH as nat + 1, 1, 0);
    lemma_count_is_kept(1);
    lemma_rounded_at_most(1, 1, 0, 0);
    if n > 0 {
        lemma_scaled_count(f, n, -23);
        let num = f.0 * two_to((f.1 + 23) as nat) + LOW * two_to(0);
        if n < HIGH {
            assert(num == (n + 1) * two_to(23)) by (nonlinear_arith)
                requires
                    num == n * two_to(23) + LOW * two_to(0),
                    two_to(23) == LOW,
                    two_to(0) == 1,
            ;
            lemma_rounded_scaled(n + 1, 1, 0, 23);
        } else {
            lemma_held(num as nat, LOW as nat, -23);
        }
    }
}

/// The quotient of a number by one that is not less is at most one.
pub proof fn lemma_quotient_at_most_one(a: Digits, b: Digits)
    requires
        proper(a),
        proper(b),
        b.0 != 0,
        !below(b, a),
    ensures
        at_most_two_to(quotient(a, b), 0),
        a == b ==> quotient(a, b) == (LOW as nat, -23int),
{
    lemma_small_powers();
    if a.0 != 0 {
        lemma_scaled_order(a, b, a.1);
        assert(a.0 * two_to(0) == a.0) by (nonlinear_arith)
            requires
                two_to(0) == 1,
        ;
        lemma_rounded_at_most(a.0, b.0, a.1 - b.1, 0);
    }
    if a == b {
        lemma_rounded_scaled(a.0, a.0, 0, 23);
        lemma_quotient_bounds((a.0 * LOW) as int, a.0 as int);
    }
}

/// Counts are rounded in their order.
pub proof fn lemma_counts_keep_order(m: nat, n: nat)
    requires
        m <= n,
        m <= HIGH,
    ensures
        !below(rounded(n, 1, 0), rounded(m, 1, 0)),
{
    let f = rounded(m, 1, 0);
    lemma_count_is_kept(m);
    if m > 0 {
        assert(fraction_at_least(n, 1, 0, f)) by {
            if f.1 >= 0 {
                lemma_scaled_count(f, m, 0);
                assert(m * two_to(0) == m) by (nonlinear_arith)
                    requires
                        two_to(0) == 1,
                ;
            } else {
                let u = two_to((-f.1) as nat);
                assert(n * u >= m * u) by (nonlinear_arith)
                    requires
                        m <= n,
                ;
            }
        }
        law_rounding_keeps_order(n, 1, 0, f);
    }
}

/// A number of tenths, with its decimal place.
pub open spec fn tenths_shown(n: nat) -> Seq<char> {
    decimal(n / 10) + "."@ + decimal(n % 10)
}

/// The text of a number of tenths.
pub fn tenths_text(n: u64) -> (r: String)
    ensures
        r@ == tenths_shown(n as nat),
{
    cat3(decimal_text(n / 10).as_str(), ".", decimal_text(n % 10).as_str())
}

} // verus!
