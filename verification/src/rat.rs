//! Exact rational numbers over checked 128-bit integers.
//!
//! A [`Rat`] holds a numerator and a positive denominator. Representations
//! are not kept reduced — two denote the same rational exactly when [`qeq`]
//! holds of their views — but [`Rat::reduce`] gives the lowest-terms form of
//! any value. Every arithmetic operation either returns the mathematically
//! exact (unreduced) result or `None`, exactly when an intermediate product
//! or sum does not fit in an `i128`.

use vstd::prelude::*;

verus! {

/// The mathematical value of a rational: numerator `n` over denominator `d`.
///
/// Well-formed values (see [`qwf`]) have `d > 0`.
pub ghost struct Qv {
    pub n: int,
    pub d: int,
}

/// A rational value is well-formed when its denominator is positive.
pub open spec fn qwf(a: Qv) -> bool {
    a.d > 0
}

/// The rational `i / 1`.
pub open spec fn qint(i: int) -> Qv {
    Qv { n: i, d: 1 }
}

/// The rational `1 / 2`.
pub open spec fn qhalf() -> Qv {
    Qv { n: 1, d: 2 }
}

/// Exact sum: `a/b + c/d = (a*d + c*b) / (b*d)`.
pub open spec fn qadd(a: Qv, b: Qv) -> Qv {
    Qv { n: a.n * b.d + b.n * a.d, d: a.d * b.d }
}

/// Exact difference: `a/b - c/d = (a*d - c*b) / (b*d)`.
pub open spec fn qsub(a: Qv, b: Qv) -> Qv {
    Qv { n: a.n * b.d - b.n * a.d, d: a.d * b.d }
}

/// Exact product: `(a/b) * (c/d) = (a*c) / (b*d)`.
pub open spec fn qmul(a: Qv, b: Qv) -> Qv {
    Qv { n: a.n * b.n, d: a.d * b.d }
}

/// Exact quotient by a rational with positive numerator:
/// `(a/b) / (c/d) = (a*d) / (b*c)`. Meaningful only when `b.n > 0`,
/// which keeps the result well-formed.
pub open spec fn qdiv_pos(a: Qv, b: Qv) -> Qv {
    Qv { n: a.n * b.d, d: a.d * b.n }
}

/// Value equality of rationals: `a/b == c/d` iff `a*d == c*b`.
pub open spec fn qeq(a: Qv, b: Qv) -> bool {
    a.n * b.d == b.n * a.d
}

/// Value order (for well-formed rationals): `a/b <= c/d` iff `a*d <= c*b`.
pub open spec fn qle(a: Qv, b: Qv) -> bool {
    a.n * b.d <= b.n * a.d
}

/// Strict value order (for well-formed rationals).
pub open spec fn qlt(a: Qv, b: Qv) -> bool {
    a.n * b.d < b.n * a.d
}

/// A well-formed rational is nonnegative exactly when its numerator is.
pub open spec fn qnonneg(a: Qv) -> bool {
    a.n >= 0
}

/// The numerator's magnitude fits the machine representation (the one
/// unrepresentable-magnitude value is excluded).
pub open spec fn qrep(a: Qv) -> bool {
    a.n > i128::MIN as int
}

/// Whether an integer fits the machine word holding numerators and
/// denominators.
pub open spec fn fits_i128(x: int) -> bool {
    x >= i128::MIN as int && x <= i128::MAX as int
}

/// Whether an integer can stand as a numerator: it fits the machine word
/// and its magnitude is representable.
pub open spec fn fits_num(x: int) -> bool {
    x > i128::MIN as int && x <= i128::MAX as int
}

/// Exactly when [`Rat::add`] succeeds: every intermediate of the exact sum
/// fits the machine word.
pub open spec fn add_fits(a: Qv, b: Qv) -> bool {
    &&& fits_i128(a.n * b.d)
    &&& fits_i128(b.n * a.d)
    &&& fits_num(a.n * b.d + b.n * a.d)
    &&& fits_i128(a.d * b.d)
}

/// Exactly when [`Rat::sub`] succeeds.
pub open spec fn sub_fits(a: Qv, b: Qv) -> bool {
    &&& fits_i128(a.n * b.d)
    &&& fits_i128(b.n * a.d)
    &&& fits_num(a.n * b.d - b.n * a.d)
    &&& fits_i128(a.d * b.d)
}

/// Exactly when [`Rat::mul`] succeeds.
pub open spec fn mul_fits(a: Qv, b: Qv) -> bool {
    &&& fits_num(a.n * b.n)
    &&& fits_i128(a.d * b.d)
}

/// Exactly when [`Rat::div_pos`] succeeds.
pub open spec fn div_fits(a: Qv, b: Qv) -> bool {
    &&& fits_num(a.n * b.d)
    &&& fits_i128(a.d * b.n)
}

/// Exactly when [`Rat::eq_val`] and [`Rat::le_val`] succeed: the two cross
/// products fit the machine word.
pub open spec fn cmp_fits(a: Qv, b: Qv) -> bool {
    &&& fits_i128(a.n * b.d)
    &&& fits_i128(b.n * a.d)
}

/// The magnitude of the numerator.
pub open spec fn qabs_n(a: Qv) -> int {
    if a.n >= 0 {
        a.n
    } else {
        -a.n
    }
}

/// Euclid's greatest common divisor, `a` when `b` is not positive.
pub open spec fn gcd_n(a: int, b: int) -> int
    decreases b,
{
    if b <= 0 {
        a
    } else {
        gcd_n(b, a % b)
    }
}

/// The greatest common divisor of a rational's numerator magnitude and
/// denominator.
pub open spec fn qgcd(a: Qv) -> int {
    gcd_n(qabs_n(a), a.d)
}

/// The reduced form of a rational: numerator and denominator divided by
/// their greatest common divisor.
pub open spec fn qnorm(a: Qv) -> Qv {
    Qv { n: a.n / qgcd(a), d: a.d / qgcd(a) }
}

/// Euclid's divisor divides both arguments and is positive.
pub proof fn lemma_gcd_divides(a: int, b: int)
    requires
        a >= 0,
        b >= 0,
        a > 0 || b > 0,
    ensures
        gcd_n(a, b) > 0,
        a % gcd_n(a, b) == 0,
        b % gcd_n(a, b) == 0,
    decreases b,
{
    if b <= 0 {
        vstd::arithmetic::div_mod::lemma_mod_self_0(a);
        vstd::arithmetic::div_mod::lemma_small_mod(0, a as nat);
    } else {
        let r = a % b;
        let g = gcd_n(b, r);
        lemma_gcd_divides(b, r);
        vstd::arithmetic::div_mod::lemma_fundamental_div_mod(a, b);
        vstd::arithmetic::div_mod::lemma_fundamental_div_mod(b, g);
        vstd::arithmetic::div_mod::lemma_fundamental_div_mod(r, g);
        let k = (b / g) * (a / b) + r / g;
        assert(a == k * g) by (nonlinear_arith)
            requires
                a == b * (a / b) + r,
                b == g * (b / g),
                r == g * (r / g),
                k == (b / g) * (a / b) + r / g,
        ;
        vstd::arithmetic::div_mod::lemma_mod_multiples_basic(k, g);
    }
}

/// Reduction preserves the rational's value, well-formedness, and the sign
/// of its numerator, and divides both components exactly.
pub proof fn lemma_qnorm(a: Qv)
    requires
        qwf(a),
    ensures
        qgcd(a) > 0,
        a.n == qgcd(a) * qnorm(a).n,
        a.d == qgcd(a) * qnorm(a).d,
        qwf(qnorm(a)),
        qeq(qnorm(a), a),
        a.n < 0 <==> qnorm(a).n < 0,
        a.n == 0 <==> qnorm(a).n == 0,
{
    let m = qabs_n(a);
    let g = qgcd(a);
    lemma_gcd_divides(m, a.d);
    vstd::arithmetic::div_mod::lemma_fundamental_div_mod(m, g);
    vstd::arithmetic::div_mod::lemma_fundamental_div_mod(a.d, g);
    let k = m / g;
    if a.n < 0 {
        assert(a.n == g * (-k)) by (nonlinear_arith)
            requires
                m == g * k,
                a.n == -m,
        ;
        vstd::arithmetic::div_mod::lemma_div_multiples_vanish(-k, g);
        assert(a.n / g == -k);
    } else {
        vstd::arithmetic::div_mod::lemma_div_multiples_vanish(k, g);
        assert(a.n / g == k);
    }
    vstd::arithmetic::div_mod::lemma_div_multiples_vanish(a.d / g, g);
    let nn = qnorm(a).n;
    let nd = qnorm(a).d;
    assert(nd > 0 && (nn * a.d == a.n * nd) && (a.n < 0 <==> nn < 0) && (a.n == 0 <==> nn == 0))
        by (nonlinear_arith)
        requires
            g > 0,
            a.d > 0,
            a.n == g * nn,
            a.d == g * nd,
    ;
}

/// The product of two positive integers is positive.
pub proof fn lemma_mul_pos(a: int, b: int)
    requires
        a > 0,
        b > 0,
    ensures
        a * b > 0,
{
    assert(a * b > 0) by (nonlinear_arith)
        requires
            a > 0,
            b > 0,
    ;
}

/// Euclid's algorithm on machine words.
fn gcd_u(a: u128, b: u128) -> (r: u128)
    requires
        a > 0 || b > 0,
    ensures
        r as int == gcd_n(a as int, b as int),
        r > 0,
{
    let mut x = a;
    let mut y = b;
    while y > 0
        invariant
            gcd_n(x as int, y as int) == gcd_n(a as int, b as int),
            x > 0 || y > 0,
        decreases y,
    {
        let t = x % y;
        x = y;
        y = t;
    }
    x
}

/// An exact rational held as numerator over positive denominator in `i128`.
#[derive(Clone, Copy, Debug)]
pub struct Rat {
    num: i128,
    den: i128,
}

impl View for Rat {
    type V = Qv;

    closed spec fn view(&self) -> Qv {
        Qv { n: self.num as int, d: self.den as int }
    }
}

impl Rat {
    /// The representation invariant: the denominator is positive, and the
    /// numerator's magnitude fits (the one unrepresentable-magnitude value
    /// is excluded).
    pub open spec fn wf(&self) -> bool {
        qwf(self@) && qrep(self@)
    }

    /// Builds `num / den` from a positive denominator.
    pub fn new(num: i128, den: i128) -> (r: Rat)
        requires
            den > 0,
            num > i128::MIN,
        ensures
            r.wf(),
            r@ == (Qv { n: num as int, d: den as int }),
    {
        Rat { num, den }
    }

    /// Builds the integer `i` as a rational.
    pub fn from_int(i: i128) -> (r: Rat)
        requires
            i > i128::MIN,
        ensures
            r.wf(),
            r@ == qint(i as int),
    {
        Rat { num: i, den: 1 }
    }

    /// The numerator of this representation.
    pub fn num(&self) -> (r: i128)
        ensures
            r as int == self@.n,
    {
        self.num
    }

    /// The denominator of this representation.
    pub fn den(&self) -> (r: i128)
        ensures
            r as int == self@.d,
    {
        self.den
    }

    /// Exact addition; `None` when an intermediate does not fit in `i128`.
    pub fn add(&self, other: &Rat) -> (r: Option<Rat>)
        requires
            self.wf(),
            other.wf(),
        ensures
            r is Some <==> add_fits(self@, other@),
            r is Some ==> (r->Some_0).wf() && (r->Some_0)@ == qadd(self@, other@),
    {
        let p1 = match self.num.checked_mul(other.den) {
            Some(v) => v,
            None => return None,
        };
        let p2 = match other.num.checked_mul(self.den) {
            Some(v) => v,
            None => return None,
        };
        let n = match p1.checked_add(p2) {
            Some(v) => v,
            None => return None,
        };
        if n == i128::MIN {
            return None;
        }
        let d = match self.den.checked_mul(other.den) {
            Some(v) => v,
            None => return None,
        };
        proof {
            lemma_mul_pos(self@.d, other@.d);
        }
        Some(Rat { num: n, den: d })
    }

    /// Exact subtraction; `None` when an intermediate does not fit in `i128`.
    pub fn sub(&self, other: &Rat) -> (r: Option<Rat>)
        requires
            self.wf(),
            other.wf(),
        ensures
            r is Some <==> sub_fits(self@, other@),
            r is Some ==> (r->Some_0).wf() && (r->Some_0)@ == qsub(self@, other@),
    {
        let p1 = match self.num.checked_mul(other.den) {
            Some(v) => v,
            None => return None,
        };
        let p2 = match other.num.checked_mul(self.den) {
            Some(v) => v,
            None => return None,
        };
        let n = match p1.checked_sub(p2) {
            Some(v) => v,
            None => return None,
        };
        if n == i128::MIN {
            return None;
        }
        let d = match self.den.checked_mul(other.den) {
            Some(v) => v,
            None => return None,
        };
        proof {
            lemma_mul_pos(self@.d, other@.d);
        }
        Some(Rat { num: n, den: d })
    }

    /// Exact multiplication; `None` when a product does not fit in `i128`.
    pub fn mul(&self, other: &Rat) -> (r: Option<Rat>)
        requires
            self.wf(),
            other.wf(),
        ensures
            r is Some <==> mul_fits(self@, other@),
            r is Some ==> (r->Some_0).wf() && (r->Some_0)@ == qmul(self@, other@),
    {
        let n = match self.num.checked_mul(other.num) {
            Some(v) => v,
            None => return None,
        };
        if n == i128::MIN {
            return None;
        }
        let d = match self.den.checked_mul(other.den) {
            Some(v) => v,
            None => return None,
        };
        proof {
            lemma_mul_pos(self@.d, other@.d);
        }
        Some(Rat { num: n, den: d })
    }

    /// Exact division by a rational with positive numerator;
    /// `None` when a product does not fit in `i128`.
    pub fn div_pos(&self, other: &Rat) -> (r: Option<Rat>)
        requires
            self.wf(),
            other.wf(),
            other@.n > 0,
        ensures
            r is Some <==> div_fits(self@, other@),
            r is Some ==> (r->Some_0).wf() && (r->Some_0)@ == qdiv_pos(self@, other@),
    {
        let n = match self.num.checked_mul(other.den) {
            Some(v) => v,
            None => return None,
        };
        if n == i128::MIN {
            return None;
        }
        let d = match self.den.checked_mul(other.num) {
            Some(v) => v,
            None => return None,
        };
        proof {
            lemma_mul_pos(self@.d, other@.n);
        }
        Some(Rat { num: n, den: d })
    }

    /// Value equality of two rationals; `None` when a cross product does
    /// not fit in `i128`.
    pub fn eq_val(&self, other: &Rat) -> (r: Option<bool>)
        requires
            self.wf(),
            other.wf(),
        ensures
            r is Some <==> cmp_fits(self@, other@),
            r is Some ==> ((r->Some_0) <==> qeq(self@, other@)),
    {
        let p1 = match self.num.checked_mul(other.den) {
            Some(v) => v,
            None => return None,
        };
        let p2 = match other.num.checked_mul(self.den) {
            Some(v) => v,
            None => return None,
        };
        Some(p1 == p2)
    }

    /// The reduced representation of the same value: numerator and
    /// denominator divided by their greatest common divisor.
    pub fn reduce(&self) -> (r: Rat)
        requires
            self.wf(),
        ensures
            r.wf(),
            r@ == qnorm(self@),
    {
        proof {
            lemma_qnorm(self@);
        }
        let neg = self.num < 0;
        let mag_i: i128 = if neg {
            -self.num
        } else {
            self.num
        };
        let mag: u128 = mag_i as u128;
        let den_u: u128 = self.den as u128;
        let g: u128 = gcd_u(mag, den_u);
        if g == 1 {
            proof {
                vstd::arithmetic::div_mod::lemma_div_multiples_vanish(self@.n, 1);
                vstd::arithmetic::div_mod::lemma_div_multiples_vanish(self@.d, 1);
                assert(1 * self@.n == self@.n);
                assert(1 * self@.d == self@.d);
            }
            return *self;
        }
        let ghost gg = qgcd(self@);
        let ghost nn = qnorm(self@).n;
        let ghost nd = qnorm(self@).d;
        proof {
            assert(mag as int == qabs_n(self@));
            assert(g as int == gg);
            assert(if self@.n < 0 {
                mag as int == gg * (-nn)
            } else {
                mag as int == gg * nn
            }) by (nonlinear_arith)
                requires
                    self@.n == gg * nn,
                    mag as int == qabs_n(self@),
                    qabs_n(self@) == if self@.n >= 0 {
                        self@.n
                    } else {
                        -self@.n
                    },
            ;
            if self@.n < 0 {
                vstd::arithmetic::div_mod::lemma_div_multiples_vanish(-nn, gg);
            } else {
                vstd::arithmetic::div_mod::lemma_div_multiples_vanish(nn, gg);
            }
            vstd::arithmetic::div_mod::lemma_div_multiples_vanish(nd, gg);
            assert((mag as int) / (g as int) == if self@.n < 0 {
                -nn
            } else {
                nn
            });
            assert((den_u as int) / (g as int) == nd);
            assert(mag as int / (g as int) <= mag as int && nd <= self@.d) by (nonlinear_arith)
                requires
                    gg >= 2,
                    g as int == gg,
                    mag as int >= 0,
                    mag as int == gg * (if self@.n < 0 {
                        -nn
                    } else {
                        nn
                    }),
                    self@.d == gg * nd,
                    nd > 0,
                    mag as int / (g as int) == (if self@.n < 0 {
                        -nn
                    } else {
                        nn
                    }),
            ;
        }
        let m2: u128 = mag / g;
        let d2: u128 = den_u / g;
        let num2: i128 = if neg {
            -(m2 as i128)
        } else {
            m2 as i128
        };
        Rat { num: num2, den: d2 as i128 }
    }

    /// Value order of two rationals; `None` when a cross product does not
    /// fit in `i128`.
    pub fn le_val(&self, other: &Rat) -> (r: Option<bool>)
        requires
            self.wf(),
            other.wf(),
        ensures
            r is Some <==> cmp_fits(self@, other@),
            r is Some ==> ((r->Some_0) <==> qle(self@, other@)),
    {
        let p1 = match self.num.checked_mul(other.den) {
            Some(v) => v,
            None => return None,
        };
        let p2 = match other.num.checked_mul(self.den) {
            Some(v) => v,
            None => return None,
        };
        Some(p1 <= p2)
    }
}

} // verus!
