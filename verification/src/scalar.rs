//! Exact rational scalars.
//!
//! A `Scalar` stores a numerator and a positive denominator; its mathematical
//! value is the fraction `num / den`. Fractions are not kept reduced, so every
//! arithmetic operation states exactly which representation it produces.
//! Operations carry `requires` clauses only where the `i128` machine
//! representation forces them: each clause says that the exact products the
//! operation computes fit in an `i128`.

use vstd::prelude::*;

verus! {

/// Mathematical value of a scalar: the fraction `n / d` over unbounded integers.
pub ghost struct Frac {
    pub n: int,
    pub d: int,
}

/// A fraction is well formed when its denominator is positive.
pub open spec fn frac_wf(f: Frac) -> bool {
    f.d > 0
}

/// The fraction representing the integer `i`.
pub open spec fn frac_int(i: int) -> Frac {
    Frac { n: i, d: 1 }
}

/// Exact sum, on the common denominator `a.d * b.d`.
pub open spec fn frac_add(a: Frac, b: Frac) -> Frac {
    Frac { n: a.n * b.d + b.n * a.d, d: a.d * b.d }
}

/// Exact difference, on the common denominator `a.d * b.d`.
pub open spec fn frac_sub(a: Frac, b: Frac) -> Frac {
    Frac { n: a.n * b.d - b.n * a.d, d: a.d * b.d }
}

/// Exact product.
pub open spec fn frac_mul(a: Frac, b: Frac) -> Frac {
    Frac { n: a.n * b.n, d: a.d * b.d }
}

/// Exact halving: the denominator doubles.
pub open spec fn frac_half(a: Frac) -> Frac {
    Frac { n: a.n, d: 2 * a.d }
}

/// Exact negation.
pub open spec fn frac_neg(a: Frac) -> Frac {
    Frac { n: -a.n, d: a.d }
}

/// Exact quotient, with the sign moved into the numerator so that the
/// result is well formed whenever `a` and `b` are and `b` is nonzero.
pub open spec fn frac_div(a: Frac, b: Frac) -> Frac {
    if b.n >= 0 {
        Frac { n: a.n * b.d, d: a.d * b.n }
    } else {
        Frac { n: -(a.n * b.d), d: -(a.d * b.n) }
    }
}

/// `a <= b`, by cross multiplication; meaningful when both are well formed.
pub open spec fn frac_le(a: Frac, b: Frac) -> bool {
    a.n * b.d <= b.n * a.d
}

/// `a < b`, by cross multiplication; meaningful when both are well formed.
pub open spec fn frac_lt(a: Frac, b: Frac) -> bool {
    a.n * b.d < b.n * a.d
}

/// `a == b` as rational numbers (the representations may differ).
pub open spec fn frac_eqv(a: Frac, b: Frac) -> bool {
    a.n * b.d == b.n * a.d
}

/// `x` fits in an `i128` with room to negate it.
pub open spec fn sym_i128(x: int) -> bool {
    -0x7fff_ffff_ffff_ffff_ffff_ffff_ffff_ffff <= x <= 0x7fff_ffff_ffff_ffff_ffff_ffff_ffff_ffff
}

/// The products formed by an exact sum or difference of `a` and `b` fit in `i128`.
pub open spec fn add_fits(a: Frac, b: Frac) -> bool {
    &&& sym_i128(a.n * b.d)
    &&& sym_i128(b.n * a.d)
    &&& sym_i128(a.n * b.d + b.n * a.d)
    &&& sym_i128(a.n * b.d - b.n * a.d)
    &&& sym_i128(a.d * b.d)
}

/// The products formed by an exact product of `a` and `b` fit in `i128`.
pub open spec fn mul_fits(a: Frac, b: Frac) -> bool {
    &&& sym_i128(a.n * b.n)
    &&& sym_i128(a.d * b.d)
}

/// The cross products comparing `a` with `b` fit in `i128`.
pub open spec fn cmp_fits(a: Frac, b: Frac) -> bool {
    &&& sym_i128(a.n * b.d)
    &&& sym_i128(b.n * a.d)
}

/// The products formed by an exact quotient `a / b` fit in `i128`.
pub open spec fn div_fits(a: Frac, b: Frac) -> bool {
    &&& sym_i128(a.n * b.d)
    &&& sym_i128(a.d * b.n)
}

/// The value of `f` as a count of 1/256 grid units; meaningful when the
/// denominator divides 256, which makes the division exact.
pub open spec fn grid_of(f: Frac) -> int {
    f.n * (256int / f.d)
}

/// The scalar lies exactly on the 1/256 grid and its magnitude is at most
/// 2^24 grid units (65536 whole units). The sweep solvers clear denominators
/// onto this grid, and this bound keeps every product they form inside
/// `i128`.
pub open spec fn in_bounds(f: Frac) -> bool {
    &&& 0 < f.d <= 256
    &&& 256int % f.d == 0
    &&& -0x1000000 <= grid_of(f) <= 0x1000000
}

/// Interval bound on a product from interval bounds on its factors.
pub proof fn lemma_abs_mul(x: int, y: int, bx: int, by: int)
    by (nonlinear_arith)
    requires
        -bx <= x <= bx,
        -by <= y <= by,
    ensures
        -(bx * by) <= x * y <= bx * by,
{
}

/// The scalar representing the given fraction; meaningful when both parts
/// fit in `i128`.
pub open spec fn scalar_of(f: Frac) -> Scalar {
    Scalar { num: f.n as i128, den: f.d as i128 }
}

/// Scalars on the grid are small enough that every pairwise product two of
/// them can form fits in `i128`.
pub proof fn lemma_in_bounds_products(a: Frac, b: Frac)
    requires
        in_bounds(a),
        in_bounds(b),
    ensures
        cmp_fits(a, b),
        add_fits(a, b),
        mul_fits(a, b),
        div_fits(a, b),
        -0x1000000 <= a.n <= 0x1000000,
        -0x1000000 <= b.n <= 0x1000000,
{
    lemma_grid_mul_fits(a);
    lemma_grid_mul_fits(b);
    lemma_abs_mul(a.n, b.d, 0x1000000, 256);
    lemma_abs_mul(b.n, a.d, 0x1000000, 256);
    lemma_abs_mul(a.n, b.n, 0x1000000, 0x1000000);
    lemma_abs_mul(a.d, b.n, 256, 0x1000000);
    lemma_abs_mul(a.d, b.d, 256, 256);
}

/// From interval bounds on two fractions, the products of an exact sum or
/// difference fit, with interval bounds on the result.
pub proof fn lemma_fits_add(a: Frac, b: Frac, na: int, da: int, nb: int, db: int)
    requires
        -na <= a.n <= na,
        0 < a.d <= da,
        -nb <= b.n <= nb,
        0 < b.d <= db,
        na * db + nb * da <= 0x7fff_ffff_ffff_ffff_ffff_ffff_ffff_ffff,
        da * db <= 0x7fff_ffff_ffff_ffff_ffff_ffff_ffff_ffff,
    ensures
        add_fits(a, b),
        -(na * db + nb * da) <= frac_add(a, b).n <= na * db + nb * da,
        -(na * db + nb * da) <= frac_sub(a, b).n <= na * db + nb * da,
        0 < frac_add(a, b).d <= da * db,
        frac_add(a, b).d == frac_sub(a, b).d,
{
    lemma_abs_mul(a.n, b.d, na, db);
    lemma_abs_mul(b.n, a.d, nb, da);
    lemma_abs_mul(a.d, b.d, da, db);
    lemma_pos_mul_pos(a.d, b.d);
}

/// From interval bounds on two fractions, the products of an exact product
/// fit, with interval bounds on the result.
pub proof fn lemma_fits_mul(a: Frac, b: Frac, na: int, da: int, nb: int, db: int)
    requires
        -na <= a.n <= na,
        0 < a.d <= da,
        -nb <= b.n <= nb,
        0 < b.d <= db,
        na * nb <= 0x7fff_ffff_ffff_ffff_ffff_ffff_ffff_ffff,
        da * db <= 0x7fff_ffff_ffff_ffff_ffff_ffff_ffff_ffff,
    ensures
        mul_fits(a, b),
        -(na * nb) <= frac_mul(a, b).n <= na * nb,
        0 < frac_mul(a, b).d <= da * db,
{
    lemma_abs_mul(a.n, b.n, na, nb);
    lemma_abs_mul(a.d, b.d, da, db);
    lemma_pos_mul_pos(a.d, b.d);
}

/// From interval bounds on two fractions, the cross products comparing them
/// fit.
pub proof fn lemma_fits_cmp(a: Frac, b: Frac, na: int, da: int, nb: int, db: int)
    requires
        -na <= a.n <= na,
        0 < a.d <= da,
        -nb <= b.n <= nb,
        0 < b.d <= db,
        na * db <= 0x7fff_ffff_ffff_ffff_ffff_ffff_ffff_ffff,
        nb * da <= 0x7fff_ffff_ffff_ffff_ffff_ffff_ffff_ffff,
    ensures
        cmp_fits(a, b),
{
    lemma_abs_mul(a.n, b.d, na, db);
    lemma_abs_mul(b.n, a.d, nb, da);
}

/// A product of positives is positive.
pub proof fn lemma_pos_mul_pos(x: int, y: int)
    by (nonlinear_arith)
    requires
        x > 0,
        y > 0,
    ensures
        x * y > 0,
{
}

/// A positive times a negative is negative.
pub proof fn lemma_pos_mul_neg(x: int, y: int)
    by (nonlinear_arith)
    requires
        x > 0,
        y < 0,
    ensures
        x * y < 0,
{
}

/// An exact rational number: `num / den` with `den > 0`.
#[derive(Clone, Copy, PartialEq, Eq, Structural, Debug)]
pub struct Scalar {
    pub num: i128,
    pub den: i128,
}

impl View for Scalar {
    type V = Frac;

    open spec fn view(&self) -> Frac {
        Frac { n: self.num as int, d: self.den as int }
    }
}

impl Scalar {
    /// The denominator is positive.
    pub open spec fn wf(self) -> bool {
        self.den > 0
    }

    /// Builds `num / den`, moving the sign of `den` into the numerator.
    pub fn new(num: i128, den: i128) -> (r: Scalar)
        requires
            den != 0,
            sym_i128(num as int),
            sym_i128(den as int),
        ensures
            r.wf(),
            r@ == (if den > 0 {
                Frac { n: num as int, d: den as int }
            } else {
                Frac { n: -(num as int), d: -(den as int) }
            }),
    {
        if den > 0 {
            Scalar { num, den }
        } else {
            Scalar { num: -num, den: -den }
        }
    }

    /// The scalar with integer value `i`.
    pub fn from_int(i: i128) -> (r: Scalar)
        ensures
            r.wf(),
            r@ == frac_int(i as int),
    {
        Scalar { num: i, den: 1 }
    }

    /// Exact sum.
    pub fn add(self, other: Scalar) -> (r: Scalar)
        requires
            self.wf(),
            other.wf(),
            add_fits(self@, other@),
        ensures
            r.wf(),
            r@ == frac_add(self@, other@),
    {
        proof {
            lemma_pos_mul_pos(self@.d, other@.d);
        }
        Scalar { num: self.num * other.den + other.num * self.den, den: self.den * other.den }
    }

    /// Exact difference.
    pub fn sub(self, other: Scalar) -> (r: Scalar)
        requires
            self.wf(),
            other.wf(),
            add_fits(self@, other@),
        ensures
            r.wf(),
            r@ == frac_sub(self@, other@),
    {
        proof {
            lemma_pos_mul_pos(self@.d, other@.d);
        }
        Scalar { num: self.num * other.den - other.num * self.den, den: self.den * other.den }
    }

    /// Exact product.
    pub fn mul(self, other: Scalar) -> (r: Scalar)
        requires
            self.wf(),
            other.wf(),
            mul_fits(self@, other@),
        ensures
            r.wf(),
            r@ == frac_mul(self@, other@),
    {
        proof {
            lemma_pos_mul_pos(self@.d, other@.d);
        }
        Scalar { num: self.num * other.num, den: self.den * other.den }
    }

    /// Exact quotient; the divisor must be nonzero.
    pub fn div(self, other: Scalar) -> (r: Scalar)
        requires
            self.wf(),
            other.wf(),
            other@.n != 0,
            div_fits(self@, other@),
        ensures
            r.wf(),
            r@ == frac_div(self@, other@),
    {
        if other.num >= 0 {
            proof {
                lemma_pos_mul_pos(self@.d, other@.n);
            }
            Scalar { num: self.num * other.den, den: self.den * other.num }
        } else {
            proof {
                lemma_pos_mul_neg(self@.d, other@.n);
            }
            Scalar { num: -(self.num * other.den), den: -(self.den * other.num) }
        }
    }

    /// Exact negation.
    pub fn neg(self) -> (r: Scalar)
        requires
            self.wf(),
            sym_i128(self@.n),
        ensures
            r.wf(),
            r@ == frac_neg(self@),
    {
        Scalar { num: -self.num, den: self.den }
    }

    /// Exact halving.
    pub fn half(self) -> (r: Scalar)
        requires
            self.wf(),
            sym_i128(2 * self@.d),
        ensures
            r.wf(),
            r@ == frac_half(self@),
    {
        Scalar { num: self.num, den: 2 * self.den }
    }

    /// Exact comparison `self <= other`.
    pub fn le(self, other: Scalar) -> (r: bool)
        requires
            self.wf(),
            other.wf(),
            cmp_fits(self@, other@),
        ensures
            r == frac_le(self@, other@),
    {
        self.num * other.den <= other.num * self.den
    }

    /// Exact comparison `self < other`.
    pub fn lt(self, other: Scalar) -> (r: bool)
        requires
            self.wf(),
            other.wf(),
            cmp_fits(self@, other@),
        ensures
            r == frac_lt(self@, other@),
    {
        self.num * other.den < other.num * self.den
    }

    /// Exact equality of values (the representations may differ).
    pub fn eq_val(self, other: Scalar) -> (r: bool)
        requires
            self.wf(),
            other.wf(),
            cmp_fits(self@, other@),
        ensures
            r == frac_eqv(self@, other@),
    {
        self.num * other.den == other.num * self.den
    }

    /// The representation of the larger value (`other` on ties).
    pub fn max_val(self, other: Scalar) -> (r: Scalar)
        requires
            self.wf(),
            other.wf(),
            cmp_fits(self@, other@),
        ensures
            r == (if frac_le(self@, other@) { other } else { self }),
            r.wf(),
    {
        if self.le(other) {
            other
        } else {
            self
        }
    }

    /// The representation of the smaller value (`other` on ties).
    pub fn min_val(self, other: Scalar) -> (r: Scalar)
        requires
            self.wf(),
            other.wf(),
            cmp_fits(self@, other@),
        ensures
            r == (if frac_le(other@, self@) { other } else { self }),
            r.wf(),
    {
        if other.le(self) {
            other
        } else {
            self
        }
    }

    /// Whether the value is zero.
    pub fn is_zero(self) -> (r: bool)
        requires
            self.wf(),
        ensures
            r == (self@.n == 0),
    {
        self.num == 0
    }

    /// The value as a count of 1/256 grid units, exact for scalars on the
    /// grid.
    pub fn to_grid(self) -> (g: i128)
        requires
            self.wf(),
            in_bounds(self@),
        ensures
            g as int == grid_of(self@),
            -0x1000000 <= g <= 0x1000000,
    {
        proof {
            lemma_grid_mul_fits(self@);
        }
        self.num * (256 / self.den)
    }

    /// The scalar with value `g / 256` grid units.
    pub fn from_grid(g: i128) -> (r: Scalar)
        requires
            -0x1000000 <= g <= 0x1000000,
        ensures
            r.wf(),
            r@ == (Frac { n: g as int, d: 256 }),
            in_bounds(r@),
            grid_of(r@) == g as int,
    {
        proof {
            assert(256int / 256int == 1 && 256int % 256int == 0) by (nonlinear_arith);
            vstd::arithmetic::mul::lemma_mul_basics(g as int);
        }
        Scalar { num: g, den: 256 }
    }
}

/// The product a grid conversion forms fits in `i128`, and the numerator is
/// itself bounded by the grid bound.
pub proof fn lemma_grid_mul_fits(f: Frac)
    by (nonlinear_arith)
    requires
        in_bounds(f),
    ensures
        -0x1000000 <= f.n * (256int / f.d) <= 0x1000000,
        -0x1000000 <= f.n <= 0x1000000,
        sym_i128(f.n * (256int / f.d)),
{
}

} // verus!
