//! 2D vectors over exact rational scalars.

use vstd::prelude::*;
use crate::scalar::{
    Scalar, Frac, frac_add, frac_sub, frac_mul, frac_neg, frac_int,
    add_fits, mul_fits, sym_i128, lemma_pos_mul_pos,
};
use crate::sqrt::{sqrt_floor, lemma_sqrt_floor_bounds, isqrt};

verus! {

/// Which side of one vector another lies on, by the sign of the 2D cross
/// product `x1*y2 - y1*x2`: positive means `Clockwise`, negative
/// `Counterclockwise`, zero `Collinear`. The naming is a fixed convention of
/// this library, not a geometric universal.
#[derive(Clone, Copy, PartialEq, Eq, Structural, Debug)]
pub enum Orientation {
    Collinear,
    Clockwise,
    Counterclockwise,
}

/// A 2D coordinate or displacement.
#[derive(Clone, Copy, PartialEq, Eq, Structural, Debug)]
pub struct Vector(pub Scalar, pub Scalar);

/// The vector whose components represent the given pair of fractions,
/// for stating what a computed point is; meaningful when both fractions fit
/// in `i128`.
pub open spec fn vec_from_fracs(m: Option<(Frac, Frac)>) -> Option<Vector> {
    match m {
        None => None,
        Some((fx, fy)) => Some(
            Vector(
                Scalar { num: fx.n as i128, den: fx.d as i128 },
                Scalar { num: fy.n as i128, den: fy.d as i128 },
            ),
        ),
    }
}

/// The cross product numerator `x1*y2 - y1*x2` as a fraction.
pub open spec fn cross_frac(a: Vector, b: Vector) -> Frac {
    frac_sub(frac_mul(a.0@, b.1@), frac_mul(a.1@, b.0@))
}

/// The dot product `x1*x2 + y1*y2` as a fraction.
pub open spec fn dot_frac(a: Vector, b: Vector) -> Frac {
    frac_add(frac_mul(a.0@, b.0@), frac_mul(a.1@, b.1@))
}

/// Numerator of the squared magnitude over the common denominator
/// `(x.d * y.d)^2`.
pub open spec fn norm_num(v: Vector) -> int {
    (v.0@.n * v.1@.d) * (v.0@.n * v.1@.d) + (v.1@.n * v.0@.d) * (v.1@.n * v.0@.d)
}

/// The magnitude this library computes: the floor square root of the squared
/// magnitude on a 1/256 grid of the common denominator. It equals the true
/// magnitude whenever that is representable on the grid, and is zero exactly
/// when the vector is zero.
pub open spec fn size_frac(v: Vector) -> Frac {
    Frac { n: sqrt_floor(norm_num(v) * 65536), d: v.0@.d * v.1@.d * 256 }
}

/// The products `size` forms fit in `i128`.
pub open spec fn size_fits(v: Vector) -> bool {
    &&& -0x20000000000000 <= v.0@.n * v.1@.d <= 0x20000000000000  // 2^53
    &&& -0x20000000000000 <= v.1@.n * v.0@.d <= 0x20000000000000
    &&& sym_i128(v.0@.d * v.1@.d * 256)
}

/// The products `normalize` forms fit in `i128`.
pub open spec fn normalize_fits(v: Vector) -> bool {
    &&& size_fits(v)
    &&& sym_i128(v.0@.n * size_frac(v).d)
    &&& sym_i128(v.1@.n * size_frac(v).d)
    &&& sym_i128(v.0@.d * size_frac(v).n)
    &&& sym_i128(v.1@.d * size_frac(v).n)
}

impl Vector {
    /// Both components have positive denominators.
    pub open spec fn wf(self) -> bool {
        self.0.wf() && self.1.wf()
    }

    /// Euclidean magnitude, rounded down to the 1/256 grid of the common
    /// denominator; zero exactly when the vector is zero.
    pub fn size(&self) -> (r: Scalar)
        requires
            self.wf(),
            size_fits(*self),
        ensures
            r.wf(),
            r@ == size_frac(*self),
            r@.n == 0 <==> (self.0@.n == 0 && self.1@.n == 0),
    {
        let a = self.0.num * self.1.den;
        let b = self.1.num * self.0.den;
        proof {
            assert(a * a <= 0x400000000000000000000000000
                && b * b <= 0x400000000000000000000000000
                && a * a >= 0 && b * b >= 0) by (nonlinear_arith)
                requires
                    -0x20000000000000 <= (a as int) <= 0x20000000000000,
                    -0x20000000000000 <= (b as int) <= 0x20000000000000,
            ;
        }
        let k = a * a + b * b;
        let arg = k * 65536;
        let s = isqrt(arg as u128);
        proof {
            assert((s as int) < 0x4000000000000000000000000000000) by (nonlinear_arith)
                requires
                    (s as int) >= 0,
                    (s as int) * (s as int) <= (arg as int),
                    (arg as int) < 0x10000000000000000000000000000000,
            ;
            lemma_pos_mul_pos(self.0@.d, self.1@.d);
            assert(self.0@.d * self.1@.d <= self.0@.d * self.1@.d * 256) by (nonlinear_arith)
                requires
                    self.0@.d * self.1@.d > 0,
            ;
            if (k as int) != 0 {
                assert((s as int) >= 256) by (nonlinear_arith)
                    requires
                        (s as int) >= 0,
                        (arg as int) < ((s as int) + 1) * ((s as int) + 1),
                        (arg as int) >= 65536,
                ;
            }
            if (a as int) != 0 || (b as int) != 0 {
                assert((k as int) >= 1) by (nonlinear_arith)
                    requires
                        (k as int) == (a as int) * (a as int) + (b as int) * (b as int),
                        (a as int) != 0 || (b as int) != 0,
                ;
            }
            if self.0@.n != 0 {
                assert((a as int) != 0) by (nonlinear_arith)
                    requires
                        (a as int) == self.0@.n * self.1@.d,
                        self.0@.n != 0,
                        self.1@.d > 0,
                ;
            }
            if self.1@.n != 0 {
                assert((b as int) != 0) by (nonlinear_arith)
                    requires
                        (b as int) == self.1@.n * self.0@.d,
                        self.1@.n != 0,
                        self.0@.d > 0,
                ;
            }
            if self.0@.n == 0 && self.1@.n == 0 {
                assert((a as int) == 0 && (b as int) == 0) by (nonlinear_arith)
                    requires
                        (a as int) == self.0@.n * self.1@.d,
                        (b as int) == self.1@.n * self.0@.d,
                        self.0@.n == 0,
                        self.1@.n == 0,
                ;
                assert((k as int) == 0) by (nonlinear_arith)
                    requires
                        (k as int) == (a as int) * (a as int) + (b as int) * (b as int),
                        (a as int) == 0,
                        (b as int) == 0,
                ;
            }
        }
        let d = self.0.den * self.1.den * 256;
        Scalar { num: s as i128, den: d }
    }

    /// Scales the vector to unit magnitude, using the grid magnitude that
    /// `size` reports; a zero vector is left unchanged.
    pub fn normalize(&mut self)
        requires
            old(self).wf(),
            normalize_fits(*old(self)),
        ensures
            final(self).wf(),
            size_frac(*old(self)).n == 0 ==> *final(self) == *old(self),
            size_frac(*old(self)).n != 0 ==> {
                let rec = Frac { n: size_frac(*old(self)).d, d: size_frac(*old(self)).n };
                &&& final(self).0@ == frac_mul(old(self).0@, rec)
                &&& final(self).1@ == frac_mul(old(self).1@, rec)
            },
    {
        let sz = self.size();
        proof {
            assert(norm_num(*self) * 65536 >= 0) by (nonlinear_arith);
            lemma_sqrt_floor_bounds(norm_num(*self) * 65536);
        }
        if sz.num != 0 {
            let rec = Scalar { num: sz.den, den: sz.num };
            self.scale(rec);
        }
    }

    /// Component-wise in-place sum.
    pub fn add(&mut self, a: &Vector)
        requires
            old(self).wf(),
            a.wf(),
            add_fits(old(self).0@, a.0@),
            add_fits(old(self).1@, a.1@),
        ensures
            final(self).wf(),
            final(self).0@ == frac_add(old(self).0@, a.0@),
            final(self).1@ == frac_add(old(self).1@, a.1@),
    {
        self.0 = self.0.add(a.0);
        self.1 = self.1.add(a.1);
    }

    /// Component-wise in-place difference.
    pub fn sub(&mut self, a: &Vector)
        requires
            old(self).wf(),
            a.wf(),
            add_fits(old(self).0@, a.0@),
            add_fits(old(self).1@, a.1@),
        ensures
            final(self).wf(),
            final(self).0@ == frac_sub(old(self).0@, a.0@),
            final(self).1@ == frac_sub(old(self).1@, a.1@),
    {
        self.0 = self.0.sub(a.0);
        self.1 = self.1.sub(a.1);
    }

    /// Pure difference, leaving the operand unchanged.
    pub fn clone_sub(&self, a: &Vector) -> (r: Vector)
        requires
            self.wf(),
            a.wf(),
            add_fits(self.0@, a.0@),
            add_fits(self.1@, a.1@),
        ensures
            r.wf(),
            r.0@ == frac_sub(self.0@, a.0@),
            r.1@ == frac_sub(self.1@, a.1@),
    {
        let mut result = self.clone();
        result.sub(a);
        result
    }

    /// Pure sum, leaving the operand unchanged.
    pub fn clone_add(&self, a: &Vector) -> (r: Vector)
        requires
            self.wf(),
            a.wf(),
            add_fits(self.0@, a.0@),
            add_fits(self.1@, a.1@),
        ensures
            r.wf(),
            r.0@ == frac_add(self.0@, a.0@),
            r.1@ == frac_add(self.1@, a.1@),
    {
        let mut result = self.clone();
        result.add(a);
        result
    }

    /// Pure scaling, leaving the operand unchanged.
    pub fn clone_scale(&self, s: Scalar) -> (r: Vector)
        requires
            self.wf(),
            s.wf(),
            mul_fits(self.0@, s@),
            mul_fits(self.1@, s@),
        ensures
            r.wf(),
            r.0@ == frac_mul(self.0@, s@),
            r.1@ == frac_mul(self.1@, s@),
    {
        let mut result = self.clone();
        result.scale(s);
        result
    }

    /// In-place scaling of both components by `s`.
    pub fn scale(&mut self, s: Scalar)
        requires
            old(self).wf(),
            s.wf(),
            mul_fits(old(self).0@, s@),
            mul_fits(old(self).1@, s@),
        ensures
            final(self).wf(),
            final(self).0@ == frac_mul(old(self).0@, s@),
            final(self).1@ == frac_mul(old(self).1@, s@),
    {
        self.0 = self.0.mul(s);
        self.1 = self.1.mul(s);
    }

    /// In-place negation of both components.
    pub fn invert(&mut self)
        requires
            old(self).wf(),
            sym_i128(old(self).0@.n),
            sym_i128(old(self).1@.n),
        ensures
            final(self).wf(),
            final(self).0@ == frac_neg(old(self).0@),
            final(self).1@ == frac_neg(old(self).1@),
    {
        self.0 = self.0.neg();
        self.1 = self.1.neg();
    }

    /// Exact dot product.
    pub fn dot(&self, d: &Vector) -> (r: Scalar)
        requires
            self.wf(),
            d.wf(),
            mul_fits(self.0@, d.0@),
            mul_fits(self.1@, d.1@),
            add_fits(frac_mul(self.0@, d.0@), frac_mul(self.1@, d.1@)),
        ensures
            r.wf(),
            r@ == dot_frac(*self, *d),
    {
        self.0.mul(d.0).add(self.1.mul(d.1))
    }

    /// Orientation of `d` relative to `self`, by the exact sign of the cross
    /// product.
    pub fn cross(&self, d: &Vector) -> (r: Orientation)
        requires
            self.wf(),
            d.wf(),
            mul_fits(self.0@, d.1@),
            mul_fits(self.1@, d.0@),
            add_fits(frac_mul(self.0@, d.1@), frac_mul(self.1@, d.0@)),
        ensures
            r == (if cross_frac(*self, *d).n > 0 {
                Orientation::Clockwise
            } else if cross_frac(*self, *d).n < 0 {
                Orientation::Counterclockwise
            } else {
                Orientation::Collinear
            }),
    {
        let val = self.0.mul(d.1).sub(self.1.mul(d.0));
        if val.num > 0 {
            Orientation::Clockwise
        } else if val.num < 0 {
            Orientation::Counterclockwise
        } else {
            Orientation::Collinear
        }
    }
}

impl Default for Vector {
    /// The zero vector.
    fn default() -> (r: Vector)
        ensures
            r.wf(),
            r.0@ == frac_int(0),
            r.1@ == frac_int(0),
    {
        Vector(Scalar::from_int(0), Scalar::from_int(0))
    }
}

} // verus!
