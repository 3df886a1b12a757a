//! The collision engine: predicting when two moving shapes first touch.
//!
//! Positions, velocities and extents are read off on the 1/256 grid, the
//! sweep equations are solved exactly over integers, and the only rounding
//! in the whole engine is the floor square root of the circle sweep's
//! discriminant, taken on a further 1/256 scale. Every contract states the
//! produced value exactly.

use vstd::prelude::*;
use crate::scalar::{
    Scalar, Frac, frac_int, frac_add, frac_mul, frac_half, frac_le, frac_lt,
    in_bounds, grid_of, scalar_of, sym_i128, add_fits, mul_fits, cmp_fits,
    lemma_abs_mul, lemma_fits_add, lemma_fits_mul, lemma_fits_cmp,
};
use crate::sqrt::{sqrt_floor, isqrt};
use crate::vector::Vector;
use crate::range::Range;
use crate::frame::{Frame, frames_intersect};
use crate::circle::Circle;
use crate::rectangle::Rectangle;
use crate::shape::{Shape, vadd_model};

verus! {

/// A predicted contact: where it happens and in how much time from now.
#[derive(Clone, Copy, PartialEq, Eq, Structural, Debug)]
pub struct Collision {
    pub location: Vector,
    pub time_offset: Scalar,
}

/// A moving object: a shape with a constant velocity, optionally tagged with
/// an identifier.
#[derive(Clone, Copy, PartialEq, Eq, Structural, Debug)]
pub struct PhysObj {
    pub id: Option<usize>,
    pub shape: Shape,
    pub velosity: Vector,
}

/// The three ways a prediction can come out: a contact was found, no contact
/// will happen (proven, or degenerate relative motion), or the shape pairing
/// is not implemented — which is not the same as proven non-colliding.
#[derive(Clone, Copy, PartialEq, Eq, Structural, Debug)]
pub enum Prediction {
    Contact(Collision),
    NoContact,
    Unsupported,
}

/// The fraction `n / d` with the sign moved into the numerator, as
/// `Scalar::new` builds it.
pub open spec fn norm_frac(n: int, d: int) -> Frac {
    if d > 0 {
        Frac { n: n, d: d }
    } else {
        Frac { n: -n, d: -d }
    }
}

/// The two roots the quadratic solver reports for `a*t^2 + b*t + c = 0`,
/// ordered by the sign of `a`: nothing when the discriminant is negative or
/// the leading coefficient is zero (degenerate); otherwise
/// `(-b -/+ sqrt(disc)) / (2a)`, with the square root taken as its floor on
/// a 1/256 scale.
pub open spec fn equasion_model(a: int, b: int, c: int) -> Option<(Frac, Frac)> {
    let disc = b * b - 4 * a * c;
    if disc < 0 || a == 0 {
        None
    } else {
        let s = sqrt_floor(disc * 65536);
        let q = 2 * a * 256;
        Some((norm_frac(-b * 256 - s, q), norm_frac(-b * 256 + s, q)))
    }
}

/// The collision built from a (location x, location y, time) triple.
pub open spec fn collision_of(m: (Frac, Frac, Frac)) -> Collision {
    Collision {
        location: Vector(scalar_of(m.0), scalar_of(m.1)),
        time_offset: scalar_of(m.2),
    }
}

/// The circle sweep. With `dp` the center offset, `dv` the relative
/// velocity and `r` the radius sum (all in grid units), the circles touch
/// when `|dp + dv*t| = r`, a quadratic in `t`. The earliest nonnegative
/// root is chosen (the second root when the first lies in the past); the
/// contact point is the midpoint of the two centers advanced to that time.
pub open spec fn circle_model(c1: Circle, v1: Vector, c2: Circle, v2: Vector) -> Option<
    (Frac, Frac, Frac),
> {
    let ax = grid_of(c1.location.0@);
    let ay = grid_of(c1.location.1@);
    let bx = grid_of(c2.location.0@);
    let by = grid_of(c2.location.1@);
    let vax = grid_of(v1.0@);
    let vay = grid_of(v1.1@);
    let vbx = grid_of(v2.0@);
    let vby = grid_of(v2.1@);
    let rr = grid_of(c1.radius@) + grid_of(c2.radius@);
    let dpx = bx - ax;
    let dpy = by - ay;
    let dvx = vbx - vax;
    let dvy = vby - vay;
    let qa = dvx * dvx + dvy * dvy;
    let qb = 2 * (dpx * dvx + dpy * dvy);
    let qc = dpx * dpx + dpy * dpy - rr * rr;
    match equasion_model(qa, qb, qc) {
        None => None,
        Some((t1, t2)) => {
            let t = if t1.n >= 0 {
                t1
            } else if t2.n >= 0 {
                t2
            } else {
                Frac { n: -1, d: 1 }
            };
            if t.n >= 0 {
                Some(
                    (
                        Frac { n: (ax + bx) * t.d + (vax + vbx) * t.n, d: 512 * t.d },
                        Frac { n: (ay + by) * t.d + (vay + vby) * t.n, d: 512 * t.d },
                        t,
                    ),
                )
            } else {
                None
            }
        },
    }
}

/// The vector scaled component-wise by `s`, with the exact representations
/// `clone_scale` produces.
pub open spec fn vscale_model(v: Vector, s: Scalar) -> Vector {
    Vector(scalar_of(frac_mul(v.0@, s@)), scalar_of(frac_mul(v.1@, s@)))
}

/// The frame of `r` translated by `v * t`, with the exact representations
/// the engine's shift-then-frame chain produces.
pub open spec fn moved_frame_model(r: Rectangle, v: Vector, t: Scalar) -> Frame {
    let moved = Rectangle {
        location: vadd_model(r.location, vscale_model(v, t)),
        dementions: r.dementions,
    };
    moved.to_frame_model()
}

/// The overlap box of two intersecting frames, with the representations
/// `Frame::intercect` picks.
pub open spec fn intercect_model(a: Frame, b: Frame) -> Frame {
    Frame {
        from: Vector(
            if frac_le(a.from.0@, b.from.0@) { b.from.0 } else { a.from.0 },
            if frac_le(a.from.1@, b.from.1@) { b.from.1 } else { a.from.1 },
        ),
        to: Vector(
            if frac_le(b.to.0@, a.to.0@) { b.to.0 } else { a.to.0 },
            if frac_le(b.to.1@, a.to.1@) { b.to.1 } else { a.to.1 },
        ),
    }
}

/// The window of times at which one axis's projections overlap:
/// `|dp + dv*t| <= h` gives `t` between `(-h - dp) / dv` and
/// `(h - dp) / dv`, reordered to a nonempty interval. A zero relative
/// velocity on the axis yields no finite window, so the whole pair is
/// reported as non-colliding even if the projections always overlap there.
/// Arguments are in half-grid (1/512) units.
pub open spec fn axis_window_model(dp: int, dv: int, h: int) -> Option<(Frac, Frac)> {
    if dv == 0 {
        None
    } else {
        let t1 = norm_frac(-h - dp, dv);
        let t2 = norm_frac(h - dp, dv);
        if frac_lt(t1, t2) {
            Some((t1, t2))
        } else {
            Some((t2, t1))
        }
    }
}

/// The rectangle sweep. Each axis contributes a time window; their
/// intersection, with its start clamped to now (so a reported contact never
/// lies in the past), gives the candidate time. The moved frames are then
/// intersected again as a spatial re-validation, and the contact point is
/// the center of their overlap.
pub open spec fn rect_model(r1: Rectangle, v1: Vector, r2: Rectangle, v2: Vector) -> Option<
    (Frac, Frac, Frac),
> {
    let dpx = 2 * (grid_of(r2.location.0@) - grid_of(r1.location.0@));
    let dpy = 2 * (grid_of(r2.location.1@) - grid_of(r1.location.1@));
    let dvx = 2 * (grid_of(v2.0@) - grid_of(v1.0@));
    let dvy = 2 * (grid_of(v2.1@) - grid_of(v1.1@));
    let hx = grid_of(r1.dementions.0@) + grid_of(r2.dementions.0@);
    let hy = grid_of(r1.dementions.1@) + grid_of(r2.dementions.1@);
    match (axis_window_model(dpx, dvx, hx), axis_window_model(dpy, dvy, hy)) {
        (Some((sx, ex)), Some((sy, ey))) => {
            let st = if frac_le(sx, sy) { sy } else { sx };
            let en = if frac_le(ey, ex) { ey } else { ex };
            if frac_le(st, en) {
                let tz = if frac_le(st, frac_int(0)) { frac_int(0) } else { st };
                if frac_le(tz, en) {
                    let t = scalar_of(tz);
                    let m1 = moved_frame_model(r1, v1, t);
                    let m2 = moved_frame_model(r2, v2, t);
                    if frames_intersect(m1, m2) {
                        let ov = intercect_model(m1, m2);
                        Some(
                            (
                                frac_half(frac_add(ov.from.0@, ov.to.0@)),
                                frac_half(frac_add(ov.from.1@, ov.to.1@)),
                                tz,
                            ),
                        )
                    } else {
                        None
                    }
                } else {
                    None
                }
            } else {
                None
            }
        },
        _ => None,
    }
}

impl PhysObj {
    /// Every scalar of the object is well formed.
    pub open spec fn wf(self) -> bool {
        self.shape.wf() && self.velosity.wf()
    }

    /// Every scalar of the object lies on the 1/256 grid within the solver
    /// bound.
    pub open spec fn in_grid(self) -> bool {
        self.shape.in_grid() && in_bounds(self.velosity.0@) && in_bounds(self.velosity.1@)
    }

    /// Quadratic solver on the cleared integer coefficients, as
    /// `equasion_model` states it; the first root is the smaller one when
    /// the leading coefficient is positive.
    fn equasion(a: i128, b: i128, c: i128) -> (r: Option<(Scalar, Scalar)>)
        requires
            -0x8000000000000 <= a <= 0x8000000000000,  // 2^51
            -0x10000000000000 <= b <= 0x10000000000000,  // 2^52
            -0x10000000000000 <= c <= 0x10000000000000,
        ensures
            r is Some <==> equasion_model(a as int, b as int, c as int) is Some,
            r matches Some((t1, t2)) ==> {
                let m = equasion_model(a as int, b as int, c as int)->Some_0;
                t1@ == m.0 && t2@ == m.1 && t1.wf() && t2.wf()
            },
    {
        proof {
            lemma_abs_mul(b as int, b as int, 0x10000000000000, 0x10000000000000);
            lemma_abs_mul(4 * a, c as int, 0x20000000000000, 0x10000000000000);
        }
        let d = b * b - 4 * a * c;
        if d < 0 || a == 0 {
            return None;
        }
        let su = isqrt((d * 65536) as u128);
        proof {
            assert((su as int) * (su as int) <= 0x400000000000000000000000000000000
                && (su as int) <= 0x2000000000000000) by (nonlinear_arith)
                requires
                    (su as int) >= 0,
                    (su as int) * (su as int) <= (d as int) * 65536,
                    (d as int) * 65536 <= 0x4000000000000000000000000000000,  // 2^122
            ;
        }
        let s = su as i128;
        let q = 2 * a * 256;
        Some((Scalar::new(-b * 256 - s, q), Scalar::new(-b * 256 + s, q)))
    }

    /// The circle sweep, as `circle_model` states it.
    fn circle_vs_circle(c1: &Circle, v1: &Vector, c2: &Circle, v2: &Vector) -> (r: Option<
        Collision,
    >)
        requires
            c1.wf(),
            c2.wf(),
            v1.wf(),
            v2.wf(),
            in_bounds(c1.location.0@),
            in_bounds(c1.location.1@),
            in_bounds(c1.radius@),
            in_bounds(c2.location.0@),
            in_bounds(c2.location.1@),
            in_bounds(c2.radius@),
            in_bounds(v1.0@),
            in_bounds(v1.1@),
            in_bounds(v2.0@),
            in_bounds(v2.1@),
        ensures
            r == (match circle_model(*c1, *v1, *c2, *v2) {
                None => None::<Collision>,
                Some(m) => Some(collision_of(m)),
            }),
            r matches Some(col) ==> col.time_offset@.n >= 0 && col.time_offset.wf()
                && col.location.wf(),
    {
        let ax = c1.location.0.to_grid();
        let ay = c1.location.1.to_grid();
        let bx = c2.location.0.to_grid();
        let by = c2.location.1.to_grid();
        let vax = v1.0.to_grid();
        let vay = v1.1.to_grid();
        let vbx = v2.0.to_grid();
        let vby = v2.1.to_grid();
        let rr = c1.radius.to_grid() + c2.radius.to_grid();
        let dpx = bx - ax;
        let dpy = by - ay;
        let dvx = vbx - vax;
        let dvy = vby - vay;
        proof {
            lemma_abs_mul(dvx as int, dvx as int, 0x2000000, 0x2000000);
            lemma_abs_mul(dvy as int, dvy as int, 0x2000000, 0x2000000);
            lemma_abs_mul(dpx as int, dvx as int, 0x2000000, 0x2000000);
            lemma_abs_mul(dpy as int, dvy as int, 0x2000000, 0x2000000);
            lemma_abs_mul(dpx as int, dpx as int, 0x2000000, 0x2000000);
            lemma_abs_mul(dpy as int, dpy as int, 0x2000000, 0x2000000);
            lemma_abs_mul(rr as int, rr as int, 0x2000000, 0x2000000);
        }
        let qa = dvx * dvx + dvy * dvy;
        let qb = 2 * (dpx * dvx + dpy * dvy);
        let qc = dpx * dpx + dpy * dpy - rr * rr;
        let res = PhysObj::equasion(qa, qb, qc);
        match res {
            Some((t1, t2)) => {
                let t = if t1.num >= 0 {
                    t1
                } else if t2.num >= 0 {
                    t2
                } else {
                    return None;
                };
                proof {
                    assert((qa as int) >= 0) by (nonlinear_arith)
                        requires
                            (qa as int) == (dvx as int) * (dvx as int) + (dvy as int) * (dvy as int),
                    ;
                    lemma_circle_root_bounds(qa as int, qb as int, qc as int);
                    lemma_abs_mul((ax + bx) as int, t@.d, 0x2000000, 0x20000000000000000);
                    lemma_abs_mul((vax + vbx) as int, t@.n, 0x2000000, 0x40000000000000000);
                    lemma_abs_mul((ay + by) as int, t@.d, 0x2000000, 0x20000000000000000);
                    lemma_abs_mul((vay + vby) as int, t@.n, 0x2000000, 0x40000000000000000);
                }
                let lxn = (ax + bx) * t.den + (vax + vbx) * t.num;
                let lyn = (ay + by) * t.den + (vay + vby) * t.num;
                let ld = 512 * t.den;
                Some(
                    Collision {
                        location: Vector(
                            Scalar { num: lxn, den: ld },
                            Scalar { num: lyn, den: ld },
                        ),
                        time_offset: t,
                    },
                )
            },
            None => None,
        }
    }
}

/// The pairings the engine implements: circle against circle and rectangle
/// against rectangle.
pub open spec fn supported_pair(a: Shape, b: Shape) -> bool {
    ||| (a is Circle && b is Circle)
    ||| (a is Rectangle && b is Rectangle)
}

/// The engine's answer for a pair of moving objects: the appropriate sweep
/// for a supported pairing, nothing otherwise.
pub open spec fn predict_model(a: PhysObj, b: PhysObj) -> Option<(Frac, Frac, Frac)> {
    match (a.shape, b.shape) {
        (Shape::Circle(c1), Shape::Circle(c2)) => circle_model(c1, a.velosity, c2, b.velosity),
        (Shape::Rectangle(r1), Shape::Rectangle(r2)) => rect_model(
            r1,
            a.velosity,
            r2,
            b.velosity,
        ),
        _ => None,
    }
}

impl PhysObj {
    /// The three-way prediction: dispatches on the pair of shape kinds and
    /// distinguishes an unsupported pairing from a proven or degenerate
    /// absence of contact. A reported contact never lies in the past.
    pub fn predict(a: &PhysObj, b: &PhysObj) -> (r: Prediction)
        requires
            a.wf(),
            b.wf(),
            a.in_grid(),
            b.in_grid(),
        ensures
            !supported_pair(a.shape, b.shape) ==> r == Prediction::Unsupported,
            supported_pair(a.shape, b.shape) ==> r == (match predict_model(*a, *b) {
                None => Prediction::NoContact,
                Some(m) => Prediction::Contact(collision_of(m)),
            }),
            r matches Prediction::Contact(col) ==> col.time_offset@.n >= 0
                && col.time_offset.wf() && col.location.wf(),
    {
        match (&a.shape, &b.shape) {
            (Shape::Circle(c1), Shape::Circle(c2)) => {
                match PhysObj::circle_vs_circle(c1, &a.velosity, c2, &b.velosity) {
                    Some(col) => Prediction::Contact(col),
                    None => Prediction::NoContact,
                }
            },
            (Shape::Rectangle(r1), Shape::Rectangle(r2)) => {
                match PhysObj::rect_vs_rect(r1, &a.velosity, r2, &b.velosity) {
                    Some(col) => Prediction::Contact(col),
                    None => Prediction::NoContact,
                }
            },
            _ => Prediction::Unsupported,
        }
    }

    /// The classic optional form of the prediction: the contact if one was
    /// found; nothing both for a proven or degenerate absence of contact
    /// and for an unsupported pairing (the three-way `predict`
    /// distinguishes them).
    pub fn predict_collision(a: &PhysObj, b: &PhysObj) -> (r: Option<Collision>)
        requires
            a.wf(),
            b.wf(),
            a.in_grid(),
            b.in_grid(),
        ensures
            r == (match predict_model(*a, *b) {
                None => None::<Collision>,
                Some(m) => Some(collision_of(m)),
            }),
            r matches Some(col) ==> col.time_offset@.n >= 0 && col.time_offset.wf()
                && col.location.wf(),
    {
        match PhysObj::predict(a, b) {
            Prediction::Contact(col) => Some(col),
            _ => None,
        }
    }

    /// Advances the object: the velocity is scaled by `time` in place —
    /// the scaling persists on the object — and the shape is translated by
    /// that scaled velocity.
    pub fn shift(&mut self, time: Scalar)
        requires
            old(self).wf(),
            time.wf(),
            mul_fits(old(self).velosity.0@, time@),
            mul_fits(old(self).velosity.1@, time@),
            old(self).shape.shift_fits(vscale_model(old(self).velosity, time)),
        ensures
            final(self).wf(),
            final(self).id == old(self).id,
            final(self).velosity == vscale_model(old(self).velosity, time),
            final(self).shape == old(self).shape.shift_model(
                vscale_model(old(self).velosity, time),
            ),
    {
        self.velosity.scale(time);
        let v = self.velosity.clone();
        self.shape.shift(&v);
    }

    /// The per-axis overlap window of `axis_window_model`, as a `Range`.
    fn asix_collision_time(dp: i128, dv: i128, h: i128) -> (r: Option<Range>)
        requires
            -0x4000000 <= dp <= 0x4000000,  // 2^26
            -0x4000000 <= dv <= 0x4000000,
            -0x4000000 <= h <= 0x4000000,
        ensures
            r is Some <==> axis_window_model(dp as int, dv as int, h as int) is Some,
            r matches Some(w) ==> {
                let m = axis_window_model(dp as int, dv as int, h as int)->Some_0;
                &&& w == Range(scalar_of(m.0), scalar_of(m.1))
                &&& w.wf()
                &&& -0x8000000 <= m.0.n <= 0x8000000
                &&& 0 < m.0.d <= 0x4000000
                &&& -0x8000000 <= m.1.n <= 0x8000000
                &&& 0 < m.1.d <= 0x4000000
            },
    {
        if dv == 0 {
            Option::None
        } else {
            let t1 = Scalar::new(-h - dp, dv);
            let t2 = Scalar::new(h - dp, dv);
            proof {
                lemma_fits_cmp(t1@, t2@, 0x8000000, 0x4000000, 0x8000000, 0x4000000);
            }
            Option::Some(Range::new(t1, t2))
        }
    }

    /// The rectangle sweep, as `rect_model` states it.
    fn rect_vs_rect(r1: &Rectangle, v1: &Vector, r2: &Rectangle, v2: &Vector) -> (r: Option<
        Collision,
    >)
        requires
            r1.wf(),
            r2.wf(),
            v1.wf(),
            v2.wf(),
            in_bounds(r1.location.0@),
            in_bounds(r1.location.1@),
            in_bounds(r1.dementions.0@),
            in_bounds(r1.dementions.1@),
            in_bounds(r2.location.0@),
            in_bounds(r2.location.1@),
            in_bounds(r2.dementions.0@),
            in_bounds(r2.dementions.1@),
            in_bounds(v1.0@),
            in_bounds(v1.1@),
            in_bounds(v2.0@),
            in_bounds(v2.1@),
        ensures
            r == (match rect_model(*r1, *v1, *r2, *v2) {
                None => None::<Collision>,
                Some(m) => Some(collision_of(m)),
            }),
            r matches Some(col) ==> col.time_offset@.n >= 0 && col.time_offset.wf()
                && col.location.wf(),
    {
        let dpx = 2 * (r2.location.0.to_grid() - r1.location.0.to_grid());
        let dpy = 2 * (r2.location.1.to_grid() - r1.location.1.to_grid());
        let dvx = 2 * (v2.0.to_grid() - v1.0.to_grid());
        let dvy = 2 * (v2.1.to_grid() - v1.1.to_grid());
        let hx = r1.dementions.0.to_grid() + r2.dementions.0.to_grid();
        let hy = r1.dementions.1.to_grid() + r2.dementions.1.to_grid();
        let cx = PhysObj::asix_collision_time(dpx, dvx, hx);
        let cy = PhysObj::asix_collision_time(dpy, dvy, hy);
        match (cx, cy) {
            (Some(range_x), Some(range_y)) => {
                proof {
                    lemma_fits_cmp(range_x.0@, range_y.0@, 0x8000000, 0x4000000, 0x8000000, 0x4000000);
                    lemma_fits_cmp(range_x.1@, range_y.1@, 0x8000000, 0x4000000, 0x8000000, 0x4000000);
                    lemma_fits_cmp(range_x.0@, range_x.1@, 0x8000000, 0x4000000, 0x8000000, 0x4000000);
                    lemma_fits_cmp(range_x.0@, range_y.1@, 0x8000000, 0x4000000, 0x8000000, 0x4000000);
                    lemma_fits_cmp(range_y.0@, range_x.1@, 0x8000000, 0x4000000, 0x8000000, 0x4000000);
                    lemma_fits_cmp(range_y.0@, range_y.1@, 0x8000000, 0x4000000, 0x8000000, 0x4000000);
                }
                match range_x.intercept(&range_y) {
                    Some(range_xy) => {
                        let zero = Scalar::from_int(0);
                        proof {
                            lemma_fits_cmp(range_xy.0@, zero@, 0x8000000, 0x4000000, 1, 1);
                            lemma_fits_cmp(range_xy.0@, range_xy.1@, 0x8000000, 0x4000000, 0x8000000, 0x4000000);
                            lemma_fits_cmp(zero@, range_xy.1@, 1, 1, 0x8000000, 0x4000000);
                        }
                        match range_xy.clamp_start(zero) {
                            Some(clamped) => {
                                let time = clamped.0;
                                proof {
                                    lemma_rect_chain_fits(*r1, *v1, time);
                                    lemma_rect_chain_fits(*r2, *v2, time);
                                }
                                let sv1 = v1.clone_scale(time);
                                let moved1 = r1.clone_shift(&sv1).to_frame();
                                let sv2 = v2.clone_scale(time);
                                let moved2 = r2.clone_shift(&sv2).to_frame();
                                proof {
                                    lemma_moved_frames_fit(*r1, *v1, *r2, *v2, time);
                                }
                                match moved1.intercect(&moved2) {
                                    Some(intr) => {
                                        let location = intr.center();
                                        Some(Collision { location, time_offset: time })
                                    },
                                    None => None,
                                }
                            },
                            None => None,
                        }
                    },
                    None => None,
                }
            },
            _ => None,
        }
    }
}

/// For a rectangle and velocity on the grid and a window time
/// representation, every product of the scale-shift-frame chain fits in
/// `i128`, and the moved frame's corners are bounded.
pub proof fn lemma_rect_chain_fits(r: Rectangle, v: Vector, t: Scalar)
    requires
        r.wf(),
        v.wf(),
        t.wf(),
        in_bounds(r.location.0@),
        in_bounds(r.location.1@),
        in_bounds(r.dementions.0@),
        in_bounds(r.dementions.1@),
        in_bounds(v.0@),
        in_bounds(v.1@),
        -0x8000000 <= t@.n <= 0x8000000,
        t@.d <= 0x4000000,
    ensures
        mul_fits(v.0@, t@),
        mul_fits(v.1@, t@),
        add_fits(r.location.0@, frac_mul(v.0@, t@)),
        add_fits(r.location.1@, frac_mul(v.1@, t@)),
        crate::rectangle::rect_frame_fits(
            Rectangle { location: vadd_model(r.location, vscale_model(v, t)), dementions: r.dementions },
        ),
        ({
            let m = moved_frame_model(r, v, t);
            &&& -0x400000000000000000 <= m.from.0@.n <= 0x400000000000000000  // 2^70
            &&& -0x400000000000000000 <= m.from.1@.n <= 0x400000000000000000
            &&& -0x400000000000000000 <= m.to.0@.n <= 0x400000000000000000
            &&& -0x400000000000000000 <= m.to.1@.n <= 0x400000000000000000
            &&& 0 < m.from.0@.d <= 0x8000000000000  // 2^51
            &&& 0 < m.from.1@.d <= 0x8000000000000
            &&& 0 < m.to.0@.d <= 0x8000000000000
            &&& 0 < m.to.1@.d <= 0x8000000000000
        }),
{
    crate::scalar::lemma_grid_mul_fits(r.location.0@);
    crate::scalar::lemma_grid_mul_fits(r.location.1@);
    crate::scalar::lemma_grid_mul_fits(r.dementions.0@);
    crate::scalar::lemma_grid_mul_fits(r.dementions.1@);
    crate::scalar::lemma_grid_mul_fits(v.0@);
    crate::scalar::lemma_grid_mul_fits(v.1@);
    lemma_fits_mul(v.0@, t@, 0x1000000, 256, 0x8000000, 0x4000000);
    lemma_fits_mul(v.1@, t@, 0x1000000, 256, 0x8000000, 0x4000000);
    lemma_fits_add(r.location.0@, frac_mul(v.0@, t@), 0x1000000, 256, 0x8000000000000, 0x400000000);
    lemma_fits_add(r.location.1@, frac_mul(v.1@, t@), 0x1000000, 256, 0x8000000000000, 0x400000000);
    let loc0 = frac_add(r.location.0@, frac_mul(v.0@, t@));
    let loc1 = frac_add(r.location.1@, frac_mul(v.1@, t@));
    lemma_fits_add(loc0, frac_half(r.dementions.0@), 0x1000000000000000, 0x40000000000, 0x1000000, 512);
    lemma_fits_add(loc1, frac_half(r.dementions.1@), 0x1000000000000000, 0x40000000000, 0x1000000, 512);
}

/// The cross products of the spatial re-validation (frame intersection and
/// overlap center) fit in `i128`.
pub proof fn lemma_moved_frames_fit(r1: Rectangle, v1: Vector, r2: Rectangle, v2: Vector, t: Scalar)
    requires
        r1.wf(),
        r2.wf(),
        v1.wf(),
        v2.wf(),
        t.wf(),
        in_bounds(r1.location.0@),
        in_bounds(r1.location.1@),
        in_bounds(r1.dementions.0@),
        in_bounds(r1.dementions.1@),
        in_bounds(r2.location.0@),
        in_bounds(r2.location.1@),
        in_bounds(r2.dementions.0@),
        in_bounds(r2.dementions.1@),
        in_bounds(v1.0@),
        in_bounds(v1.1@),
        in_bounds(v2.0@),
        in_bounds(v2.1@),
        -0x8000000 <= t@.n <= 0x8000000,
        t@.d <= 0x4000000,
    ensures
        ({
            let m1 = moved_frame_model(r1, v1, t);
            let m2 = moved_frame_model(r2, v2, t);
            &&& cmp_fits(m1.to.0@, m2.from.0@)
            &&& cmp_fits(m1.from.0@, m2.to.0@)
            &&& cmp_fits(m1.to.1@, m2.from.1@)
            &&& cmp_fits(m1.from.1@, m2.to.1@)
            &&& cmp_fits(m1.from.0@, m2.from.0@)
            &&& cmp_fits(m1.from.1@, m2.from.1@)
            &&& cmp_fits(m1.to.0@, m2.to.0@)
            &&& cmp_fits(m1.to.1@, m2.to.1@)
            &&& add_fits(intercect_model(m1, m2).from.0@, intercect_model(m1, m2).to.0@)
            &&& add_fits(intercect_model(m1, m2).from.1@, intercect_model(m1, m2).to.1@)
            &&& sym_i128(2 * (intercect_model(m1, m2).from.0@.d * intercect_model(m1, m2).to.0@.d))
            &&& sym_i128(2 * (intercect_model(m1, m2).from.1@.d * intercect_model(m1, m2).to.1@.d))
        }),
{
    lemma_rect_chain_fits(r1, v1, t);
    lemma_rect_chain_fits(r2, v2, t);
    let m1 = moved_frame_model(r1, v1, t);
    let m2 = moved_frame_model(r2, v2, t);
    lemma_fits_cmp(m1.to.0@, m2.from.0@, 0x400000000000000000, 0x8000000000000, 0x400000000000000000, 0x8000000000000);
    lemma_fits_cmp(m1.from.0@, m2.to.0@, 0x400000000000000000, 0x8000000000000, 0x400000000000000000, 0x8000000000000);
    lemma_fits_cmp(m1.to.1@, m2.from.1@, 0x400000000000000000, 0x8000000000000, 0x400000000000000000, 0x8000000000000);
    lemma_fits_cmp(m1.from.1@, m2.to.1@, 0x400000000000000000, 0x8000000000000, 0x400000000000000000, 0x8000000000000);
    lemma_fits_cmp(m1.from.0@, m2.from.0@, 0x400000000000000000, 0x8000000000000, 0x400000000000000000, 0x8000000000000);
    lemma_fits_cmp(m1.from.1@, m2.from.1@, 0x400000000000000000, 0x8000000000000, 0x400000000000000000, 0x8000000000000);
    lemma_fits_cmp(m1.to.0@, m2.to.0@, 0x400000000000000000, 0x8000000000000, 0x400000000000000000, 0x8000000000000);
    lemma_fits_cmp(m1.to.1@, m2.to.1@, 0x400000000000000000, 0x8000000000000, 0x400000000000000000, 0x8000000000000);
    let ov = intercect_model(m1, m2);
    lemma_fits_add(ov.from.0@, ov.to.0@, 0x400000000000000000, 0x8000000000000, 0x400000000000000000, 0x8000000000000);
    lemma_fits_add(ov.from.1@, ov.to.1@, 0x400000000000000000, 0x8000000000000, 0x400000000000000000, 0x8000000000000);
}

/// Bounds on the representation the quadratic solver hands back for circle
/// sweep coefficients: numerators fit in 2^66, denominators in 2^65.
pub proof fn lemma_circle_root_bounds(a: int, b: int, c: int)
    requires
        0 <= a <= 0x8000000000000,
        -0x10000000000000 <= b <= 0x10000000000000,
        -0x10000000000000 <= c <= 0x10000000000000,
        equasion_model(a, b, c) is Some,
    ensures
        ({
            let (t1, t2) = equasion_model(a, b, c)->Some_0;
            &&& 0 < t1.d <= 0x20000000000000000  // 2^61
            &&& 0 < t2.d <= 0x20000000000000000
            &&& -0x40000000000000000 <= t1.n <= 0x40000000000000000  // 2^62
            &&& -0x40000000000000000 <= t2.n <= 0x40000000000000000
        }),
{
    let disc = b * b - 4 * a * c;
    lemma_abs_mul(b, b, 0x10000000000000, 0x10000000000000);
    lemma_abs_mul(4 * a, c, 0x20000000000000, 0x10000000000000);
    let s = sqrt_floor(disc * 65536);
    crate::sqrt::lemma_sqrt_floor_bounds(disc * 65536);
    assert(s <= 0x2000000000000000) by (nonlinear_arith)
        requires
            s >= 0,
            s * s <= disc * 65536,
            disc * 65536 <= 0x4000000000000000000000000000000,
    ;
}

} // verus!
