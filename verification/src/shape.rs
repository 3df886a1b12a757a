//! The tagged union of shapes and the same-instant overlap tests.
//!
//! Only circles and rectangles take part in the sweep engine; dots and
//! segments are inert data for the static tests here.

use vstd::prelude::*;
use crate::scalar::{
    Scalar, Frac, frac_add, frac_sub, frac_eqv, add_fits, in_bounds, grid_of,
    lemma_abs_mul, lemma_in_bounds_products,
};
use crate::sqrt::{sqrt_floor, isqrt};
use crate::vector::{Vector, vec_from_fracs};
use crate::frame::Frame;
use crate::circle::Circle;
use crate::rectangle::{Rectangle, rect_frame_fits};
use crate::segment::{Segment, seg_frame_fits};

verus! {

/// A closed set of shape kinds, dispatched by pattern matching.
#[derive(Clone, Copy, PartialEq, Eq, Structural, Debug)]
pub enum Shape {
    Dot(Vector),
    Rectangle(Rectangle),
    Circle(Circle),
    Segment(Segment),
}

/// Squared center distance of two circles, in squared grid units.
pub open spec fn circle_pair_d2(a: Circle, b: Circle) -> int {
    let dx = grid_of(b.location.0@) - grid_of(a.location.0@);
    let dy = grid_of(b.location.1@) - grid_of(a.location.1@);
    dx * dx + dy * dy
}

/// Contact point of two overlapping circles: the first center when the
/// centers coincide; nothing when the center distance exceeds the radius
/// sum; otherwise the midpoint of the two points each radius reaches toward
/// the other center, with the center distance taken as its grid floor
/// square root.
pub open spec fn circles_contact_model(a: Circle, b: Circle) -> Option<(Frac, Frac)> {
    let ax = grid_of(a.location.0@);
    let ay = grid_of(a.location.1@);
    let bx = grid_of(b.location.0@);
    let by = grid_of(b.location.1@);
    let ar = grid_of(a.radius@);
    let br = grid_of(b.radius@);
    let rg = ar + br;
    let d2 = circle_pair_d2(a, b);
    if d2 == 0 {
        Some((a.location.0@, a.location.1@))
    } else if rg < 0 || d2 > rg * rg {
        None
    } else {
        let s = sqrt_floor(d2 * 65536);
        Some(
            (
                Frac { n: (ax + bx) * s + 256 * ((bx - ax) * ar + (ax - bx) * br), d: 512 * s },
                Frac { n: (ay + by) * s + 256 * ((by - ay) * ar + (ay - by) * br), d: 512 * s },
            ),
        )
    }
}

/// A dot lies in a circle when its distance to the center is strictly below
/// the radius; the contact point is the dot itself.
pub open spec fn dot_circle_model(c: Circle, d: Vector) -> Option<(Frac, Frac)> {
    let dx = grid_of(c.location.0@) - grid_of(d.0@);
    let dy = grid_of(c.location.1@) - grid_of(d.1@);
    let l2 = dx * dx + dy * dy;
    let rg = grid_of(c.radius@);
    if rg > 0 && l2 < rg * rg {
        Some((d.0@, d.1@))
    } else {
        None
    }
}

/// Overlap of two rectangles via their bounding boxes, with strict
/// boundaries (touching edges do not count); the contact point is the center
/// of the overlap box. Corner coordinates live on the 1/512 grid.
pub open spec fn rects_contact_model(a: Rectangle, b: Rectangle) -> Option<(Frac, Frac)> {
    let afx = 2 * grid_of(a.location.0@) - grid_of(a.dementions.0@);
    let atx = 2 * grid_of(a.location.0@) + grid_of(a.dementions.0@);
    let afy = 2 * grid_of(a.location.1@) - grid_of(a.dementions.1@);
    let aty = 2 * grid_of(a.location.1@) + grid_of(a.dementions.1@);
    let bfx = 2 * grid_of(b.location.0@) - grid_of(b.dementions.0@);
    let btx = 2 * grid_of(b.location.0@) + grid_of(b.dementions.0@);
    let bfy = 2 * grid_of(b.location.1@) - grid_of(b.dementions.1@);
    let bty = 2 * grid_of(b.location.1@) + grid_of(b.dementions.1@);
    let ominx = if afx >= bfx { afx } else { bfx };
    let omaxx = if atx <= btx { atx } else { btx };
    let ominy = if afy >= bfy { afy } else { bfy };
    let omaxy = if aty <= bty { aty } else { bty };
    if ominx < omaxx && ominy < omaxy {
        Some((Frac { n: ominx + omaxx, d: 1024 }, Frac { n: ominy + omaxy, d: 1024 }))
    } else {
        None
    }
}

/// Same-instant contact point of two shapes, for the supported pairings;
/// unsupported pairings report nothing.
pub open spec fn collision_model(s1: Shape, s2: Shape) -> Option<(Frac, Frac)> {
    match (s1, s2) {
        (Shape::Dot(a), Shape::Dot(b)) => {
            if frac_eqv(a.0@, b.0@) && frac_eqv(a.1@, b.1@) {
                Some((a.0@, a.1@))
            } else {
                None
            }
        },
        (Shape::Dot(a), Shape::Circle(c)) => dot_circle_model(c, a),
        (Shape::Circle(c), Shape::Dot(a)) => dot_circle_model(c, a),
        (Shape::Circle(c1), Shape::Circle(c2)) => circles_contact_model(c1, c2),
        (Shape::Rectangle(r1), Shape::Rectangle(r2)) => rects_contact_model(r1, r2),
        _ => None,
    }
}

impl Shape {
    /// Every scalar of the shape is well formed.
    pub open spec fn wf(self) -> bool {
        match self {
            Shape::Dot(p) => p.wf(),
            Shape::Rectangle(r) => r.wf(),
            Shape::Circle(c) => c.wf(),
            Shape::Segment(s) => s.wf(),
        }
    }

    /// Every scalar of the shape lies on the 1/256 grid within the solver
    /// bound.
    pub open spec fn in_grid(self) -> bool {
        match self {
            Shape::Dot(p) => in_bounds(p.0@) && in_bounds(p.1@),
            Shape::Rectangle(r) => {
                in_bounds(r.location.0@) && in_bounds(r.location.1@)
                    && in_bounds(r.dementions.0@) && in_bounds(r.dementions.1@)
            },
            Shape::Circle(c) => {
                in_bounds(c.location.0@) && in_bounds(c.location.1@) && in_bounds(c.radius@)
            },
            Shape::Segment(s) => s.in_grid(),
        }
    }

    /// The products `to_frame` forms fit in `i128`.
    pub open spec fn frame_fits(self) -> bool {
        match self {
            Shape::Dot(_) => true,
            Shape::Rectangle(r) => rect_frame_fits(r),
            Shape::Circle(c) => {
                add_fits(c.location.0@, c.radius@) && add_fits(c.location.1@, c.radius@)
            },
            Shape::Segment(s) => seg_frame_fits(s),
        }
    }

    /// The bounding box of the shape at its current position; for a dot it
    /// degenerates to a point.
    pub fn to_frame(&self) -> (r: Frame)
        requires
            self.wf(),
            self.frame_fits(),
        ensures
            r.wf(),
            self matches Shape::Dot(p) ==> r == (Frame { from: *p, to: *p }),
            self matches Shape::Circle(c) ==> {
                &&& r.from.0@ == frac_sub(c.location.0@, c.radius@)
                &&& r.from.1@ == frac_sub(c.location.1@, c.radius@)
                &&& r.to.0@ == frac_add(c.location.0@, c.radius@)
                &&& r.to.1@ == frac_add(c.location.1@, c.radius@)
            },
            self matches Shape::Rectangle(rc) ==> r == rc.to_frame_model(),
            self matches Shape::Segment(s) ==> r == s.to_frame_model(),
    {
        match self {
            Shape::Dot(p) => Frame { from: p.clone(), to: p.clone() },
            Shape::Rectangle(r) => r.to_frame(),
            Shape::Circle(c) => c.to_frame(),
            Shape::Segment(s) => s.to_frame(),
        }
    }

    /// Translates the shape in place by `offs`; the extent (radius,
    /// dimensions, spanned vector) is unchanged.
    pub fn shift(&mut self, offs: &Vector)
        requires
            old(self).wf(),
            offs.wf(),
            old(self).shift_fits(*offs),
        ensures
            final(self).wf(),
            *final(self) == old(self).shift_model(*offs),
    {
        match self {
            Shape::Dot(p) => p.add(offs),
            Shape::Rectangle(r) => r.shift(offs),
            Shape::Circle(c) => c.location.add(offs),
            Shape::Segment(s) => s.shift(offs),
        }
    }

    /// Same-instant contact point of this shape with another, for the
    /// supported pairings; an unsupported pairing reports nothing (not
    /// implemented, rather than proven non-colliding).
    pub fn collision_with(&self, shape: &Shape) -> (r: Option<Vector>)
        requires
            self.wf(),
            shape.wf(),
            self.in_grid(),
            shape.in_grid(),
        ensures
            r == vec_from_fracs(collision_model(*self, *shape)),
            r is Some ==> r->Some_0.wf(),
    {
        match (self, shape) {
            (Shape::Dot(a), Shape::Dot(b)) => {
                proof {
                    lemma_in_bounds_products(a.0@, b.0@);
                    lemma_in_bounds_products(a.1@, b.1@);
                }
                if a.0.eq_val(b.0) && a.1.eq_val(b.1) {
                    Some(a.clone())
                } else {
                    None
                }
            },
            (Shape::Dot(a), Shape::Circle(c)) => Shape::dot_in_circle(c, a),
            (Shape::Circle(c), Shape::Dot(a)) => Shape::dot_in_circle(c, a),
            (Shape::Circle(c1), Shape::Circle(c2)) => Shape::circles_collision(c1, c2),
            (Shape::Rectangle(r1), Shape::Rectangle(r2)) => Shape::reactangles_collision(r1, r2),
            _ => None,
        }
    }

    /// Contact point of two overlapping circles, as `circles_contact_model`
    /// states it.
    fn circles_collision(a: &Circle, b: &Circle) -> (r: Option<Vector>)
        requires
            a.wf(),
            b.wf(),
            in_bounds(a.location.0@),
            in_bounds(a.location.1@),
            in_bounds(a.radius@),
            in_bounds(b.location.0@),
            in_bounds(b.location.1@),
            in_bounds(b.radius@),
        ensures
            r == vec_from_fracs(circles_contact_model(*a, *b)),
            r is Some ==> r->Some_0.wf(),
    {
        let ax = a.location.0.to_grid();
        let ay = a.location.1.to_grid();
        let bx = b.location.0.to_grid();
        let by = b.location.1.to_grid();
        let ar = a.radius.to_grid();
        let br = b.radius.to_grid();
        let dx = bx - ax;
        let dy = by - ay;
        proof {
            lemma_abs_mul(dx as int, dx as int, 0x2000000, 0x2000000);
            lemma_abs_mul(dy as int, dy as int, 0x2000000, 0x2000000);
        }
        let d2 = dx * dx + dy * dy;
        if d2 == 0 {
            return Some(a.location);
        }
        let rg = ar + br;
        if rg < 0 {
            return None;
        }
        proof {
            lemma_abs_mul(rg as int, rg as int, 0x2000000, 0x2000000);
        }
        if d2 > rg * rg {
            return None;
        }
        proof {
            assert(d2 as int > 0) by (nonlinear_arith)
                requires
                    (d2 as int) == (dx as int) * (dx as int) + (dy as int) * (dy as int),
                    (d2 as int) != 0,
            ;
        }
        let su = isqrt((d2 * 65536) as u128);
        proof {
            assert((su as int) >= 256 && (su as int) < 0x800000000) by (nonlinear_arith)
                requires
                    (su as int) >= 0,
                    (su as int) * (su as int) <= (d2 as int) * 65536,
                    ((d2 as int) * 65536) < ((su as int) + 1) * ((su as int) + 1),
                    65536 <= (d2 as int) * 65536 <= 0x80000000000000000,
            ;
        }
        let s = su as i128;
        proof {
            lemma_abs_mul((ax + bx) as int, s as int, 0x2000000, 0x800000000);
            lemma_abs_mul((ay + by) as int, s as int, 0x2000000, 0x800000000);
            lemma_abs_mul(dx as int, ar as int, 0x2000000, 0x1000000);
            lemma_abs_mul(dy as int, ar as int, 0x2000000, 0x1000000);
            lemma_abs_mul((-dx) as int, br as int, 0x2000000, 0x1000000);
            lemma_abs_mul((-dy) as int, br as int, 0x2000000, 0x1000000);
        }
        let nx = (ax + bx) * s + 256 * (dx * ar + (-dx) * br);
        let ny = (ay + by) * s + 256 * (dy * ar + (-dy) * br);
        Some(Vector(Scalar { num: nx, den: 512 * s }, Scalar { num: ny, den: 512 * s }))
    }

    /// Whether the dot lies strictly inside the circle, as
    /// `dot_circle_model` states it.
    fn dot_in_circle(c: &Circle, d: &Vector) -> (r: Option<Vector>)
        requires
            c.wf(),
            d.wf(),
            in_bounds(c.location.0@),
            in_bounds(c.location.1@),
            in_bounds(c.radius@),
            in_bounds(d.0@),
            in_bounds(d.1@),
        ensures
            r == vec_from_fracs(dot_circle_model(*c, *d)),
            r is Some ==> r->Some_0.wf(),
    {
        let dx = c.location.0.to_grid() - d.0.to_grid();
        let dy = c.location.1.to_grid() - d.1.to_grid();
        proof {
            lemma_abs_mul(dx as int, dx as int, 0x2000000, 0x2000000);
            lemma_abs_mul(dy as int, dy as int, 0x2000000, 0x2000000);
        }
        let l2 = dx * dx + dy * dy;
        let rg = c.radius.to_grid();
        if rg > 0 {
            proof {
                lemma_abs_mul(rg as int, rg as int, 0x1000000, 0x1000000);
            }
            if l2 < rg * rg {
                return Some(d.clone());
            }
        }
        None
    }

    /// Center of the overlap of two rectangles, as `rects_contact_model`
    /// states it.
    fn reactangles_collision(a: &Rectangle, b: &Rectangle) -> (r: Option<Vector>)
        requires
            a.wf(),
            b.wf(),
            in_bounds(a.location.0@),
            in_bounds(a.location.1@),
            in_bounds(a.dementions.0@),
            in_bounds(a.dementions.1@),
            in_bounds(b.location.0@),
            in_bounds(b.location.1@),
            in_bounds(b.dementions.0@),
            in_bounds(b.dementions.1@),
        ensures
            r == vec_from_fracs(rects_contact_model(*a, *b)),
            r is Some ==> r->Some_0.wf(),
    {
        let alx = a.location.0.to_grid();
        let aly = a.location.1.to_grid();
        let adx = a.dementions.0.to_grid();
        let ady = a.dementions.1.to_grid();
        let blx = b.location.0.to_grid();
        let bly = b.location.1.to_grid();
        let bdx = b.dementions.0.to_grid();
        let bdy = b.dementions.1.to_grid();
        let afx = 2 * alx - adx;
        let atx = 2 * alx + adx;
        let afy = 2 * aly - ady;
        let aty = 2 * aly + ady;
        let bfx = 2 * blx - bdx;
        let btx = 2 * blx + bdx;
        let bfy = 2 * bly - bdy;
        let bty = 2 * bly + bdy;
        let ominx = if afx >= bfx { afx } else { bfx };
        let omaxx = if atx <= btx { atx } else { btx };
        let ominy = if afy >= bfy { afy } else { bfy };
        let omaxy = if aty <= bty { aty } else { bty };
        if ominx < omaxx && ominy < omaxy {
            Some(
                Vector(
                    Scalar { num: ominx + omaxx, den: 1024 },
                    Scalar { num: ominy + omaxy, den: 1024 },
                ),
            )
        } else {
            None
        }
    }

    /// The products `shift` forms fit in `i128`.
    pub open spec fn shift_fits(self, offs: Vector) -> bool {
        match self {
            Shape::Dot(p) => add_fits(p.0@, offs.0@) && add_fits(p.1@, offs.1@),
            Shape::Rectangle(r) => {
                add_fits(r.location.0@, offs.0@) && add_fits(r.location.1@, offs.1@)
            },
            Shape::Circle(c) => {
                add_fits(c.location.0@, offs.0@) && add_fits(c.location.1@, offs.1@)
            },
            Shape::Segment(s) => {
                add_fits(s.location.0@, offs.0@) && add_fits(s.location.1@, offs.1@)
            },
        }
    }

    /// The shape translated by `offs`, with the exact representations the
    /// in-place operation produces.
    pub open spec fn shift_model(self, offs: Vector) -> Shape {
        match self {
            Shape::Dot(p) => Shape::Dot(vadd_model(p, offs)),
            Shape::Rectangle(r) => Shape::Rectangle(
                Rectangle { location: vadd_model(r.location, offs), dementions: r.dementions },
            ),
            Shape::Circle(c) => Shape::Circle(
                Circle { location: vadd_model(c.location, offs), radius: c.radius },
            ),
            Shape::Segment(s) => Shape::Segment(
                Segment { location: vadd_model(s.location, offs), vector: s.vector },
            ),
        }
    }
}

/// The vector sum with the exact representation `Vector::add` produces.
pub open spec fn vadd_model(a: Vector, b: Vector) -> Vector {
    let f0 = frac_add(a.0@, b.0@);
    let f1 = frac_add(a.1@, b.1@);
    Vector(
        Scalar { num: f0.n as i128, den: f0.d as i128 },
        Scalar { num: f1.n as i128, den: f1.d as i128 },
    )
}

} // verus!
