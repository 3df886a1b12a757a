//! Line segments.
//!
//! A segment is described by its start point and the vector it spans.

use vstd::prelude::*;
use crate::scalar::{
    Scalar, Frac, frac_add, frac_mul, frac_le, add_fits, mul_fits, cmp_fits,
    in_bounds, grid_of, lemma_abs_mul,
};
use crate::vector::Vector;
use crate::frame::Frame;

verus! {

/// A segment from `location` spanning `vector`.
#[derive(Clone, Copy, PartialEq, Eq, Structural, Debug)]
pub struct Segment {
    pub location: Vector,
    pub vector: Vector,
}

/// The products `to_frame` forms fit in `i128`.
pub open spec fn seg_frame_fits(s: Segment) -> bool {
    &&& add_fits(s.location.0@, s.vector.0@)
    &&& add_fits(s.location.1@, s.vector.1@)
    &&& cmp_fits(s.location.0@, frac_add(s.location.0@, s.vector.0@))
    &&& cmp_fits(s.location.1@, frac_add(s.location.1@, s.vector.1@))
}

/// Where the orthogonal projection of `p` onto the line through `s` lands,
/// all coordinates on the 1/256 grid: the start point itself when the
/// segment's vector is zero, else `location + vector * t` with
/// `t = (ap . v) / (v . v)`.
pub open spec fn project_model(s: Segment, p: Vector) -> (Frac, Frac) {
    let ax = grid_of(s.location.0@);
    let ay = grid_of(s.location.1@);
    let vx = grid_of(s.vector.0@);
    let vy = grid_of(s.vector.1@);
    let px = grid_of(p.0@);
    let py = grid_of(p.1@);
    let dd = vx * vx + vy * vy;
    if dd == 0 {
        (s.location.0@, s.location.1@)
    } else {
        let tn = (px - ax) * vx + (py - ay) * vy;
        (
            Frac { n: ax * dd + vx * tn, d: 256 * dd },
            Frac { n: ay * dd + vy * tn, d: 256 * dd },
        )
    }
}

impl Segment {
    /// Start point and spanned vector are well formed.
    pub open spec fn wf(self) -> bool {
        self.location.wf() && self.vector.wf()
    }

    /// The bounding box `to_frame` computes, with its exact representations:
    /// the component-wise minimum and maximum of the two end points.
    pub open spec fn to_frame_model(self) -> Frame {
        let e0f = frac_add(self.location.0@, self.vector.0@);
        let e1f = frac_add(self.location.1@, self.vector.1@);
        let e0 = Scalar { num: e0f.n as i128, den: e0f.d as i128 };
        let e1 = Scalar { num: e1f.n as i128, den: e1f.d as i128 };
        Frame {
            from: Vector(
                if frac_le(e0@, self.location.0@) { e0 } else { self.location.0 },
                if frac_le(e1@, self.location.1@) { e1 } else { self.location.1 },
            ),
            to: Vector(
                if frac_le(self.location.0@, e0@) { e0 } else { self.location.0 },
                if frac_le(self.location.1@, e1@) { e1 } else { self.location.1 },
            ),
        }
    }

    /// All four coordinates lie on the 1/256 grid within the solver bound.
    pub open spec fn in_grid(self) -> bool {
        &&& in_bounds(self.location.0@)
        &&& in_bounds(self.location.1@)
        &&& in_bounds(self.vector.0@)
        &&& in_bounds(self.vector.1@)
    }

    /// The end point of the segment.
    pub fn end(&self) -> (r: Vector)
        requires
            self.wf(),
            add_fits(self.location.0@, self.vector.0@),
            add_fits(self.location.1@, self.vector.1@),
        ensures
            r.wf(),
            r.0@ == frac_add(self.location.0@, self.vector.0@),
            r.1@ == frac_add(self.location.1@, self.vector.1@),
    {
        self.location.clone_add(&self.vector)
    }

    /// The bounding box spanned by the two end points.
    pub fn to_frame(&self) -> (r: Frame)
        requires
            self.wf(),
            seg_frame_fits(*self),
        ensures
            r.wf(),
            r == self.to_frame_model(),
    {
        let end = self.end();
        Frame {
            from: Vector(
                self.location.0.min_val(end.0),
                self.location.1.min_val(end.1),
            ),
            to: Vector(
                self.location.0.max_val(end.0),
                self.location.1.max_val(end.1),
            ),
        }
    }

    /// Scales the spanned vector in place; the start point stays.
    pub fn scale(&mut self, s: Scalar)
        requires
            old(self).wf(),
            s.wf(),
            mul_fits(old(self).vector.0@, s@),
            mul_fits(old(self).vector.1@, s@),
        ensures
            final(self).wf(),
            final(self).location == old(self).location,
            final(self).vector.0@ == frac_mul(old(self).vector.0@, s@),
            final(self).vector.1@ == frac_mul(old(self).vector.1@, s@),
    {
        self.vector.scale(s);
    }

    /// Translates the start point in place; the spanned vector stays.
    pub fn shift(&mut self, s: &Vector)
        requires
            old(self).wf(),
            s.wf(),
            add_fits(old(self).location.0@, s.0@),
            add_fits(old(self).location.1@, s.1@),
        ensures
            final(self).wf(),
            final(self).vector == old(self).vector,
            final(self).location.0@ == frac_add(old(self).location.0@, s.0@),
            final(self).location.1@ == frac_add(old(self).location.1@, s.1@),
    {
        self.location.add(s);
    }

    /// The orthogonal projection of `p` onto the line through the segment;
    /// the start point itself when the segment is a point.
    pub fn project_point(&self, p: &Vector) -> (r: Vector)
        requires
            self.wf(),
            p.wf(),
            self.in_grid(),
            in_bounds(p.0@),
            in_bounds(p.1@),
        ensures
            r.wf(),
            (r.0@, r.1@) == project_model(*self, *p),
    {
        let ax = self.location.0.to_grid();
        let ay = self.location.1.to_grid();
        let vx = self.vector.0.to_grid();
        let vy = self.vector.1.to_grid();
        let px = p.0.to_grid();
        let py = p.1.to_grid();
        proof {
            lemma_abs_mul(vx as int, vx as int, 0x1000000, 0x1000000);
            lemma_abs_mul(vy as int, vy as int, 0x1000000, 0x1000000);
        }
        let dd = vx * vx + vy * vy;
        if dd == 0 {
            return self.location;
        }
        proof {
            assert(dd as int > 0) by (nonlinear_arith)
                requires
                    (dd as int) == (vx as int) * (vx as int) + (vy as int) * (vy as int),
                    (dd as int) != 0,
            ;
            lemma_abs_mul((px - ax) as int, vx as int, 0x2000000, 0x1000000);
            lemma_abs_mul((py - ay) as int, vy as int, 0x2000000, 0x1000000);
        }
        let tn = (px - ax) * vx + (py - ay) * vy;
        proof {
            lemma_abs_mul(ax as int, dd as int, 0x1000000, 0x4000000000000);
            lemma_abs_mul(ay as int, dd as int, 0x1000000, 0x4000000000000);
            lemma_abs_mul(vx as int, tn as int, 0x1000000, 0x8000000000001);
            lemma_abs_mul(vy as int, tn as int, 0x1000000, 0x8000000000001);
        }
        let rx = Scalar { num: ax * dd + vx * tn, den: 256 * dd };
        let ry = Scalar { num: ay * dd + vy * tn, den: 256 * dd };
        Vector(rx, ry)
    }
}

} // verus!
