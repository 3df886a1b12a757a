//! Axis-aligned bounding boxes.
//!
//! A `Frame` is the rectangular boundary of a shape, held as its two corner
//! vectors; it is the 2D analog of `Range`.

use vstd::prelude::*;
use crate::scalar::{
    frac_add, frac_sub, frac_half, frac_le, frac_lt, add_fits, cmp_fits, sym_i128,
};
use crate::vector::Vector;

verus! {

/// An axis-aligned box, from its minimum corner to its maximum corner.
#[derive(Clone, Copy, PartialEq, Eq, Structural, Debug)]
pub struct Frame {
    pub from: Vector,
    pub to: Vector,
}

/// Closed-boundary overlap test of two boxes: they intersect unless one lies
/// strictly beyond the other on some axis, so boxes touching at an edge count
/// as intersecting.
pub open spec fn frames_intersect(a: Frame, b: Frame) -> bool {
    &&& !frac_lt(a.to.0@, b.from.0@)
    &&& !frac_lt(b.to.0@, a.from.0@)
    &&& !frac_lt(a.to.1@, b.from.1@)
    &&& !frac_lt(b.to.1@, a.from.1@)
}

impl Frame {
    /// Both corners are well formed.
    pub open spec fn wf(self) -> bool {
        self.from.wf() && self.to.wf()
    }

    /// The corners are ordered component-wise.
    pub open spec fn ordered(self) -> bool {
        frac_le(self.from.0@, self.to.0@) && frac_le(self.from.1@, self.to.1@)
    }

    /// The midpoint of the two corners.
    pub fn center(&self) -> (r: Vector)
        requires
            self.wf(),
            add_fits(self.from.0@, self.to.0@),
            add_fits(self.from.1@, self.to.1@),
            sym_i128(2 * (self.from.0@.d * self.to.0@.d)),
            sym_i128(2 * (self.from.1@.d * self.to.1@.d)),
        ensures
            r.wf(),
            r.0@ == frac_half(frac_add(self.from.0@, self.to.0@)),
            r.1@ == frac_half(frac_add(self.from.1@, self.to.1@)),
    {
        Vector(
            self.from.0.add(self.to.0).half(),
            self.from.1.add(self.to.1).half(),
        )
    }

    /// Width and height: `to - from`.
    pub fn dementions(&self) -> (r: Vector)
        requires
            self.wf(),
            add_fits(self.to.0@, self.from.0@),
            add_fits(self.to.1@, self.from.1@),
        ensures
            r.wf(),
            r.0@ == frac_sub(self.to.0@, self.from.0@),
            r.1@ == frac_sub(self.to.1@, self.from.1@),
    {
        Vector(self.to.0.sub(self.from.0), self.to.1.sub(self.from.1))
    }

    /// Whether the two boxes overlap, boundaries included.
    pub fn is_intercected(&self, other: &Frame) -> (r: bool)
        requires
            self.wf(),
            other.wf(),
            cmp_fits(self.to.0@, other.from.0@),
            cmp_fits(self.from.0@, other.to.0@),
            cmp_fits(self.to.1@, other.from.1@),
            cmp_fits(self.from.1@, other.to.1@),
        ensures
            r == frames_intersect(*self, *other),
    {
        if self.to.0.lt(other.from.0) {
            false
        } else if other.to.0.lt(self.from.0) {
            false
        } else if self.to.1.lt(other.from.1) {
            false
        } else if other.to.1.lt(self.from.1) {
            false
        } else {
            true
        }
    }

    /// The overlapping box, if the two intersect: component-wise maximum of
    /// the `from` corners and minimum of the `to` corners.
    pub fn intercect(&self, other: &Frame) -> (res: Option<Frame>)
        requires
            self.wf(),
            other.wf(),
            cmp_fits(self.to.0@, other.from.0@),
            cmp_fits(self.from.0@, other.to.0@),
            cmp_fits(self.to.1@, other.from.1@),
            cmp_fits(self.from.1@, other.to.1@),
            cmp_fits(self.from.0@, other.from.0@),
            cmp_fits(self.from.1@, other.from.1@),
            cmp_fits(self.to.0@, other.to.0@),
            cmp_fits(self.to.1@, other.to.1@),
        ensures
            res == (if frames_intersect(*self, *other) {
                Some(Frame {
                    from: Vector(
                        if frac_le(self.from.0@, other.from.0@) { other.from.0 } else { self.from.0 },
                        if frac_le(self.from.1@, other.from.1@) { other.from.1 } else { self.from.1 },
                    ),
                    to: Vector(
                        if frac_le(other.to.0@, self.to.0@) { other.to.0 } else { self.to.0 },
                        if frac_le(other.to.1@, self.to.1@) { other.to.1 } else { self.to.1 },
                    ),
                })
            } else {
                None::<Frame>
            }),
            res is Some ==> res->Some_0.wf(),
    {
        if self.is_intercected(other) {
            Some(Frame {
                from: Vector(
                    self.from.0.max_val(other.from.0),
                    self.from.1.max_val(other.from.1),
                ),
                to: Vector(self.to.0.min_val(other.to.0), self.to.1.min_val(other.to.1)),
            })
        } else {
            None
        }
    }
}

} // verus!
