//! Axis-aligned rectangles.

use vstd::prelude::*;
use crate::scalar::{
    Scalar, frac_add, frac_sub, frac_mul, frac_half, add_fits, mul_fits, sym_i128,
};
use crate::vector::Vector;
use crate::frame::Frame;

verus! {

/// An axis-aligned rectangle given by its center point and its width and
/// height.
#[derive(Clone, Copy, PartialEq, Eq, Structural, Debug)]
pub struct Rectangle {
    pub location: Vector,
    pub dementions: Vector,
}

/// The products `to_frame` forms fit in `i128`.
pub open spec fn rect_frame_fits(r: Rectangle) -> bool {
    &&& sym_i128(2 * r.dementions.0@.d)
    &&& sym_i128(2 * r.dementions.1@.d)
    &&& add_fits(r.location.0@, frac_half(r.dementions.0@))
    &&& add_fits(r.location.1@, frac_half(r.dementions.1@))
}

impl Rectangle {
    /// Center and dimensions are well formed.
    pub open spec fn wf(self) -> bool {
        self.location.wf() && self.dementions.wf()
    }

    /// The bounding box `to_frame` computes, with its exact representations:
    /// the center shifted by half the dimensions in every direction.
    pub open spec fn to_frame_model(self) -> Frame {
        let f0 = frac_sub(self.location.0@, frac_half(self.dementions.0@));
        let f1 = frac_sub(self.location.1@, frac_half(self.dementions.1@));
        let t0 = frac_add(self.location.0@, frac_half(self.dementions.0@));
        let t1 = frac_add(self.location.1@, frac_half(self.dementions.1@));
        Frame {
            from: Vector(
                Scalar { num: f0.n as i128, den: f0.d as i128 },
                Scalar { num: f1.n as i128, den: f1.d as i128 },
            ),
            to: Vector(
                Scalar { num: t0.n as i128, den: t0.d as i128 },
                Scalar { num: t1.n as i128, den: t1.d as i128 },
            ),
        }
    }

    /// Width times height.
    pub fn area(&self) -> (r: Scalar)
        requires
            self.wf(),
            mul_fits(self.dementions.0@, self.dementions.1@),
        ensures
            r.wf(),
            r@ == frac_mul(self.dementions.0@, self.dementions.1@),
    {
        self.dementions.0.mul(self.dementions.1)
    }

    /// The bounding box: the center shifted by half the dimensions in every
    /// direction.
    pub fn to_frame(&self) -> (r: Frame)
        requires
            self.wf(),
            rect_frame_fits(*self),
        ensures
            r.wf(),
            r == self.to_frame_model(),
    {
        let half = Vector(self.dementions.0.half(), self.dementions.1.half());
        Frame {
            from: self.location.clone_sub(&half),
            to: self.location.clone_add(&half),
        }
    }

    /// Translates the rectangle in place.
    pub fn shift(&mut self, offs: &Vector)
        requires
            old(self).wf(),
            offs.wf(),
            add_fits(old(self).location.0@, offs.0@),
            add_fits(old(self).location.1@, offs.1@),
        ensures
            final(self).wf(),
            final(self).location.0@ == frac_add(old(self).location.0@, offs.0@),
            final(self).location.1@ == frac_add(old(self).location.1@, offs.1@),
            final(self).dementions == old(self).dementions,
    {
        self.location.add(offs);
    }

    /// A translated copy, leaving the rectangle itself unchanged.
    pub fn clone_shift(&self, offs: &Vector) -> (r: Rectangle)
        requires
            self.wf(),
            offs.wf(),
            add_fits(self.location.0@, offs.0@),
            add_fits(self.location.1@, offs.1@),
        ensures
            r.wf(),
            r.location.0@ == frac_add(self.location.0@, offs.0@),
            r.location.1@ == frac_add(self.location.1@, offs.1@),
            r.dementions == self.dementions,
    {
        let mut res = self.clone();
        res.shift(offs);
        res
    }

    /// The rectangle whose bounding box is the given frame.
    pub fn from_frame(f: &Frame) -> (r: Rectangle)
        requires
            f.wf(),
            add_fits(f.to.0@, f.from.0@),
            add_fits(f.to.1@, f.from.1@),
            sym_i128(2 * (f.from.0@.d * f.to.0@.d)),
            sym_i128(2 * (f.from.1@.d * f.to.1@.d)),
        ensures
            r.wf(),
            r.dementions.0@ == frac_sub(f.to.0@, f.from.0@),
            r.dementions.1@ == frac_sub(f.to.1@, f.from.1@),
            r.location.0@ == frac_half(frac_add(f.from.0@, f.to.0@)),
            r.location.1@ == frac_half(frac_add(f.from.1@, f.to.1@)),
    {
        let dementions = f.to.clone_sub(&f.from);
        let location = Vector(
            f.from.0.add(f.to.0).half(),
            f.from.1.add(f.to.1).half(),
        );
        Rectangle { dementions, location }
    }
}

} // verus!
