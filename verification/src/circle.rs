//! Circles.

use vstd::prelude::*;
use crate::scalar::{Scalar, frac_add, frac_sub, add_fits};
use crate::vector::Vector;
use crate::frame::Frame;

verus! {

/// A circle given by its center and radius.
#[derive(Clone, Copy, PartialEq, Eq, Structural, Debug)]
pub struct Circle {
    pub location: Vector,
    pub radius: Scalar,
}

impl Circle {
    /// Center and radius are well formed.
    pub open spec fn wf(self) -> bool {
        self.location.wf() && self.radius.wf()
    }

    /// The bounding box of the circle at its current position: the center
    /// shifted by the radius in every direction.
    pub fn to_frame(&self) -> (r: Frame)
        requires
            self.wf(),
            add_fits(self.location.0@, self.radius@),
            add_fits(self.location.1@, self.radius@),
        ensures
            r.wf(),
            r.from.0@ == frac_sub(self.location.0@, self.radius@),
            r.from.1@ == frac_sub(self.location.1@, self.radius@),
            r.to.0@ == frac_add(self.location.0@, self.radius@),
            r.to.1@ == frac_add(self.location.1@, self.radius@),
    {
        Frame {
            from: Vector(
                self.location.0.sub(self.radius),
                self.location.1.sub(self.radius),
            ),
            to: Vector(
                self.location.0.add(self.radius),
                self.location.1.add(self.radius),
            ),
        }
    }
}

} // verus!
