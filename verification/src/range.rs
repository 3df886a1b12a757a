//! Ordered scalar intervals.
//!
//! A `Range` is a closed interval `[start, end]` with `start <= end`; it is
//! the 1D building block for per-axis time-of-overlap windows.

use vstd::prelude::*;
use crate::scalar::{
    Scalar, frac_add, frac_half, frac_le, frac_lt, add_fits, cmp_fits, sym_i128,
};

verus! {

/// A closed interval: the first scalar is the lower bound, the second the
/// upper bound.
#[derive(Clone, Copy, PartialEq, Eq, Structural, Debug)]
pub struct Range(pub Scalar, pub Scalar);

impl Range {
    /// Both bounds are well formed and ordered.
    pub open spec fn wf(self) -> bool {
        self.0.wf() && self.1.wf() && frac_le(self.0@, self.1@)
    }

    /// Builds the interval spanning the two scalars, whichever order they
    /// arrive in.
    pub fn new(start: Scalar, end: Scalar) -> (r: Range)
        requires
            start.wf(),
            end.wf(),
            cmp_fits(start@, end@),
        ensures
            r.wf(),
            r == (if frac_lt(start@, end@) {
                Range(start, end)
            } else {
                Range(end, start)
            }),
    {
        if start.lt(end) {
            Range(start, end)
        } else {
            Range(end, start)
        }
    }

    /// The overlapping sub-interval `[max(starts), min(ends)]`, if it is
    /// nonempty.
    pub fn intercept(&self, r: &Range) -> (res: Option<Range>)
        requires
            self.wf(),
            r.wf(),
            cmp_fits(self.0@, r.0@),
            cmp_fits(self.1@, r.1@),
            cmp_fits(self.0@, self.1@),
            cmp_fits(self.0@, r.1@),
            cmp_fits(r.0@, self.1@),
            cmp_fits(r.0@, r.1@),
        ensures
            res == {
                let st = if frac_le(self.0@, r.0@) { r.0 } else { self.0 };
                let en = if frac_le(r.1@, self.1@) { r.1 } else { self.1 };
                if frac_le(st@, en@) {
                    Some(Range(st, en))
                } else {
                    None::<Range>
                }
            },
            res is Some ==> res->Some_0.wf(),
    {
        let start = self.0.max_val(r.0);
        let end = self.1.min_val(r.1);
        if start.le(end) {
            Some(Range(start, end))
        } else {
            None
        }
    }

    /// Restricts the lower bound to at least `x`; nothing if that empties the
    /// interval.
    pub fn clamp_start(&self, x: Scalar) -> (res: Option<Range>)
        requires
            self.wf(),
            x.wf(),
            cmp_fits(self.0@, x@),
            cmp_fits(self.0@, self.1@),
            cmp_fits(x@, self.1@),
        ensures
            res == {
                let c = if frac_le(self.0@, x@) { x } else { self.0 };
                if frac_le(c@, self.1@) {
                    Some(Range(c, self.1))
                } else {
                    None::<Range>
                }
            },
            res is Some ==> res->Some_0.wf(),
    {
        let c = self.0.max_val(x);
        if c.le(self.1) {
            Some(Range(c, self.1))
        } else {
            None
        }
    }

    /// Restricts the upper bound to at most `y`; nothing if that empties the
    /// interval.
    pub fn clamp_end(&self, y: Scalar) -> (res: Option<Range>)
        requires
            self.wf(),
            y.wf(),
            cmp_fits(self.1@, y@),
            cmp_fits(self.0@, self.1@),
            cmp_fits(self.0@, y@),
        ensures
            res == {
                let c = if frac_le(y@, self.1@) { y } else { self.1 };
                if frac_le(self.0@, c@) {
                    Some(Range(self.0, c))
                } else {
                    None::<Range>
                }
            },
            res is Some ==> res->Some_0.wf(),
    {
        let c = self.1.min_val(y);
        if self.0.le(c) {
            Some(Range(self.0, c))
        } else {
            None
        }
    }

    /// The midpoint of the interval.
    pub fn center(&self) -> (r: Scalar)
        requires
            self.wf(),
            add_fits(self.0@, self.1@),
            sym_i128(2 * (self.0@.d * self.1@.d)),
        ensures
            r.wf(),
            r@ == frac_half(frac_add(self.0@, self.1@)),
    {
        self.0.add(self.1).half()
    }
}

} // verus!
