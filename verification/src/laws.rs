//! Laws of the collision engine, stated and proved over its models.

use vstd::prelude::*;
use crate::scalar::{Frac, frac_eqv, frac_add, frac_half, frac_le, in_bounds, grid_of};
use crate::shape::Shape;
use crate::phys_obj::{
    PhysObj, predict_model, circle_model, rect_model, axis_window_model, equasion_model,
    norm_frac, moved_frame_model, intercect_model, supported_pair,
};

verus! {

/// Swapping the roles of two objects negates every difference; these
/// products are unchanged by that.
proof fn lemma_swap_products(u: int, v: int, p: int, q: int)
    by (nonlinear_arith)
    ensures
        (u - v) * (u - v) == (v - u) * (v - u),
        (u - v) * (p - q) == (v - u) * (q - p),
{
}

/// Cross products with a common positive denominator compare like the
/// numerators.
proof fn lemma_cancel_common_den(n1: int, n2: int, d: int)
    by (nonlinear_arith)
    requires
        d > 0,
        n1 * d == n2 * d,
    ensures
        n1 == n2,
{
}

/// Value equality of fractions is preserved by exact addition.
proof fn lemma_eqv_add(x: Frac, y: Frac, xx: Frac, yy: Frac)
    requires
        frac_eqv(x, xx),
        frac_eqv(y, yy),
    ensures
        frac_eqv(frac_add(x, y), frac_add(xx, yy)),
{
    let a1 = x.n * y.d;
    let a2 = y.n * x.d;
    let d1 = x.d * y.d;
    let b1 = xx.n * yy.d;
    let b2 = yy.n * xx.d;
    let d2 = xx.d * yy.d;
    assert((a1 + a2) * d2 == a1 * d2 + a2 * d2) by (nonlinear_arith);
    assert((b1 + b2) * d1 == b1 * d1 + b2 * d1) by (nonlinear_arith);
    assert(a1 * d2 == b1 * d1) by (nonlinear_arith)
        requires
            a1 == x.n * y.d,
            d2 == xx.d * yy.d,
            b1 == xx.n * yy.d,
            d1 == x.d * y.d,
            x.n * xx.d == xx.n * x.d,
    ;
    assert(a2 * d2 == b2 * d1) by (nonlinear_arith)
        requires
            a2 == y.n * x.d,
            d2 == xx.d * yy.d,
            b2 == yy.n * xx.d,
            d1 == x.d * y.d,
            y.n * yy.d == yy.n * y.d,
    ;
}

/// Value equality of fractions is preserved by adding value-equal
/// fractions and halving.
proof fn lemma_eqv_half_add(x: Frac, y: Frac, xx: Frac, yy: Frac)
    requires
        x.d > 0,
        y.d > 0,
        xx.d > 0,
        yy.d > 0,
        frac_eqv(x, xx),
        frac_eqv(y, yy),
    ensures
        frac_eqv(frac_half(frac_add(x, y)), frac_half(frac_add(xx, yy))),
{
    lemma_eqv_add(x, y, xx, yy);
    let u = frac_add(x, y);
    let v = frac_add(xx, yy);
    assert(u.n * (2 * v.d) == v.n * (2 * u.d)) by (nonlinear_arith)
        requires
            u.n * v.d == v.n * u.d,
    ;
}

/// A per-axis window does not depend on which object is taken first:
/// negating both the offset and the relative velocity leaves it unchanged.
proof fn lemma_axis_window_negate(dp: int, dv: int, h: int)
    ensures
        axis_window_model(-dp, -dv, h) == axis_window_model(dp, dv, h),
{
    if dv != 0 {
        let t1 = norm_frac(-h - dp, dv);
        let t2 = norm_frac(h - dp, dv);
        let t1n = norm_frac(-h - -dp, -dv);
        let t2n = norm_frac(h - -dp, -dv);
        assert(t1n == t2 && t2n == t1);
        if !crate::scalar::frac_lt(t1, t2) && !crate::scalar::frac_lt(t2, t1) {
            lemma_cancel_common_den(t1.n, t2.n, t1.d);
        }
    }
}

/// **Symmetry.** Which object is passed first does not matter: the engine
/// reports a contact for `(a, b)` exactly when it does for `(b, a)`, with
/// the same time offset and the same contact point as rational values, and
/// a pairing is supported for `(a, b)` exactly when it is for `(b, a)`.
pub proof fn lemma_predict_symmetric(a: PhysObj, b: PhysObj)
    requires
        a.wf(),
        b.wf(),
        a.in_grid(),
        b.in_grid(),
    ensures
        supported_pair(a.shape, b.shape) == supported_pair(b.shape, a.shape),
        predict_model(a, b) is Some <==> predict_model(b, a) is Some,
        predict_model(a, b) is Some ==> ({
            let m = predict_model(a, b)->Some_0;
            let mm = predict_model(b, a)->Some_0;
            &&& frac_eqv(m.0, mm.0)
            &&& frac_eqv(m.1, mm.1)
            &&& frac_eqv(m.2, mm.2)
        }),
{
    match (a.shape, b.shape) {
        (Shape::Circle(c1), Shape::Circle(c2)) => {
            let ax = grid_of(c1.location.0@);
            let ay = grid_of(c1.location.1@);
            let bx = grid_of(c2.location.0@);
            let by = grid_of(c2.location.1@);
            let vax = grid_of(a.velosity.0@);
            let vay = grid_of(a.velosity.1@);
            let vbx = grid_of(b.velosity.0@);
            let vby = grid_of(b.velosity.1@);
            lemma_swap_products(vbx, vax, vbx, vax);
            lemma_swap_products(vby, vay, vby, vay);
            lemma_swap_products(bx, ax, vbx, vax);
            lemma_swap_products(by, ay, vby, vay);
            lemma_swap_products(bx, ax, bx, ax);
            lemma_swap_products(by, ay, by, ay);
            assert(circle_model(c2, b.velosity, c1, a.velosity) == circle_model(
                c1,
                a.velosity,
                c2,
                b.velosity,
            ));
            if predict_model(a, b) is Some {
                let m = predict_model(a, b)->Some_0;
                assert(frac_eqv(m.0, m.0) && frac_eqv(m.1, m.1) && frac_eqv(m.2, m.2));
            }
        },
        (Shape::Rectangle(r1), Shape::Rectangle(r2)) => {
            lemma_rect_symmetric(r1, a.velosity, r2, b.velosity);
        },
        _ => {},
    }
}

/// The rectangle sweep is symmetric in its two rectangles, up to value
/// equality of the reported fractions.
proof fn lemma_rect_symmetric(r1: crate::rectangle::Rectangle, v1: crate::vector::Vector, r2: crate::rectangle::Rectangle, v2: crate::vector::Vector)
    requires
        r1.wf(),
        r2.wf(),
        v1.wf(),
        v2.wf(),
        in_bounds(r1.location.0@),
        in_bounds(r1.location.1@),
        in_bounds(r1.dementions.0@),
        in_bounds(r1.dementions.1@),
        in_bounds(r2.location.0@),
        in_bounds(r2.location.1@),
        in_bounds(r2.dementions.0@),
        in_bounds(r2.dementions.1@),
        in_bounds(v1.0@),
        in_bounds(v1.1@),
        in_bounds(v2.0@),
        in_bounds(v2.1@),
    ensures
        rect_model(r1, v1, r2, v2) is Some <==> rect_model(r2, v2, r1, v1) is Some,
        rect_model(r1, v1, r2, v2) is Some ==> ({
            let m = rect_model(r1, v1, r2, v2)->Some_0;
            let mm = rect_model(r2, v2, r1, v1)->Some_0;
            &&& frac_eqv(m.0, mm.0)
            &&& frac_eqv(m.1, mm.1)
            &&& frac_eqv(m.2, mm.2)
        }),
{
    let dpx = 2 * (grid_of(r2.location.0@) - grid_of(r1.location.0@));
    let dpy = 2 * (grid_of(r2.location.1@) - grid_of(r1.location.1@));
    let dvx = 2 * (grid_of(v2.0@) - grid_of(v1.0@));
    let dvy = 2 * (grid_of(v2.1@) - grid_of(v1.1@));
    let hx = grid_of(r1.dementions.0@) + grid_of(r2.dementions.0@);
    let hy = grid_of(r1.dementions.1@) + grid_of(r2.dementions.1@);
    lemma_axis_window_negate(dpx, dvx, hx);
    lemma_axis_window_negate(dpy, dvy, hy);
    match (axis_window_model(dpx, dvx, hx), axis_window_model(dpy, dvy, hy)) {
        (Some((sx, ex)), (Some((sy, ey)))) => {
            let st = if frac_le(sx, sy) { sy } else { sx };
            let en = if frac_le(ey, ex) { ey } else { ex };
            if frac_le(st, en) {
                let tz = if frac_le(st, crate::scalar::frac_int(0)) {
                    crate::scalar::frac_int(0)
                } else {
                    st
                };
                if frac_le(tz, en) {
                    let t = crate::scalar::scalar_of(tz);
                    crate::phys_obj::lemma_rect_chain_fits(r1, v1, t);
                    crate::phys_obj::lemma_rect_chain_fits(r2, v2, t);
                    let m1 = moved_frame_model(r1, v1, t);
                    let m2 = moved_frame_model(r2, v2, t);
                    if crate::frame::frames_intersect(m1, m2) {
                        let ov = intercect_model(m1, m2);
                        let vo = intercect_model(m2, m1);
                        lemma_eqv_half_add(ov.from.0@, ov.to.0@, vo.from.0@, vo.to.0@);
                        lemma_eqv_half_add(ov.from.1@, ov.to.1@, vo.from.1@, vo.to.1@);
                        let m = rect_model(r1, v1, r2, v2)->Some_0;
                        assert(frac_eqv(m.2, m.2));
                    }
                }
            }
        },
        _ => {},
    }
}

/// Numerator of `(squared center distance at time tn/q) - (radius sum
/// squared)` for two swept circles, over the positive denominator
/// `65536 * q * q`: zero means the advanced circles touch exactly, a
/// negative value that they overlap.
pub open spec fn circle_gap_num(
    c1: crate::circle::Circle,
    v1: crate::vector::Vector,
    c2: crate::circle::Circle,
    v2: crate::vector::Vector,
    tn: int,
    q: int,
) -> int {
    let dpx = grid_of(c2.location.0@) - grid_of(c1.location.0@);
    let dpy = grid_of(c2.location.1@) - grid_of(c1.location.1@);
    let dvx = grid_of(v2.0@) - grid_of(v1.0@);
    let dvy = grid_of(v2.1@) - grid_of(v1.1@);
    let rr = grid_of(c1.radius@) + grid_of(c2.radius@);
    (dpx * q + dvx * tn) * (dpx * q + dvx * tn) + (dpy * q + dvy * tn) * (dpy * q + dvy * tn)
        - (rr * q) * (rr * q)
}

/// **Round trip (circles).** Advancing both circles by a reported time
/// offset brings their centers within the radius sum, and short of it by
/// less than the floor-square-root granularity: the gap numerator is never
/// positive, and it is zero — exact touch — whenever the scaled
/// discriminant is a perfect square.
pub proof fn lemma_circle_round_trip(
    c1: crate::circle::Circle,
    v1: crate::vector::Vector,
    c2: crate::circle::Circle,
    v2: crate::vector::Vector,
)
    requires
        circle_model(c1, v1, c2, v2) is Some,
    ensures
        ({
            let m = circle_model(c1, v1, c2, v2)->Some_0;
            let dpx = grid_of(c2.location.0@) - grid_of(c1.location.0@);
            let dpy = grid_of(c2.location.1@) - grid_of(c1.location.1@);
            let dvx = grid_of(v2.0@) - grid_of(v1.0@);
            let dvy = grid_of(v2.1@) - grid_of(v1.1@);
            let rr = grid_of(c1.radius@) + grid_of(c2.radius@);
            let qa = dvx * dvx + dvy * dvy;
            let qb = 2 * (dpx * dvx + dpy * dvy);
            let qc = dpx * dpx + dpy * dpy - rr * rr;
            let disc = qb * qb - 4 * qa * qc;
            let s = crate::sqrt::sqrt_floor(disc * 65536);
            &&& m.2.d > 0
            &&& circle_gap_num(c1, v1, c2, v2, m.2.n, m.2.d) <= 0
            &&& circle_gap_num(c1, v1, c2, v2, m.2.n, m.2.d) > -(qa * (2 * s + 1))
            &&& (s * s == disc * 65536 ==> circle_gap_num(c1, v1, c2, v2, m.2.n, m.2.d) == 0)
        }),
{
    let m = circle_model(c1, v1, c2, v2)->Some_0;
    let dpx = grid_of(c2.location.0@) - grid_of(c1.location.0@);
    let dpy = grid_of(c2.location.1@) - grid_of(c1.location.1@);
    let dvx = grid_of(v2.0@) - grid_of(v1.0@);
    let dvy = grid_of(v2.1@) - grid_of(v1.1@);
    let rr = grid_of(c1.radius@) + grid_of(c2.radius@);
    let qa = dvx * dvx + dvy * dvy;
    let qb = 2 * (dpx * dvx + dpy * dvy);
    let qc = dpx * dpx + dpy * dpy - rr * rr;
    let disc = qb * qb - 4 * qa * qc;
    let s = crate::sqrt::sqrt_floor(disc * 65536);
    let tn = m.2.n;
    let q = m.2.d;
    assert(qa >= 0 && qa != 0) by (nonlinear_arith)
        requires
            qa == dvx * dvx + dvy * dvy,
            equasion_model(qa, qb, qc) is Some,
    ;
    crate::sqrt::lemma_sqrt_floor_bounds(disc * 65536);
    assert(q == 512 * qa && (tn == -qb * 256 - s || tn == -qb * 256 + s));
    let gap = circle_gap_num(c1, v1, c2, v2, tn, q);
    // Expand the squared-distance numerator into the quadratic form.
    lemma_binomial(dpx, dvx, q, tn);
    lemma_binomial(dpy, dvy, q, tn);
    lemma_binomial(rr, 0, q, tn);
    assert((rr * q + 0 * tn) * (rr * q + 0 * tn) == (rr * q) * (rr * q));
    assert(qa * (tn * tn) == (dvx * dvx) * (tn * tn) + (dvy * dvy) * (tn * tn))
        by (nonlinear_arith)
        requires
            qa == dvx * dvx + dvy * dvy,
    ;
    assert(qb * (q * tn) == 2 * ((dpx * dvx) * (q * tn)) + 2 * ((dpy * dvy) * (q * tn)))
        by (nonlinear_arith)
        requires
            qb == 2 * (dpx * dvx + dpy * dvy),
    ;
    assert(qc * (q * q) == (dpx * dpx) * (q * q) + (dpy * dpy) * (q * q) - (rr * rr) * (q
        * q)) by (nonlinear_arith)
        requires
            qc == dpx * dpx + dpy * dpy - rr * rr,
    ;
    assert(gap == qa * (tn * tn) + qb * (q * tn) + qc * (q * q));
    // Complete the square: 4*qa*gap == (2*qa*tn + qb*q)^2 - disc*q^2.
    lemma_complete_square(qa, qb, qc, tn, q);
    assert(4 * qa * gap == (2 * qa * tn + qb * q) * (2 * qa * tn + qb * q) - disc * (q * q));
    // At either chosen root the linear term collapses to -/+ 2*qa*s.
    assert((2 * qa * tn + qb * q) * (2 * qa * tn + qb * q) == (2 * qa) * (2 * qa) * (s * s))
        by (nonlinear_arith)
        requires
            q == 512 * qa,
            tn == -qb * 256 - s || tn == -qb * 256 + s,
    ;
    assert(disc * (q * q) == (2 * qa) * (2 * qa) * (65536 * disc)) by (nonlinear_arith)
        requires
            q == 512 * qa,
    ;
    assert(4 * qa * gap == 4 * (qa * qa) * (s * s - 65536 * disc)) by (nonlinear_arith)
        requires
            4 * qa * gap == (2 * qa) * (2 * qa) * (s * s) - (2 * qa) * (2 * qa) * (65536 * disc),
    ;
    assert(gap == qa * (s * s - 65536 * disc)) by (nonlinear_arith)
        requires
            4 * qa * gap == 4 * (qa * qa) * (s * s - 65536 * disc),
            qa != 0,
    ;
    assert(gap <= 0) by (nonlinear_arith)
        requires
            gap == qa * (s * s - 65536 * disc),
            qa > 0,
            s * s <= 65536 * disc,
    ;
    assert(gap > -(qa * (2 * s + 1))) by (nonlinear_arith)
        requires
            gap == qa * (s * s - 65536 * disc),
            qa > 0,
            s >= 0,
            65536 * disc < (s + 1) * (s + 1),
    ;
    if s * s == disc * 65536 {
        assert(gap == 0) by (nonlinear_arith)
            requires
                gap == qa * (s * s - 65536 * disc),
                s * s == disc * 65536,
        ;
    }
}

/// Rearranging a product of two products.
proof fn lemma_mul_shuffle(p: int, q: int, r: int, s: int)
    ensures
        (p * q) * (r * s) == (p * r) * (q * s),
{
    broadcast use vstd::arithmetic::mul::group_mul_properties;

    assert((p * q) * (r * s) == p * (q * (r * s)));
    assert(q * (r * s) == (q * r) * s);
    assert(q * r == r * q);
    assert((r * q) * s == r * (q * s));
    assert(p * (r * (q * s)) == (p * r) * (q * s));
}

/// Expansion of a squared sum of two products.
proof fn lemma_binomial(p: int, v: int, q: int, t: int)
    ensures
        (p * q + v * t) * (p * q + v * t) == (p * p) * (q * q) + 2 * ((p * v) * (q * t)) + (v
            * v) * (t * t),
{
    broadcast use vstd::arithmetic::mul::group_mul_properties;

    let x = p * q;
    let y = v * t;
    assert((x + y) * (x + y) == (x + y) * x + (x + y) * y);
    assert((x + y) * x == x * x + y * x);
    assert((x + y) * y == x * y + y * y);
    assert(y * x == x * y);
    lemma_mul_shuffle(p, q, p, q);
    lemma_mul_shuffle(p, q, v, t);
    lemma_mul_shuffle(v, t, v, t);
}

/// Completing the square of the sweep quadratic.
proof fn lemma_complete_square(a: int, b: int, c: int, t: int, q: int)
    ensures
        4 * a * (a * (t * t) + b * (q * t) + c * (q * q)) == (2 * a * t + b * q) * (2 * a * t
            + b * q) - (b * b - 4 * a * c) * (q * q),
{
    broadcast use vstd::arithmetic::mul::group_mul_properties;

    let s1 = a * (t * t);
    let s2 = b * (q * t);
    let s3 = c * (q * q);
    // The left side distributes into three monomials.
    assert((4 * a) * (s1 + s2 + s3) == (4 * a) * s1 + (4 * a) * s2 + (4 * a) * s3);
    assert((4 * a) * s1 == 4 * (a * s1) && (4 * a) * s2 == 4 * (a * s2) && (4 * a) * s3 == 4 * (
    a * s3));
    assert(a * s1 == (a * a) * (t * t));
    assert(a * s2 == (a * b) * (q * t));
    assert(a * s3 == (a * c) * (q * q));
    // The squared binomial expands into the same monomials plus the
    // discriminant part.
    lemma_binomial(2 * a, b, t, q);
    assert(((2 * a) * (2 * a)) * (t * t) == 4 * ((a * a) * (t * t))) by {
        assert((2 * a) * (2 * a) == 4 * (a * a));
        assert((4 * (a * a)) * (t * t) == 4 * ((a * a) * (t * t)));
    }
    assert(((2 * a) * b) * (t * q) == 2 * ((a * b) * (q * t))) by {
        assert((2 * a) * b == 2 * (a * b));
        assert((2 * (a * b)) * (t * q) == 2 * ((a * b) * (t * q)));
        assert(t * q == q * t);
    }
    assert((b * b - 4 * a * c) * (q * q) == (b * b) * (q * q) - (4 * a * c) * (q * q));
    assert((4 * a * c) * (q * q) == 4 * ((a * c) * (q * q))) by {
        assert(4 * a * c == 4 * (a * c));
        assert((4 * (a * c)) * (q * q) == 4 * ((a * c) * (q * q)));
    }
}

/// **Round trip (rectangles).** Advancing both rectangles by a reported
/// time offset yields bounding frames that intersect — with closed
/// boundaries, so a zero-area overlap at the touching edge counts — and the
/// reported contact point is the center of that overlap, while the time is
/// never negative.
pub proof fn lemma_rect_round_trip(
    r1: crate::rectangle::Rectangle,
    v1: crate::vector::Vector,
    r2: crate::rectangle::Rectangle,
    v2: crate::vector::Vector,
)
    requires
        rect_model(r1, v1, r2, v2) is Some,
    ensures
        ({
            let m = rect_model(r1, v1, r2, v2)->Some_0;
            let t = crate::scalar::scalar_of(m.2);
            let m1 = moved_frame_model(r1, v1, t);
            let m2 = moved_frame_model(r2, v2, t);
            let ov = intercect_model(m1, m2);
            &&& crate::frame::frames_intersect(m1, m2)
            &&& m.0 == frac_half(frac_add(ov.from.0@, ov.to.0@))
            &&& m.1 == frac_half(frac_add(ov.from.1@, ov.to.1@))
            &&& m.2.n >= 0
        }),
{
}

/// Ordering of fractions with positive denominators is transitive.
proof fn lemma_frac_le_trans(a: Frac, b: Frac, c: Frac)
    requires
        a.d > 0,
        b.d > 0,
        c.d > 0,
        frac_le(a, b),
        frac_le(b, c),
    ensures
        frac_le(a, c),
{
    assert(a.n * c.d <= c.n * a.d) by (nonlinear_arith)
        requires
            a.d > 0,
            b.d > 0,
            c.d > 0,
            a.n * b.d <= b.n * a.d,
            b.n * c.d <= c.n * b.d,
    ;
}

/// A time inside an axis window keeps that axis's projections overlapping:
/// the advanced center offset `dp + dv * t` stays within the summed half
/// extent `h` (given as nonnegative), everything scaled by the positive
/// denominator of `t`.
proof fn lemma_window_bounds(dp: int, dv: int, h: int, tz: Frac)
    requires
        dv != 0,
        h >= 0,
        tz.d > 0,
        ({
            let (s, e) = axis_window_model(dp, dv, h)->Some_0;
            frac_le(s, tz) && frac_le(tz, e)
        }),
    ensures
        -(h * tz.d) <= dp * tz.d + dv * tz.n <= h * tz.d,
{
    let t1 = norm_frac(-h - dp, dv);
    let t2 = norm_frac(h - dp, dv);
    if dv > 0 {
        assert((-h - dp) * dv <= (h - dp) * dv) by (nonlinear_arith)
            requires
                h >= 0,
                dv > 0,
        ;
        if !crate::scalar::frac_lt(t1, t2) {
            lemma_cancel_common_den(t1.n, t2.n, dv);
        }
        assert(frac_le(t1, tz) && frac_le(tz, t2));
        assert((-h - dp) * tz.d == -(h * tz.d) - dp * tz.d) by (nonlinear_arith);
        assert((h - dp) * tz.d == h * tz.d - dp * tz.d) by (nonlinear_arith);
        assert(tz.n * dv == dv * tz.n) by (nonlinear_arith);
    } else {
        assert((dp - h) * (-dv) <= (h + dp) * (-dv)) by (nonlinear_arith)
            requires
                h >= 0,
                dv < 0,
        ;
        assert(frac_le(t2, tz) && frac_le(tz, t1));
        assert((dp - h) * tz.d == dp * tz.d - h * tz.d) by (nonlinear_arith);
        assert((h + dp) * tz.d == h * tz.d + dp * tz.d) by (nonlinear_arith);
        assert(tz.n * (-dv) == -(dv * tz.n)) by (nonlinear_arith);
    }
}

/// **Round trip (rectangles), per axis.** For rectangles with nonnegative
/// dimensions, advancing both by a reported time offset leaves the center
/// offset within the summed half extents on each axis: the moved rectangles
/// overlap or touch in both projections. Offsets, velocities and extents
/// are in half-grid (1/512) units; everything is scaled by the positive
/// denominator of the reported time.
pub proof fn lemma_rect_axis_touch(
    r1: crate::rectangle::Rectangle,
    v1: crate::vector::Vector,
    r2: crate::rectangle::Rectangle,
    v2: crate::vector::Vector,
)
    requires
        rect_model(r1, v1, r2, v2) is Some,
        grid_of(r1.dementions.0@) >= 0,
        grid_of(r1.dementions.1@) >= 0,
        grid_of(r2.dementions.0@) >= 0,
        grid_of(r2.dementions.1@) >= 0,
    ensures
        ({
            let m = rect_model(r1, v1, r2, v2)->Some_0;
            let tn = m.2.n;
            let q = m.2.d;
            let dpx = 2 * (grid_of(r2.location.0@) - grid_of(r1.location.0@));
            let dpy = 2 * (grid_of(r2.location.1@) - grid_of(r1.location.1@));
            let dvx = 2 * (grid_of(v2.0@) - grid_of(v1.0@));
            let dvy = 2 * (grid_of(v2.1@) - grid_of(v1.1@));
            let hx = grid_of(r1.dementions.0@) + grid_of(r2.dementions.0@);
            let hy = grid_of(r1.dementions.1@) + grid_of(r2.dementions.1@);
            &&& q > 0
            &&& -(hx * q) <= dpx * q + dvx * tn <= hx * q
            &&& -(hy * q) <= dpy * q + dvy * tn <= hy * q
        }),
{
    let dpx = 2 * (grid_of(r2.location.0@) - grid_of(r1.location.0@));
    let dpy = 2 * (grid_of(r2.location.1@) - grid_of(r1.location.1@));
    let dvx = 2 * (grid_of(v2.0@) - grid_of(v1.0@));
    let dvy = 2 * (grid_of(v2.1@) - grid_of(v1.1@));
    let hx = grid_of(r1.dementions.0@) + grid_of(r2.dementions.0@);
    let hy = grid_of(r1.dementions.1@) + grid_of(r2.dementions.1@);
    let (sx, ex) = axis_window_model(dpx, dvx, hx)->Some_0;
    let (sy, ey) = axis_window_model(dpy, dvy, hy)->Some_0;
    let st = if frac_le(sx, sy) { sy } else { sx };
    let en = if frac_le(ey, ex) { ey } else { ex };
    let tz = if frac_le(st, crate::scalar::frac_int(0)) { crate::scalar::frac_int(0) } else { st };
    assert(sx.d > 0 && ex.d > 0 && sy.d > 0 && ey.d > 0 && tz.d > 0);
    lemma_frac_le_trans(sx, st, tz);
    lemma_frac_le_trans(sy, st, tz);
    lemma_frac_le_trans(tz, en, ex);
    lemma_frac_le_trans(tz, en, ey);
    lemma_window_bounds(dpx, dvx, hx, tz);
    lemma_window_bounds(dpy, dvy, hy, tz);
}

/// When the two objects have the same velocity — in particular when both
/// stand still — the relative velocity is zero, every sweep is degenerate,
/// and no contact is ever reported, whether or not the shapes already
/// overlap. This pins down the engine's declared behavior for motionless
/// overlapping shapes: they yield no prediction.
pub proof fn lemma_no_relative_motion(a: PhysObj, b: PhysObj)
    requires
        a.wf(),
        b.wf(),
        a.in_grid(),
        b.in_grid(),
        grid_of(a.velosity.0@) == grid_of(b.velosity.0@),
        grid_of(a.velosity.1@) == grid_of(b.velosity.1@),
    ensures
        predict_model(a, b) is None,
{
    match (a.shape, b.shape) {
        (Shape::Circle(c1), Shape::Circle(c2)) => {
            let dvx = grid_of(b.velosity.0@) - grid_of(a.velosity.0@);
            let dvy = grid_of(b.velosity.1@) - grid_of(a.velosity.1@);
            assert(dvx * dvx + dvy * dvy == 0) by (nonlinear_arith)
                requires
                    dvx == 0,
                    dvy == 0,
            ;
        },
        (Shape::Rectangle(r1), Shape::Rectangle(r2)) => {
            assert(2 * (grid_of(b.velosity.0@) - grid_of(a.velosity.0@)) == 0);
        },
        _ => {},
    }
}

} // verus!
