use collide2d::scalar::Scalar;
use collide2d::vector::Vector;
use collide2d::circle::Circle;
use collide2d::rectangle::Rectangle;
use collide2d::shape::Shape;
use collide2d::phys_obj::{PhysObj, Prediction};

fn s(i: i128) -> Scalar {
    Scalar::from_int(i)
}

fn sq(n: i128, d: i128) -> Scalar {
    Scalar::new(n, d)
}

fn v(x: i128, y: i128) -> Vector {
    Vector(s(x), s(y))
}

fn assert_val(a: Scalar, b: Scalar) {
    assert!(a.eq_val(b), "values differ: {:?} vs {:?}", a, b);
}

fn circle_obj(x: i128, y: i128, r: i128, vx: i128, vy: i128) -> PhysObj {
    PhysObj {
        id: Option::None,
        velosity: v(vx, vy),
        shape: Shape::Circle(Circle { location: v(x, y), radius: s(r) }),
    }
}

fn rect_obj(x: i128, y: i128, w: i128, h: i128, vx: i128, vy: i128) -> PhysObj {
    PhysObj {
        id: Option::None,
        velosity: v(vx, vy),
        shape: Shape::Rectangle(Rectangle { location: v(x, y), dementions: v(w, h) }),
    }
}

#[test]
fn circles_collision() {
    let c1 = circle_obj(0, 0, 1, 1, 1);
    let c2 = circle_obj(10, 10, 1, -1, -1);
    let c3 = circle_obj(10, 12, 1, -1, -1);

    let x = PhysObj::predict_collision(&c1, &c2).unwrap();
    // The head-on diagonal case: the exact time of first touch is
    // irrational (10*sqrt(2) - 2) / (2*sqrt(2)); the engine's grid square
    // root lands just below it, between 4.2928 and 4.2930.
    assert!(sq(42928, 10000).lt(x.time_offset));
    assert!(x.time_offset.lt(sq(42930, 10000)));
    assert_val(x.location.0, s(5));
    assert_val(x.location.1, s(5));

    let y = PhysObj::predict_collision(&c1, &c3).unwrap();
    assert_val(y.time_offset, s(5));
    assert_val(y.location.0, s(5));
    assert_val(y.location.1, s(6));
}

#[test]
fn reactangles_collision() {
    let r1 = rect_obj(0, 0, 1, 1, 1, 1);
    let r2 = rect_obj(10, 10, 1, 1, -1, -1);
    let r3 = rect_obj(10, 12, 1, 1, -1, -1);

    let x = PhysObj::predict_collision(&r1, &r2).unwrap();
    assert_val(x.time_offset, sq(9, 2));
    assert_val(x.location.0, s(5));
    assert_val(x.location.1, s(5));

    let y = PhysObj::predict_collision(&r1, &r3).unwrap();
    assert_val(y.time_offset, sq(11, 2));
    assert_val(y.location.0, s(5));
    assert_val(y.location.1, s(6));
}

#[test]
fn equal_velocities_no_collision() {
    // Identical velocities make the relative velocity zero: the quadratic
    // degenerates and no collision is reported.
    let c1 = circle_obj(0, 0, 1, 2, 3);
    let c2 = circle_obj(10, 10, 1, 2, 3);
    assert!(PhysObj::predict_collision(&c1, &c2).is_none());
    assert_eq!(PhysObj::predict(&c1, &c2), Prediction::NoContact);
}

#[test]
fn motionless_overlapping_no_collision() {
    // Both objects standing still is degenerate even when the shapes
    // already overlap: the engine reports no contact, for rectangles and
    // circles alike.
    let r1 = rect_obj(0, 0, 4, 4, 0, 0);
    let r2 = rect_obj(1, 1, 4, 4, 0, 0);
    assert_eq!(PhysObj::predict(&r1, &r2), Prediction::NoContact);
    let c1 = circle_obj(0, 0, 2, 0, 0);
    let c2 = circle_obj(1, 0, 2, 0, 0);
    assert_eq!(PhysObj::predict(&c1, &c2), Prediction::NoContact);
}

#[test]
fn mixed_pair_unsupported() {
    // A circle against a rectangle is not implemented: the optional form
    // collapses it to "no collision", the three-way form says which.
    let c = circle_obj(0, 0, 1, 1, 1);
    let r = rect_obj(2, 0, 1, 1, -1, 0);
    assert!(PhysObj::predict_collision(&c, &r).is_none());
    assert_eq!(PhysObj::predict(&c, &r), Prediction::Unsupported);
    assert_eq!(PhysObj::predict(&r, &c), Prediction::Unsupported);
    let d = PhysObj { id: Option::None, velosity: v(0, 0), shape: Shape::Dot(v(0, 0)) };
    assert_eq!(PhysObj::predict(&d, &c), Prediction::Unsupported);
}

#[test]
fn symmetry_of_prediction() {
    // Swapping the two objects reports the same time and location.
    let c1 = circle_obj(0, 0, 1, 1, 1);
    let c3 = circle_obj(10, 12, 1, -1, -1);
    let xy = PhysObj::predict_collision(&c1, &c3).unwrap();
    let yx = PhysObj::predict_collision(&c3, &c1).unwrap();
    assert_val(xy.time_offset, yx.time_offset);
    assert_val(xy.location.0, yx.location.0);
    assert_val(xy.location.1, yx.location.1);

    let r1 = rect_obj(0, 0, 1, 1, 1, 1);
    let r3 = rect_obj(10, 12, 1, 1, -1, -1);
    let ab = PhysObj::predict_collision(&r1, &r3).unwrap();
    let ba = PhysObj::predict_collision(&r3, &r1).unwrap();
    assert_val(ab.time_offset, ba.time_offset);
    assert_val(ab.location.0, ba.location.0);
    assert_val(ab.location.1, ba.location.1);
}

#[test]
fn no_collision_in_the_past() {
    // Two circles that have already crossed and separate: both roots lie in
    // the past, so nothing is reported.
    let c1 = circle_obj(0, 0, 1, -1, 0);
    let c2 = circle_obj(10, 0, 1, 1, 0);
    assert!(PhysObj::predict_collision(&c1, &c2).is_none());
    // The same for rectangles: the time window lies entirely before now.
    let r1 = rect_obj(0, 0, 1, 1, -1, -1);
    let r2 = rect_obj(10, 10, 1, 1, 1, 1);
    assert!(PhysObj::predict_collision(&r1, &r2).is_none());
}

#[test]
fn overlapping_circles_report_exit_time() {
    // Already-overlapping circles moving apart: the first root is past,
    // the second (the moment they stop touching) is still ahead and is
    // reported.
    let c1 = circle_obj(0, 0, 2, -1, 0);
    let c2 = circle_obj(1, 0, 2, 1, 0);
    let x = PhysObj::predict_collision(&c1, &c2).unwrap();
    // Gap closes at |1 + 2t| = 4, ahead at t = 3/2.
    assert_val(x.time_offset, sq(3, 2));
}

#[test]
fn overlapping_rectangles_report_now() {
    // Already-overlapping rectangles in relative motion: the window starts
    // in the past and is clamped to now, and the contact point is the
    // center of the current overlap.
    let r1 = rect_obj(0, 0, 4, 4, 1, 1);
    let r2 = rect_obj(1, 0, 4, 4, 0, 0);
    let x = PhysObj::predict_collision(&r1, &r2).unwrap();
    assert_val(x.time_offset, s(0));
    assert_val(x.location.0, sq(1, 2));
    assert_val(x.location.1, s(0));
}

#[test]
fn rectangle_round_trip_touch() {
    // At the reported time the two rectangles touch exactly: advancing both
    // by hand brings their bounding frames into contact.
    let r1 = rect_obj(0, 0, 1, 1, 1, 1);
    let r2 = rect_obj(10, 10, 1, 1, -1, -1);
    let x = PhysObj::predict_collision(&r1, &r2).unwrap();
    assert_val(x.time_offset, sq(9, 2));
    let mut a = r1;
    a.shift(sq(9, 2));
    let mut b = r2;
    b.shift(sq(9, 2));
    // Centers land at (9/2, 9/2) and (11/2, 11/2); the unit squares meet
    // exactly at the corner (5, 5).
    let fa = a.shape.to_frame();
    let fb = b.shape.to_frame();
    assert!(fa.is_intercected(&fb));
    assert_val(fa.to.0, s(5));
    assert_val(fb.from.0, s(5));
    assert_val(fa.to.1, s(5));
    assert_val(fb.from.1, s(5));
}

#[test]
fn circle_round_trip_touch() {
    // A head-on case whose time of touch is exact: centers 4 apart, radii
    // summing to 2, closing speed 2, touching after t = 1 at the midpoint.
    let c1 = circle_obj(0, 0, 1, 1, 0);
    let c2 = circle_obj(4, 0, 1, -1, 0);
    let x = PhysObj::predict_collision(&c1, &c2).unwrap();
    assert_val(x.time_offset, s(1));
    assert_val(x.location.0, s(2));
    assert_val(x.location.1, s(0));
    // Advancing both centers by hand: 0 + 1*1 = 1 and 4 - 1*1 = 3, whose
    // distance is exactly the radius sum.
    let mut a = c1;
    a.shift(s(1));
    let mut b = c2;
    b.shift(s(1));
    match (a.shape, b.shape) {
        (Shape::Circle(ca), Shape::Circle(cb)) => {
            assert_val(ca.location.0, s(1));
            assert_val(cb.location.0, s(3));
        },
        _ => panic!("shapes changed kind"),
    }
}

#[test]
fn nonnegative_time_offsets() {
    // Whenever a collision is reported its time offset is nonnegative.
    let cases = [
        (circle_obj(0, 0, 1, 1, 1), circle_obj(10, 10, 1, -1, -1)),
        (circle_obj(0, 0, 2, -1, 0), circle_obj(1, 0, 2, 1, 0)),
        (rect_obj(0, 0, 4, 4, 1, 0), rect_obj(1, 0, 4, 4, 0, 0)),
        (rect_obj(0, 0, 1, 1, 1, 1), rect_obj(10, 12, 1, 1, -1, -1)),
    ];
    for (a, b) in cases {
        if let Some(col) = PhysObj::predict_collision(&a, &b) {
            assert!(col.time_offset.num >= 0);
            assert!(col.time_offset.den > 0);
        }
    }
}

#[test]
fn fractional_grid_inputs() {
    // Coordinates on the 1/256 grid work exactly: half-unit rectangles a
    // half unit apart, closing at one unit per time step.
    let r1 = PhysObj {
        id: Option::Some(1),
        velosity: v(1, 1),
        shape: Shape::Rectangle(Rectangle {
            location: Vector(sq(-1, 2), s(0)),
            dementions: Vector(sq(1, 2), sq(1, 2)),
        }),
    };
    let r2 = PhysObj {
        id: Option::Some(2),
        velosity: v(0, 0),
        shape: Shape::Rectangle(Rectangle {
            location: Vector(sq(1, 2), s(0)),
            dementions: Vector(sq(1, 2), sq(1, 2)),
        }),
    };
    let x = PhysObj::predict_collision(&r1, &r2).unwrap();
    assert_val(x.time_offset, sq(1, 2));
}

#[test]
fn shift_scales_velocity_in_place() {
    // The in-place advance scales the stored velocity itself, as the
    // chained mutating arithmetic does, and moves the shape by that scaled
    // velocity.
    let mut o = rect_obj(0, 0, 2, 2, 4, 6);
    o.shift(sq(1, 2));
    assert_val(o.velosity.0, s(2));
    assert_val(o.velosity.1, s(3));
    match o.shape {
        Shape::Rectangle(r) => {
            assert_val(r.location.0, s(2));
            assert_val(r.location.1, s(3));
        },
        _ => panic!("shape changed kind"),
    }
}
