use collide2d::scalar::Scalar;
use collide2d::vector::{Vector, Orientation};
use collide2d::range::Range;
use collide2d::frame::Frame;
use collide2d::circle::Circle;
use collide2d::rectangle::Rectangle;
use collide2d::segment::Segment;
use collide2d::shape::Shape;

fn s(i: i128) -> Scalar {
    Scalar::from_int(i)
}

fn sq(n: i128, d: i128) -> Scalar {
    Scalar::new(n, d)
}

fn v(x: i128, y: i128) -> Vector {
    Vector(s(x), s(y))
}

fn assert_val(a: Scalar, b: Scalar) {
    assert!(a.eq_val(b), "values differ: {:?} vs {:?}", a, b);
}

fn assert_vec_val(a: Vector, b: Vector) {
    assert_val(a.0, b.0);
    assert_val(a.1, b.1);
}

#[test]
fn default() {
    let d = Vector::default();
    assert_val(d.0, s(0));
    assert_val(d.1, s(0));
}

#[test]
fn size() {
    let v1 = Vector::default();
    assert_val(v1.size(), s(0));
    let v2 = v(3, 4);
    assert_val(v2.size(), s(5));
}

#[test]
fn add() {
    let mut v1 = v(1, 2);
    let v2 = v(3, 4);
    v1.add(&v2);
    assert_val(v1.0, s(4));
    assert_val(v1.1, s(6));
}

#[test]
fn vector_scale() {
    let mut v1 = v(1, 2);
    v1.scale(s(2));
    assert_val(v1.0, s(2));
    assert_val(v1.1, s(4));
}

#[test]
fn normalize() {
    let mut v1 = v(3, 0);
    let mut v2 = v(0, 0);
    v1.normalize();
    v2.normalize();
    assert_val(v1.0, s(1));
    assert_val(v1.1, s(0));
    assert_val(v2.0, s(0));
    assert_val(v2.1, s(0));
}

#[test]
fn dot() {
    let a = v(1, 2);
    let b = v(3, 4);
    assert_val(a.dot(&b), s(11));
}

#[test]
fn cross() {
    let a = v(1, 1);
    let b1 = v(1, 4);
    let b2 = Vector(s(1), sq(1, 2));
    let b3 = v(10, 10);
    assert_eq!(a.cross(&b1), Orientation::Clockwise);
    assert_eq!(a.cross(&b2), Orientation::Counterclockwise);
    assert_eq!(a.cross(&b3), Orientation::Collinear);
}

#[test]
fn intercept() {
    let r1 = Range(s(1), s(3));
    let r2 = Range(s(2), s(4));
    let a = r1.intercept(&r1).unwrap();
    assert_val(a.0, s(1));
    assert_val(a.1, s(3));
    let b = r1.intercept(&r2).unwrap();
    assert_val(b.0, s(2));
    assert_val(b.1, s(3));
    let c = r2.intercept(&r1).unwrap();
    assert_val(c.0, s(2));
    assert_val(c.1, s(3));
}

#[test]
fn clanp_start() {
    let r1 = Range(s(1), s(3));
    let a = r1.clamp_start(s(2)).unwrap();
    assert_val(a.0, s(2));
    assert_val(a.1, s(3));
    let b = r1.clamp_start(s(3)).unwrap();
    assert_val(b.0, s(3));
    assert_val(b.1, s(3));
    assert!(r1.clamp_start(s(4)).is_none());
    let c = r1.clamp_start(s(-2)).unwrap();
    assert_val(c.0, s(1));
    assert_val(c.1, s(3));
}

#[test]
fn clanp_end() {
    let r1 = Range(s(1), s(3));
    assert!(r1.clamp_end(s(-1)).is_none());
    let a = r1.clamp_end(s(1)).unwrap();
    assert_val(a.0, s(1));
    assert_val(a.1, s(1));
    let b = r1.clamp_end(s(2)).unwrap();
    assert_val(b.0, s(1));
    assert_val(b.1, s(2));
    let c = r1.clamp_end(s(20)).unwrap();
    assert_val(c.0, s(1));
    assert_val(c.1, s(3));
}

#[test]
fn range_center() {
    let r1 = Range(s(1), s(4));
    assert_val(r1.center(), sq(5, 2));
}

#[test]
fn circle_to_frame() {
    let c = Circle { location: v(0, 0), radius: s(1) };
    let f = c.to_frame();
    assert_val(f.from.0, s(-1));
    assert_val(f.from.1, s(-1));
    assert_val(f.to.0, s(1));
    assert_val(f.to.1, s(1));
}

#[test]
fn dementions() {
    let f = Frame { from: v(0, 0), to: v(1, 1) };
    let d = f.dementions();
    assert_val(d.0, s(1));
    assert_val(d.1, s(1));
}

#[test]
fn is_intercected() {
    let f = Frame { from: v(0, 0), to: v(2, 2) };
    let i1 = f.is_intercected(&Frame { from: v(1, 1), to: v(3, 3) });
    let i2 = f.is_intercected(&Frame { from: v(4, 4), to: v(5, 5) });
    assert_eq!(i1, true);
    assert_eq!(i2, false);
}

#[test]
fn intercect() {
    let f = Frame { from: v(0, 0), to: v(2, 2) };
    let i1 = f.intercect(&Frame { from: v(1, 1), to: v(3, 3) }).unwrap();
    assert_vec_val(i1.from, v(1, 1));
    assert_vec_val(i1.to, v(2, 2));
}

#[test]
fn frame_center() {
    let f = Frame { from: v(0, 0), to: v(2, 4) };
    assert_vec_val(f.center(), v(1, 2));
}

#[test]
fn rectangle_area() {
    let r = Rectangle { location: v(0, 0), dementions: v(3, 4) };
    assert_val(r.area(), s(12));
}

#[test]
fn rectangle_to_frame() {
    let r = Rectangle { location: v(0, 0), dementions: v(3, 4) };
    let f = r.to_frame();
    assert_val(f.from.0, sq(-3, 2));
    assert_val(f.from.1, s(-2));
    assert_val(f.to.0, sq(3, 2));
    assert_val(f.to.1, s(2));
}

#[test]
fn rectangle_shift_and_from_frame() {
    let mut r = Rectangle { location: v(1, 1), dementions: v(2, 2) };
    r.shift(&v(2, 3));
    assert_vec_val(r.location, v(3, 4));
    let copy = r.clone_shift(&v(-3, -4));
    assert_vec_val(copy.location, v(0, 0));
    assert_vec_val(r.location, v(3, 4));
    let back = Rectangle::from_frame(&r.to_frame());
    assert_vec_val(back.location, v(3, 4));
    assert_vec_val(back.dementions, v(2, 2));
}

#[test]
fn end() {
    let r = Segment { location: v(1, 2), vector: v(3, 4) };
    assert_vec_val(r.end(), v(4, 6));
}

#[test]
fn segment_to_frame() {
    let r = Segment { location: v(1, 2), vector: v(3, -4) };
    let a = r.to_frame();
    assert_vec_val(a.from, v(1, -2));
    assert_vec_val(a.to, v(4, 2));
}

#[test]
fn segment_scale() {
    let mut r = Segment { location: v(1, 2), vector: v(3, -4) };
    r.scale(s(2));
    assert_vec_val(r.location, v(1, 2));
    assert_vec_val(r.vector, v(6, -8));
}

#[test]
fn shift() {
    let mut r = Segment { location: v(1, 2), vector: v(3, -4) };
    r.shift(&v(1, 2));
    assert_vec_val(r.location, v(2, 4));
    assert_vec_val(r.vector, v(3, -4));
}

#[test]
fn project_point() {
    let sgm = Segment { location: v(0, 0), vector: v(0, 2) };
    let p = sgm.project_point(&v(1, 1));
    assert_vec_val(p, v(0, 1));
}

#[test]
fn dot_to_frame() {
    let a = Shape::Dot(v(1, 1));
    let f = a.to_frame();
    assert_vec_val(f.from, v(1, 1));
    assert_vec_val(f.to, v(1, 1));
}

#[test]
fn dots_collision() {
    let a = Shape::Dot(v(1, 1));
    let b = Shape::Dot(v(1, 1));
    let c = Shape::Dot(v(2, 2));
    assert_vec_val(a.collision_with(&b).unwrap(), v(1, 1));
    assert!(a.collision_with(&c).is_none());
}

#[test]
fn dot_and_circle_collision() {
    let a = Shape::Circle(Circle { location: v(0, 0), radius: s(1) });
    let b = Shape::Dot(Vector(sq(1, 2), sq(1, 2)));
    let c = Shape::Dot(Vector(sq(3, 2), sq(3, 2)));
    let hit = a.collision_with(&b).unwrap();
    assert_val(hit.0, sq(1, 2));
    assert_val(hit.1, sq(1, 2));
    assert!(a.collision_with(&c).is_none());
}

#[test]
fn circles_overlap_contact() {
    // Two unit circles with centers three halves of a unit apart overlap;
    // the contact point lies midway between the two radius end points, on
    // the center line.
    let a = Shape::Circle(Circle { location: v(0, 0), radius: s(1) });
    let b = Shape::Circle(Circle { location: Vector(sq(3, 2), s(0)), radius: s(1) });
    let hit = a.collision_with(&b).unwrap();
    assert_val(hit.0, sq(3, 4));
    assert_val(hit.1, s(0));
    // Unequal radii: circles of radius 1 and 3 with centers four apart
    // touch at the single point one unit along the center line.
    let small = Shape::Circle(Circle { location: v(0, 0), radius: s(1) });
    let big = Shape::Circle(Circle { location: v(4, 0), radius: s(3) });
    let touch = small.collision_with(&big).unwrap();
    assert_val(touch.0, s(1));
    assert_val(touch.1, s(0));
    // Coinciding centers report the first circle's center.
    let c = Shape::Circle(Circle { location: v(0, 0), radius: s(2) });
    let same = a.collision_with(&c).unwrap();
    assert_val(same.0, s(0));
    assert_val(same.1, s(0));
    // Distant circles report nothing.
    let far = Shape::Circle(Circle { location: v(10, 0), radius: s(1) });
    assert!(a.collision_with(&far).is_none());
}

#[test]
fn rectangles_overlap_contact() {
    let a = Shape::Rectangle(Rectangle { location: v(0, 0), dementions: v(2, 2) });
    let b = Shape::Rectangle(Rectangle { location: v(1, 1), dementions: v(2, 2) });
    let hit = a.collision_with(&b).unwrap();
    assert_val(hit.0, sq(1, 2));
    assert_val(hit.1, sq(1, 2));
    // Rectangles only touching at an edge do not count as overlapping here.
    let c = Shape::Rectangle(Rectangle { location: v(2, 0), dementions: v(2, 2) });
    assert!(a.collision_with(&c).is_none());
}

#[test]
fn segment_pairs_unsupported() {
    let a = Shape::Segment(Segment { location: v(0, 0), vector: v(1, 1) });
    let b = Shape::Segment(Segment { location: v(0, 1), vector: v(1, -1) });
    assert!(a.collision_with(&b).is_none());
}

#[test]
fn scalar_arithmetic() {
    let half = sq(1, 2);
    let third = sq(1, 3);
    assert_val(half.add(third), sq(5, 6));
    assert_val(half.sub(third), sq(1, 6));
    assert_val(half.mul(third), sq(1, 6));
    assert_val(half.div(third), sq(3, 2));
    assert_val(half.neg(), sq(-1, 2));
    assert_val(half.half(), sq(1, 4));
    assert!(third.lt(half));
    assert!(third.le(third));
    assert!(sq(2, 4).eq_val(sq(1, 2)));
    assert!(sq(1, -2).eq_val(sq(-1, 2)));
}
