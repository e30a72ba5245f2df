use buoyant::primitives::geometry::{Intersection, Rectangle};
use buoyant::primitives::{Point, Size};

#[test]
fn intersection_overlapping_rectangles() {
    let rect1 = Rectangle::new(Point::new(10, 10), Size::new(20, 20));
    let rect2 = Rectangle::new(Point::new(20, 20), Size::new(20, 20));

    let intersection = rect1.intersection(&rect2);

    assert!(intersection.is_some());
    let intersection = intersection.unwrap();
    assert_eq!(intersection.origin, Point::new(20, 20));
    assert_eq!(intersection.size, Size::new(10, 10));
}

#[test]
fn intersection_non_overlapping_rectangles() {
    let rect1 = Rectangle::new(Point::new(0, 0), Size::new(10, 10));
    let rect2 = Rectangle::new(Point::new(20, 20), Size::new(10, 10));

    let intersection = rect1.intersection(&rect2);

    assert!(intersection.is_none());
}

#[test]
fn intersection_identical_rectangles() {
    let rect1 = Rectangle::new(Point::new(5, 5), Size::new(15, 25));
    let rect2 = Rectangle::new(Point::new(5, 5), Size::new(15, 25));

    let intersection = rect1.intersection(&rect2);

    assert!(intersection.is_some());
    let intersection = intersection.unwrap();
    assert_eq!(intersection, rect1);
}

#[test]
fn intersection_fully_inside() {
    let outer = Rectangle::new(Point::new(0, 0), Size::new(100, 100));
    let inner = Rectangle::new(Point::new(25, 25), Size::new(50, 50));

    let intersection0 = outer.intersection(&inner);
    let intersection1 = inner.intersection(&outer);

    assert_eq!(intersection0, intersection1);
    assert!(intersection0.is_some());
    let intersection = intersection0.unwrap();
    assert_eq!(intersection, inner);
}

#[test]
fn intersection_touching_edges() {
    let rect1 = Rectangle::new(Point::new(0, 0), Size::new(10, 10));
    let rect2 = Rectangle::new(Point::new(10, 0), Size::new(10, 10));

    let intersection1 = rect1.intersection(&rect2);
    let intersection2 = rect2.intersection(&rect1);

    assert!(intersection1.is_none());
    assert!(intersection2.is_none());
}

#[test]
fn intersection_touching_corners() {
    let rect1 = Rectangle::new(Point::new(0, 0), Size::new(10, 10));
    let rect2 = Rectangle::new(Point::new(10, 10), Size::new(10, 10));

    let intersection = rect1.intersection(&rect2);

    assert!(intersection.is_none());
}

#[test]
fn intersection_partial_overlap_horizontal() {
    let rect1 = Rectangle::new(Point::new(0, 10), Size::new(20, 20));
    let rect2 = Rectangle::new(Point::new(10, 10), Size::new(20, 20));

    let intersection = rect1.intersection(&rect2);

    assert!(intersection.is_some());
    let intersection = intersection.unwrap();
    assert_eq!(intersection.origin, Point::new(10, 10));
    assert_eq!(intersection.size, Size::new(10, 20));
}

#[test]
fn intersection_partial_overlap_vertical() {
    let rect1 = Rectangle::new(Point::new(10, 0), Size::new(20, 20));
    let rect2 = Rectangle::new(Point::new(10, 10), Size::new(20, 20));

    let intersection = rect1.intersection(&rect2);

    assert!(intersection.is_some());
    let intersection = intersection.unwrap();
    assert_eq!(intersection.origin, Point::new(10, 10));
    assert_eq!(intersection.size, Size::new(20, 10));
}

#[test]
fn intersection_with_negative_coordinates() {
    let rect1 = Rectangle::new(Point::new(-10, -10), Size::new(20, 20));
    let rect2 = Rectangle::new(Point::new(-5, -5), Size::new(20, 20));

    let intersection = rect1.intersection(&rect2);

    assert!(intersection.is_some());
    let intersection = intersection.unwrap();
    assert_eq!(intersection.origin, Point::new(-5, -5));
    assert_eq!(intersection.size, Size::new(15, 15));
}

#[test]
fn union_overlapping_rectangles() {
    let rect1 = Rectangle::new(Point::new(10, 10), Size::new(20, 20));
    let rect2 = Rectangle::new(Point::new(20, 20), Size::new(20, 20));

    let union = rect1.union(&rect2);

    assert_eq!(union.origin, Point::new(10, 10));
    assert_eq!(union.size, Size::new(30, 30));
}

#[test]
fn union_non_overlapping_rectangles() {
    let rect1 = Rectangle::new(Point::new(0, 0), Size::new(10, 10));
    let rect2 = Rectangle::new(Point::new(20, 20), Size::new(10, 10));

    let union = rect1.union(&rect2);

    assert_eq!(union.origin, Point::new(0, 0));
    assert_eq!(union.size, Size::new(30, 30));
}

#[test]
fn union_identical_rectangles() {
    let rect1 = Rectangle::new(Point::new(5, 5), Size::new(15, 25));
    let rect2 = Rectangle::new(Point::new(5, 5), Size::new(15, 25));

    let union = rect1.union(&rect2);

    assert_eq!(union, rect1);
}

#[test]
fn union_fully_inside() {
    let outer = Rectangle::new(Point::new(0, 0), Size::new(100, 100));
    let inner = Rectangle::new(Point::new(25, 25), Size::new(50, 50));

    let union0 = outer.union(&inner);
    let union1 = inner.union(&outer);

    assert_eq!(union0, union1);
    assert_eq!(union0, outer);
}

#[test]
fn union_touching_corners() {
    let rect1 = Rectangle::new(Point::new(0, 0), Size::new(10, 10));
    let rect2 = Rectangle::new(Point::new(10, 10), Size::new(10, 10));

    let union = rect1.union(&rect2);

    assert_eq!(union.origin, Point::new(0, 0));
    assert_eq!(union.size, Size::new(20, 20));
}

#[test]
fn union_partial_overlap_horizontal() {
    let rect1 = Rectangle::new(Point::new(0, 10), Size::new(20, 20));
    let rect2 = Rectangle::new(Point::new(10, 10), Size::new(20, 20));

    let union = rect1.union(&rect2);

    assert_eq!(union.origin, Point::new(0, 10));
    assert_eq!(union.size, Size::new(30, 20));
}

#[test]
fn union_partial_overlap_vertical() {
    let rect1 = Rectangle::new(Point::new(10, 0), Size::new(20, 20));
    let rect2 = Rectangle::new(Point::new(10, 10), Size::new(20, 20));

    let union = rect1.union(&rect2);

    assert_eq!(union.origin, Point::new(10, 0));
    assert_eq!(union.size, Size::new(20, 30));
}

#[test]
fn union_with_negative_coordinates() {
    let rect1 = Rectangle::new(Point::new(-10, -10), Size::new(20, 20));
    let rect2 = Rectangle::new(Point::new(-5, -5), Size::new(20, 20));

    let union = rect1.union(&rect2);

    assert_eq!(union.origin, Point::new(-10, -10));
    assert_eq!(union.size, Size::new(25, 25));
}

#[test]
fn union_is_commutative() {
    let rect1 = Rectangle::new(Point::new(5, 10), Size::new(15, 20));
    let rect2 = Rectangle::new(Point::new(12, 8), Size::new(10, 25));

    let union1 = rect1.union(&rect2);
    let union2 = rect2.union(&rect1);

    assert_eq!(union1, union2);
}

#[test]
fn containment_fully_contained() {
    let outer = Rectangle::new(Point::new(0, 0), Size::new(100, 100));
    let inner = Rectangle::new(Point::new(25, 25), Size::new(50, 50));

    assert_eq!(outer.intersection_with(&inner), Intersection::Contains);
}

#[test]
fn containment_partially_contained() {
    let rect1 = Rectangle::new(Point::new(0, 0), Size::new(50, 50));
    let rect2 = Rectangle::new(Point::new(25, 25), Size::new(50, 50));

    assert_eq!(rect1.intersection_with(&rect2), Intersection::Overlaps);
    assert_eq!(rect2.intersection_with(&rect1), Intersection::Overlaps);
}

#[test]
fn containment_non_intersecting() {
    let rect1 = Rectangle::new(Point::new(0, 0), Size::new(10, 10));
    let rect2 = Rectangle::new(Point::new(20, 20), Size::new(10, 10));

    assert_eq!(
        rect1.intersection_with(&rect2),
        Intersection::NonIntersecting
    );
    assert_eq!(
        rect2.intersection_with(&rect1),
        Intersection::NonIntersecting
    );
}

#[test]
fn containment_identical_rectangles() {
    let rect1 = Rectangle::new(Point::new(10, 10), Size::new(30, 30));
    let rect2 = Rectangle::new(Point::new(10, 10), Size::new(30, 30));

    assert_eq!(rect1.intersection_with(&rect2), Intersection::Contains);
}

#[test]
fn containment_inner_contains_outer_is_partial() {
    let outer = Rectangle::new(Point::new(0, 0), Size::new(100, 100));
    let inner = Rectangle::new(Point::new(25, 25), Size::new(50, 50));

    // inner cannot fully contain outer, so it's partial
    assert_eq!(inner.intersection_with(&outer), Intersection::Overlaps);
}

#[test]
fn containment_touching_edges_is_non_intersecting() {
    let rect1 = Rectangle::new(Point::new(0, 0), Size::new(10, 10));
    let rect2 = Rectangle::new(Point::new(10, 0), Size::new(10, 10));

    assert_eq!(
        rect1.intersection_with(&rect2),
        Intersection::NonIntersecting
    );
}

#[test]
fn containment_with_negative_coordinates() {
    let outer = Rectangle::new(Point::new(-50, -50), Size::new(100, 100));
    let inner = Rectangle::new(Point::new(-25, -25), Size::new(50, 50));

    assert_eq!(outer.intersection_with(&inner), Intersection::Contains);
    assert_eq!(inner.intersection_with(&outer), Intersection::Overlaps);
}

/// Zero-area rects should still work, these bounds commonly arise from the Line primitive
#[test]
fn containment_with_zero_dimension() {
    let outer = Rectangle::new(Point::new(0, 0), Size::new(100, 100));
    let inner_horizontal = Rectangle::new(Point::new(10, 10), Size::new(50, 0));
    let inner_vertical = Rectangle::new(Point::new(10, 10), Size::new(0, 50));

    assert_eq!(
        outer.intersection_with(&inner_horizontal),
        Intersection::Contains
    );

    assert_eq!(
        outer.intersection_with(&inner_vertical),
        Intersection::Contains
    );
}

/// Zero-area rects should still work, these bounds commonly arise from the Line primitive
#[test]
fn containment_with_zero_dimension_overlap() {
    let outer = Rectangle::new(Point::new(0, 0), Size::new(100, 100));
    let inner_horizontal = Rectangle::new(Point::new(-10, 10), Size::new(50, 0));
    let inner_vertical = Rectangle::new(Point::new(10, -10), Size::new(0, 50));

    assert_eq!(
        outer.intersection_with(&inner_horizontal),
        Intersection::Overlaps
    );

    assert_eq!(
        outer.intersection_with(&inner_vertical),
        Intersection::Overlaps
    );
}
