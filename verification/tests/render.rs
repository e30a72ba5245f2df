use buoyant::render::shape::Circle as CircleShape;
use buoyant::primitives::geometry::{Circle, Rectangle, RoundedRectangle};
use buoyant::primitives::{Point, Size};
use buoyant::render::shape::Inset;
use buoyant::render::{
    AnimatedJoin, AnimationDomain, Capsule, ContentShape, IntrinsicShape, Opacity, Rect,
};
use buoyant::primitives::Interpolate;
use core::time::Duration;

fn animation_domain(factor: u8) -> AnimationDomain {
    AnimationDomain::new(factor, Duration::from_millis(100))
}

#[test]
fn rectangle_bounding_box() {
    let rect = Rectangle {
        origin: Point { x: 10, y: 20 },
        size: Size {
            width: 30,
            height: 40,
        },
    }
    .with_offset(Point { x: 5, y: 5 });

    let bounding_box = rect.bounding_box();
    assert_eq!(
        bounding_box,
        Rectangle {
            origin: Point { x: 15, y: 25 },
            size: Size {
                width: 30,
                height: 40
            }
        }
    );
    let content_shape = ContentShape::Rectangle(rect);
    assert_eq!(content_shape.bounding_box(), Some(bounding_box));
}

#[test]
fn circle_bounding_box() {
    let circle = Circle {
        origin: Point { x: 10, y: 20 },
        diameter: 10,
    }
    .with_offset(Point { x: 5, y: 5 });

    let bounding_box = circle.bounding_box();
    assert_eq!(
        bounding_box,
        Rectangle {
            origin: Point { x: 15, y: 25 },
            size: Size {
                width: 10,
                height: 10
            }
        }
    );
    let content_shape = ContentShape::Circle(circle);
    assert_eq!(content_shape.bounding_box(), Some(bounding_box));
}

#[test]
fn rounded_rectangle_bounding_box() {
    let rrect = RoundedRectangle {
        origin: Point { x: 10, y: 20 },
        size: Size {
            width: 30,
            height: 40,
        },
        radius: 5,
    }
    .with_offset(Point { x: 5, y: 5 });

    let bounding_box = rrect.bounding_box();
    assert_eq!(
        bounding_box,
        Rectangle {
            origin: Point { x: 15, y: 25 },
            size: Size {
                width: 30,
                height: 40
            }
        }
    );
    let content_shape = ContentShape::RoundedRectangle(rrect);
    assert_eq!(content_shape.bounding_box(), Some(bounding_box));
}

#[test]
fn empty_content_shape() {
    let content_shape = ContentShape::Empty;
    assert_eq!(content_shape.bounding_box(), None);
    assert!(!content_shape.contains(Point { x: 0, y: 0 }));
}

#[test]
fn tuple_content_shape_union() {
    let rect1 = Rect::new(Point::new(0, 0), Size::new(10, 10));
    let rect2 = Rect::new(Point::new(20, 20), Size::new(10, 10));
    let tuple = (rect1, rect2);

    let shape = tuple.content_shape();
    let bbox = shape.bounding_box().unwrap();
    assert_eq!(bbox.origin, Point::new(0, 0));
    assert_eq!(bbox.size, Size::new(30, 30));
}

#[test]
fn array_content_shape_union() {
    let rects = [
        Rect::new(Point::new(0, 0), Size::new(10, 10)),
        Rect::new(Point::new(20, 20), Size::new(10, 10)),
    ];

    let shape = rects.content_shape();
    let bbox = shape.bounding_box().unwrap();
    assert_eq!(bbox.origin, Point::new(0, 0));
    assert_eq!(bbox.size, Size::new(30, 30));
}

#[test]
fn empty_array_content_shape_is_empty() {
    let rects: [Rect; 0] = [];
    assert_eq!(rects.content_shape(), ContentShape::Empty);
}

#[test]
fn tuple_union_of_bounding_boxes() {
    let rect = Rect::new(Point::new(20, 20), Size::new(10, 10));
    let rects = (Option::<Rect>::None, rect.clone());
    assert_eq!(
        rects.content_shape().bounding_box(),
        rect.content_shape().bounding_box()
    );
}

#[test]
fn opacity_animated_join_at_start() {
    let source = Opacity::new((), 0);
    let mut target = Opacity::new((), 200);

    target.join_from(&source, &animation_domain(0));

    // At factor 0, should have source's opacity
    assert_eq!(target.opacity, source.opacity);
}

#[test]
fn opacity_animated_join_at_end() {
    let source = Opacity::new((), 0);
    let original_target = Opacity::new((), 200);
    let mut target = original_target.clone();

    target.join_from(&source, &animation_domain(255));

    // At factor 255, should have target's opacity
    assert_eq!(target.opacity, original_target.opacity);
}

#[test]
fn animated_join_interpolates_opacity() {
    let source = Opacity::new((), 50);
    let original_target = Opacity::new((), 200);
    let mut target = original_target.clone();

    target.join_from(&source, &animation_domain(128));

    assert_eq!(
        target.opacity,
        Interpolate::interpolate(source.opacity, original_target.opacity, 128)
    );
}

#[test]
fn empty_content_shape_when_transparent() {
    let v = Opacity::new(Rect::new(Point::zero(), Size::new(10, 10)), 0);
    assert_eq!(v.content_shape(), ContentShape::Empty);
}

#[test]
fn animated_join_some_to_some() {
    let source = Some(Rect::new(Point::zero(), Size::new(10, 10)));
    let mut target = Some(Rect::new(Point::new(20, 20), Size::new(30, 30)));
    let domain = AnimationDomain::new(128, Duration::from_millis(100));
    target.join_from(&source, &domain);
    assert_eq!(
        target,
        Some(Rect::new(Point::new(10, 10), Size::new(20, 20)))
    );
}

#[test]
fn animated_join_some_to_none() {
    let source = Some(Rect::new(Point::zero(), Size::new(1, 1)));
    let mut target = None;
    let domain = AnimationDomain::new(128, Duration::from_millis(100));
    target.join_from(&source, &domain);
    assert_eq!(target, None);
}

#[test]
fn animated_join_none_to_some() {
    let source = None;
    let mut target = Some(Rect::new(Point::zero(), Size::new(1, 1)));
    let domain = AnimationDomain::new(128, Duration::from_millis(100));
    target.join_from(&source, &domain);
    assert_eq!(target, Some(Rect::new(Point::zero(), Size::new(1, 1))));
}

#[test]
fn animated_join_none_to_none() {
    let source = None;
    let mut target = None;
    let domain = AnimationDomain::new(128, Duration::from_millis(100));
    Option::<Rect>::join_from(&mut target, &source, &domain);
    assert_eq!(target, None);
}

#[test]
fn capsule_animated_join_at_start() {
    let source = Capsule::new(Point::new(5, 10), Size::new(20, 30));
    let mut target = Capsule::new(Point::new(15, 25), Size::new(40, 50));

    target.join_from(&source, &animation_domain(0));

    assert_eq!(source.origin, target.origin);
    assert_eq!(source.size, target.size);
}

#[test]
fn capsule_animated_join_at_end() {
    let source = Capsule::new(Point::new(5, 10), Size::new(20, 30));
    let original_target = Capsule::new(Point::new(15, 25), Size::new(40, 50));
    let mut target = original_target.clone();

    target.join_from(&source, &animation_domain(255));

    assert_eq!(target.origin, original_target.origin);
    assert_eq!(target.size, original_target.size);
}

#[test]
fn capsule_positive_inset_shrinks() {
    let capsule = Capsule {
        origin: Point::new(10, 20),
        size: Size::new(100, 200),
    };
    let inset_capsule = capsule.inset(10);

    assert_eq!(inset_capsule.origin, Point::new(20, 30));
    assert_eq!(inset_capsule.size, Size::new(80, 180));
}

#[test]
fn capsule_negative_inset_grows() {
    let capsule = Capsule {
        origin: Point::new(10, 20),
        size: Size::new(100, 200),
    };
    let inset_capsule = capsule.inset(-10);

    assert_eq!(inset_capsule.origin, Point::new(0, 10));
    assert_eq!(inset_capsule.size, Size::new(120, 220));
}

#[test]
fn capsule_overflowing_inset_saturates() {
    let capsule = Capsule {
        origin: Point::new(10, 20),
        size: Size::new(100, 200),
    };
    let inset_capsule = capsule.inset(200);

    // Inset larger than size should not result in negative dimensions
    assert_eq!(inset_capsule.origin, Point::new(210, 220));
    assert_eq!(inset_capsule.size, Size::new(0, 0));
}

#[test]
fn capsule_trailing_corner_does_not_jitter() {
    let source = Capsule::new(Point::new(990, 990), Size::new(10, 10));
    let original_target = Capsule::new(Point::new(0, 0), Size::new(1000, 1000));

    for factor in 0..=255 {
        let mut target = original_target.clone();
        target.join_from(&source, &animation_domain(factor));
        assert_eq!(target.origin + target.size, Point::new(1000, 1000));
    }
}

#[test]
fn rect_animated_join_at_start() {
    let source = Rect::new(Point::new(0, 0), Size::new(10, 20));
    let mut target = Rect::new(Point::new(50, 30), Size::new(40, 60));

    target.join_from(&source, &animation_domain(0));

    assert_eq!(target.origin, source.origin);
    assert_eq!(target.size, source.size);
}

#[test]
fn rect_animated_join_at_end() {
    let source = Rect::new(Point::new(0, 0), Size::new(10, 20));
    let original_target = Rect::new(Point::new(50, 30), Size::new(40, 60));
    let mut target = original_target.clone();

    target.join_from(&source, &animation_domain(255));

    assert_eq!(target.origin, original_target.origin);
    assert_eq!(target.size, original_target.size);
}

#[test]
fn rect_positive_inset_shrinks() {
    let rect = Rect {
        origin: Point::new(10, 20),
        size: Size::new(100, 200),
    };
    let inset_rect = rect.inset(10);

    assert_eq!(inset_rect.origin, Point::new(20, 30));
    assert_eq!(inset_rect.size, Size::new(80, 180));
}

#[test]
fn rect_negative_inset_grows() {
    let rect = Rect {
        origin: Point::new(10, 20),
        size: Size::new(100, 200),
    };
    let inset_rect = rect.inset(-10);

    assert_eq!(inset_rect.origin, Point::new(0, 10));
    assert_eq!(inset_rect.size, Size::new(120, 220));
}

#[test]
fn rect_overflowing_inset_saturates() {
    let rect = Rect {
        origin: Point::new(10, 20),
        size: Size::new(100, 200),
    };
    let inset_rect = rect.inset(200);

    // Inset larger than size should not result in negative dimensions
    assert_eq!(inset_rect.origin, Point::new(210, 220));
    assert_eq!(inset_rect.size, Size::new(0, 0));
}

#[test]
fn rect_trailing_corner_does_not_jitter() {
    let source = Rect::new(Point::new(990, 990), Size::new(10, 10));
    let original_target = Rect::new(Point::new(0, 0), Size::new(1000, 1000));

    for factor in 0..=255 {
        let mut target = original_target.clone();
        target.join_from(&source, &animation_domain(factor));
        assert_eq!(target.origin + target.size, Point::new(1000, 1000));
    }
}

#[test]
fn join_stroked_circle() {
    let shape1 = buoyant::render::StrokedShape::new(
        CircleShape {
            origin: Point::new(0, 0),
            diameter: 10,
        },
        2,
    );
    let shape2 = buoyant::render::StrokedShape::new(
        CircleShape {
            origin: Point::new(10, 10),
            diameter: 20,
        },
        4,
    );

    // start
    let mut joined = shape2.clone();
    joined.join_from(&shape1, &AnimationDomain::new(0, Duration::ZERO));
    assert_eq!(joined, shape1);

    // middle
    let mut joined = shape2.clone();
    joined.join_from(&shape1, &AnimationDomain::new(128, Duration::ZERO));
    assert_eq!(
        joined,
        buoyant::render::StrokedShape::new(
            CircleShape {
                origin: Point::new(5, 5),
                diameter: 15,
            },
            3
        )
    );

    // end
    let mut joined = shape2.clone();
    joined.join_from(&shape1, &AnimationDomain::new(255, Duration::ZERO));
    assert_eq!(joined, shape2);
}
