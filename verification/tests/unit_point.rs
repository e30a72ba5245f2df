use buoyant::primitives::geometry::Rectangle;
use buoyant::primitives::{Interpolate, Point, Size, UnitPoint};
use fixed::traits::ToFixed;
use fixed::types::I9F7;

fn unit(x: f32, y: f32) -> UnitPoint {
    UnitPoint::from_bits(x.to_fixed::<I9F7>().to_bits(), y.to_fixed::<I9F7>().to_bits())
}

#[test]
fn unit_point_in_view_bounds() {
    let frame = Rectangle::new(Point::new(5, 10), Size::new(12, 22));

    let test_points = [0.0, 0.2, 0.5, 0.8, 1.0];

    for x in test_points {
        for y in test_points {
            let unit_point = unit(x, y);
            let point = unit_point.in_view_bounds(&frame);
            assert!(
                point.x >= frame.origin.x,
                "Expected {} >= {}",
                point.x,
                frame.origin.x
            );
            assert!(
                point.y >= frame.origin.y,
                "Expected {} >= {}",
                point.y,
                frame.origin.y
            );
            assert!(
                point.x <= frame.x_end(),
                "Expected {} <= {}",
                point.x,
                frame.x_end()
            );
            assert!(
                point.y <= frame.y_end(),
                "Expected {} <= {}",
                point.y,
                frame.y_end()
            );
        }
    }
}

#[test]
fn unit_point_convenience_inits() {
    let frame = Rectangle::new(Point::new(15, 25), Size::new(100, 80));
    let frame_center = frame.origin + Size::new(frame.size.width / 2, frame.size.height / 2);

    let point = UnitPoint::top_leading().in_view_bounds(&frame);
    assert_eq!(point, frame.origin);

    let point = UnitPoint::top().in_view_bounds(&frame);
    let expected = Point::new(frame_center.x, frame.origin.y);
    assert_eq!(point, expected);

    let point = UnitPoint::top_trailing().in_view_bounds(&frame);
    let expected = Point::new(frame.x_end(), frame.origin.y);
    assert_eq!(point, expected);

    let point = UnitPoint::leading().in_view_bounds(&frame);
    let expected = Point::new(frame.origin.x, frame_center.y);
    assert_eq!(point, expected);

    let point = UnitPoint::center().in_view_bounds(&frame);
    assert_eq!(point, frame_center);

    let point = UnitPoint::trailing().in_view_bounds(&frame);
    let expected = Point::new(frame.x_end(), frame_center.y);
    assert_eq!(point, expected);

    let point = UnitPoint::bottom_leading().in_view_bounds(&frame);
    let expected = Point::new(frame.origin.x, frame.y_end());
    assert_eq!(point, expected);

    let point = UnitPoint::bottom().in_view_bounds(&frame);
    let expected = Point::new(frame_center.x, frame.y_end());
    assert_eq!(point, expected);

    let point = UnitPoint::bottom_trailing().in_view_bounds(&frame);
    let expected = Point::new(frame.x_end(), frame.y_end());
    assert_eq!(point, expected);
}

#[test]
fn unit_point_interpolation_ends_and_midpoint() {
    let from = unit(0.0, 0.0);
    let to = unit(1.0, 1.0);
    assert_eq!(UnitPoint::interpolate(from, to, 0), from);
    assert_eq!(UnitPoint::interpolate(from, to, 255), to);
    // the factor 127/255 becomes 63/128 in 9.7 fixed point
    let mid = UnitPoint::interpolate(from, to, 127);
    assert_eq!(mid, UnitPoint::from_bits(63, 63));
}

#[test]
fn unit_point_fixed_steps_round_down() {
    // from -1.5 to 1.0 at factor 5: the factor 5/255 becomes 2/128 in 9.7
    // fixed point, so the step is 320 * 2 / 128 = 5 bits
    let from = UnitPoint::from_bits(-192, 1280);
    let to = UnitPoint::from_bits(128, -2560);
    let p = UnitPoint::interpolate(from, to, 5);
    assert_eq!(p, UnitPoint::from_bits(-187, 1220));
    // a negative coordinate rounds toward negative infinity
    let frame = Rectangle::new(Point::new(0, 0), Size::new(3, 3));
    assert_eq!(
        UnitPoint::from_bits(-1, -1).in_view_bounds(&frame),
        Point::new(-1, -1)
    );
}
