use buoyant::primitives::Interpolate as _;
use buoyant::primitives::{Plottable, Point};

#[test]
fn i8_plottable() {
    assert_eq!((-128i8).as_i16(), -128);
    assert_eq!(127i8.as_i16(), 127);
}

#[test]
fn plottable_i16_plottable() {
    assert_eq!((-1000i16).as_i16(), -1000);
    assert_eq!(1000i16.as_i16(), 1000);
}

#[test]
fn u8_plottable() {
    assert_eq!(0u8.as_i16(), 0);
    assert_eq!(255u8.as_i16(), 255);
}

#[test]
fn plottable_u16_plottable() {
    assert_eq!(0u16.as_i16(), 0);
    assert_eq!(1000u16.as_i16(), 1000);
}

#[test]
fn interpolate_point() {
    let from = Point::new(10, 0);
    let to = Point::new(-10, 10000);
    assert_eq!(Point::interpolate(from, to, 0), from);
    assert_eq!(Point::interpolate(from, to, 255), to);
    assert_eq!(Point::interpolate(from, to, 128), Point::new(0, 5019)); // imperfect resolution
}
