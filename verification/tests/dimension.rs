use buoyant::primitives::Interpolate as _;
use buoyant::primitives::{Dimension, Dimensions, ProposedDimension, ProposedDimensions};

#[test]
fn interpolate_dimensions() {
    let from = Dimensions::new(10, 20);
    let to = Dimensions::new(20, 30);
    let result = Dimensions::interpolate(from, to, 128);
    assert_eq!(result.width.0, 15);
    assert_eq!(result.height.0, 25);
}

#[test]
fn interpolate_dimension_min() {
    let from = Dimension::new(10);
    let to = Dimension::new(30);
    let result = Dimension::interpolate(from, to, 0);
    assert_eq!(result.0, 10);
}

#[test]
fn interpolate_dimension_max() {
    let from = Dimension::new(10);
    let to = Dimension::new(30);
    let result = Dimension::interpolate(from, to, 255);
    assert_eq!(result.0, 30);
}

#[test]
fn proposed_dimension_order() {
    assert_eq!(ProposedDimension::Compact, ProposedDimension::Compact);
    assert_eq!(ProposedDimension::Exact(0), ProposedDimension::Exact(0));
    assert_eq!(ProposedDimension::Exact(10), ProposedDimension::Exact(10));
    assert_eq!(ProposedDimension::Infinite, ProposedDimension::Infinite);
    assert!(ProposedDimension::Compact > ProposedDimension::Exact(0));
    assert!(ProposedDimension::Compact > ProposedDimension::Exact(100));
    assert!(ProposedDimension::Compact < ProposedDimension::Infinite);
    assert!(ProposedDimension::Exact(0) < ProposedDimension::Infinite);
    assert!(ProposedDimension::Exact(u16::MAX) < ProposedDimension::Infinite);
}

#[test]
fn exact_proposed_dimension_contains() {
    let proposal = ProposedDimensions {
        width: ProposedDimension::Exact(10),
        height: ProposedDimension::Exact(20),
    };

    let smaller_size = Dimensions::new(5, 10);
    let equal_size = Dimensions::new(10, 20);
    let larger_size = Dimensions::new(15, 30);
    assert!(proposal.contains(smaller_size, true, true));
    assert!(proposal.contains(equal_size, true, true));
    assert!(!proposal.contains(larger_size, true, true));
    assert!(proposal.contains(Dimensions::new(1, 30), true, false));
    assert!(proposal.contains(Dimensions::new(100, 3), false, true));
    assert!(proposal.contains(Dimensions::new(100, 100), false, false));
}

#[test]
fn proposed_dimension_contains_compact() {
    let proposal = ProposedDimensions {
        width: ProposedDimension::Compact,
        height: ProposedDimension::Compact,
    };

    let smaller_size = Dimensions::new(5, 10);
    let equal_size = Dimensions::new(10, 20);
    let infinite_size = Dimensions {
        width: Dimension::infinite(),
        height: Dimension::infinite(),
    };
    assert!(proposal.contains(smaller_size, true, true));
    assert!(proposal.contains(equal_size, true, true));
    assert!(proposal.contains(infinite_size, true, true));
}

#[test]
fn proposed_dimension_contains_infinite() {
    let proposal = ProposedDimensions {
        width: ProposedDimension::Infinite,
        height: ProposedDimension::Infinite,
    };

    let fixed_size = Dimensions::new(5, 10);
    let infinite_size = Dimensions {
        width: Dimension::infinite(),
        height: Dimension::infinite(),
    };
    assert!(proposal.contains(fixed_size, true, true));
    assert!(proposal.contains(infinite_size, true, true));
}
