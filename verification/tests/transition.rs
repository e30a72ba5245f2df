use buoyant::primitives::{Point, Size};
use buoyant::transition::Direction::{In, Out};
use buoyant::transition::{Edge, Move, Opacity, Slide, Transition};
use buoyant::render::transition_option::TransitionStep;

fn test_size() -> Size {
    Size::new(100, 200)
}

/// Helper function to test that transitions result in `Point::zero()` at rest positions
fn assert_at_rest_position<T: Transition>(transition: &T, bounds: Size) {
    // Direction::In at factor 255 should be at rest (Point::zero())
    assert_eq!(
        transition.transform(In, 255, bounds),
        Point::zero(),
        "Direction::In with factor 255 should be at Point::zero()"
    );
    // Out at factor 0 should be at rest (Point::zero())
    assert_eq!(
        transition.transform(Out, 0, bounds),
        Point::zero(),
        "Out with factor 0 should be at Point::zero()"
    );
}

/// Helper function to test that transitions maintain full opacity (except Opacity transition)
fn assert_full_opacity<T: Transition>(transition: &T) {
    for direction in [In, Out] {
        for factor in [0, 127, 255] {
            assert_eq!(
                transition.opacity(direction, factor),
                255,
                "Transition should maintain full opacity for {direction:?} at factor {factor}"
            );
        }
    }
}

#[test]
fn test_opacity_transition() {
    let transition = Opacity::new();

    // Transform should always be Point::zero()
    for direction in [In, Out] {
        for factor in [0, 127, 255] {
            assert_eq!(
                transition.transform(direction, factor, test_size()),
                Point::zero(),
                "Opacity transition should never transform position"
            );
        }
    }

    // Test opacity values
    assert_eq!(transition.opacity(In, 0), 0);
    assert_eq!(transition.opacity(In, 128), 128);
    assert_eq!(transition.opacity(In, 255), 255);
    assert_eq!(transition.opacity(Out, 0), 255);
    assert_eq!(transition.opacity(Out, 128), 127);
    assert_eq!(transition.opacity(Out, 255), 0);
}

#[test]
fn test_move_transition_top_edge() {
    let transition = Move::new(Edge::Top);
    let expected_offset = Point::new(0, -(test_size().height as i32));

    assert_eq!(transition.transform(In, 0, test_size()), expected_offset);
    assert_eq!(transition.transform(In, 255, test_size()), Point::zero());

    assert_eq!(transition.transform(Out, 0, test_size()), Point::zero());
    assert_eq!(transition.transform(Out, 255, test_size()), expected_offset);

    assert_full_opacity(&transition);
}

#[test]
fn test_move_transition_bottom_edge() {
    let transition = Move::new(Edge::Bottom);
    let expected_offset = Point::new(0, test_size().height as i32);

    assert_eq!(transition.transform(In, 0, test_size()), expected_offset);
    assert_eq!(transition.transform(In, 255, test_size()), Point::zero());

    assert_eq!(transition.transform(Out, 0, test_size()), Point::zero());
    assert_eq!(transition.transform(Out, 255, test_size()), expected_offset);

    assert_full_opacity(&transition);
}

#[test]
fn test_move_transition_leading_edge() {
    let transition = Move::new(Edge::Leading);
    let expected_offset = Point::new(-(test_size().width as i32), 0);

    assert_eq!(transition.transform(In, 0, test_size()), expected_offset);
    assert_eq!(transition.transform(In, 255, test_size()), Point::zero());

    assert_eq!(transition.transform(Out, 0, test_size()), Point::zero());
    assert_eq!(transition.transform(Out, 255, test_size()), expected_offset);

    assert_full_opacity(&transition);
}

#[test]
fn test_move_transition_trailing_edge() {
    let transition = Move::new(Edge::Trailing);
    let expected_offset = Point::new(test_size().width as i32, 0);

    assert_eq!(transition.transform(In, 0, test_size()), expected_offset);
    assert_eq!(transition.transform(In, 255, test_size()), Point::zero());

    assert_eq!(transition.transform(Out, 0, test_size()), Point::zero());
    assert_eq!(transition.transform(Out, 255, test_size()), expected_offset);

    assert_full_opacity(&transition);
}

#[test]
fn test_move_transition_intermediate_values() {
    let transition = Move::new(Edge::Top);
    let start_offset = Point::new(0, -(test_size().height as i32));

    let in_halfway = transition.transform(In, 127, test_size());
    let out_halfway = transition.transform(Out, 127, test_size());

    assert_ne!(in_halfway, start_offset);
    assert_ne!(in_halfway, Point::zero());
    assert_ne!(out_halfway, start_offset);
    assert_ne!(out_halfway, Point::zero());
}

#[test]
fn test_slide_transition_top_edge() {
    let transition = Slide::new(Edge::Top);
    let start_offset = Point::new(0, -(test_size().height as i32));
    let opposite_offset = Point::new(0, test_size().height as i32); // Bottom edge

    assert_eq!(transition.transform(In, 0, test_size()), start_offset);
    assert_eq!(transition.transform(In, 255, test_size()), Point::zero());

    assert_eq!(transition.transform(Out, 0, test_size()), Point::zero());
    assert_eq!(transition.transform(Out, 255, test_size()), opposite_offset);

    assert_full_opacity(&transition);
}

#[test]
fn test_slide_transition_bottom_edge() {
    let transition = Slide::new(Edge::Bottom);
    let start_offset = Point::new(0, test_size().height as i32);
    let opposite_offset = Point::new(0, -(test_size().height as i32)); // Top edge

    assert_eq!(transition.transform(In, 0, test_size()), start_offset);
    assert_eq!(transition.transform(In, 255, test_size()), Point::zero());

    assert_eq!(transition.transform(Out, 0, test_size()), Point::zero());
    assert_eq!(transition.transform(Out, 255, test_size()), opposite_offset);

    assert_full_opacity(&transition);
}

#[test]
fn test_slide_transition_leading_edge() {
    let transition = Slide::new(Edge::Leading);
    let start_offset = Point::new(-(test_size().width as i32), 0);
    let opposite_offset = Point::new(test_size().width as i32, 0); // Trailing edge

    assert_eq!(transition.transform(In, 0, test_size()), start_offset);
    assert_eq!(transition.transform(In, 255, test_size()), Point::zero());

    assert_eq!(transition.transform(Out, 0, test_size()), Point::zero());
    assert_eq!(transition.transform(Out, 255, test_size()), opposite_offset);

    assert_full_opacity(&transition);
}

#[test]
fn test_slide_transition_trailing_edge() {
    let transition = Slide::new(Edge::Trailing);
    let start_offset = Point::new(test_size().width as i32, 0);
    let opposite_offset = Point::new(-(test_size().width as i32), 0); // Leading edge

    assert_eq!(transition.transform(In, 0, test_size()), start_offset);
    assert_eq!(transition.transform(In, 255, test_size()), Point::zero());

    assert_eq!(transition.transform(Out, 0, test_size()), Point::zero());
    assert_eq!(transition.transform(Out, 255, test_size()), opposite_offset);

    assert_full_opacity(&transition);
}

#[test]
fn test_slide_transition_intermediate_values() {
    let transition = Slide::new(Edge::Leading);

    let in_halfway = transition.transform(In, 127, test_size());
    let out_halfway = transition.transform(Out, 127, test_size());

    assert_ne!(in_halfway, Point::new(-(test_size().width as i32), 0));
    assert_ne!(in_halfway, Point::zero());
    assert_ne!(out_halfway, Point::new(test_size().width as i32, 0));
    assert_ne!(out_halfway, Point::zero());
}

#[test]
fn test_all_transitions_at_rest_positions() {
    // Test each transition type individually
    assert_at_rest_position(&Opacity::new(), test_size());
    assert_at_rest_position(&Move::new(Edge::Top), test_size());
    assert_at_rest_position(&Move::new(Edge::Bottom), test_size());
    assert_at_rest_position(&Move::new(Edge::Leading), test_size());
    assert_at_rest_position(&Move::new(Edge::Trailing), test_size());
    assert_at_rest_position(&Slide::new(Edge::Top), test_size());
    assert_at_rest_position(&Slide::new(Edge::Bottom), test_size());
    assert_at_rest_position(&Slide::new(Edge::Leading), test_size());
    assert_at_rest_position(&Slide::new(Edge::Trailing), test_size());
}

type Fading = buoyant::render::TransitionOption<u32, Opacity>;
type Moving = buoyant::render::TransitionOption<u32, Move>;

fn step_domain(factor: u8) -> buoyant::render::AnimationDomain {
    buoyant::render::AnimationDomain::new(factor, core::time::Duration::from_millis(10))
}

#[test]
fn transition_step_animates_a_subtree_present_on_both_sides() {
    let a = Fading::new_some(1, test_size(), Opacity::new());
    let b = Fading::new_some(2, test_size(), Opacity::new());
    assert_eq!(Fading::transition_step(&a, &b, &step_domain(40)), TransitionStep::Animate);
    assert_eq!(Fading::transition_step(&a, &b, &step_domain(255)), TransitionStep::Animate);
}

#[test]
fn transition_step_fades_out_a_removed_subtree_until_complete() {
    let a = Fading::new_some(1, test_size(), Opacity::new());
    let none = Fading::Absent;
    assert_eq!(
        Fading::transition_step(&a, &none, &step_domain(100)),
        TransitionStep::Layer { direction: Out, offset: Point::zero(), opacity: 155 }
    );
    assert_eq!(Fading::transition_step(&a, &none, &step_domain(255)), TransitionStep::Skip);
    assert_eq!(Fading::transition_step(&none, &none, &step_domain(100)), TransitionStep::Skip);
}

#[test]
fn transition_step_brings_in_an_added_subtree() {
    let none = Fading::Absent;
    let b = Fading::new_some(2, test_size(), Opacity::new());
    assert_eq!(
        Fading::transition_step(&none, &b, &step_domain(100)),
        TransitionStep::Layer { direction: In, offset: Point::zero(), opacity: 100 }
    );
    assert_eq!(Fading::transition_step(&none, &b, &step_domain(255)), TransitionStep::Target);

    let moving = Move::new(Edge::Leading);
    let m = Moving::new_some(2, test_size(), moving);
    assert_eq!(
        Moving::transition_step(&Moving::Absent, &m, &step_domain(0)),
        TransitionStep::Layer {
            direction: In,
            offset: moving.transform(In, 0, test_size()),
            opacity: 255
        }
    );
    assert_ne!(moving.transform(In, 0, test_size()), Point::zero());
}

#[test]
fn diffed_step_skips_subtree_slots_unless_an_unchanged_subtree_animates() {
    let a = Fading::new_some(1, test_size(), Opacity::new());
    let b = Fading::new_some(2, test_size(), Opacity::new());
    let none = Fading::Absent;
    let d = step_domain(100);
    let step = Fading::diffed_step(false, &a, &b, &d);
    assert_eq!(step.step, TransitionStep::Animate);
    assert!(!step.skip_subtree_slots);
    let step = Fading::diffed_step(true, &a, &b, &d);
    assert_eq!(step.step, TransitionStep::Animate);
    assert!(step.skip_subtree_slots);
    let step = Fading::diffed_step(false, &a, &none, &d);
    assert_eq!(
        step.step,
        TransitionStep::Layer { direction: Out, offset: Point::zero(), opacity: 155 }
    );
    assert!(step.skip_subtree_slots);
    let step = Fading::diffed_step(false, &none, &none, &d);
    assert_eq!(step.step, TransitionStep::Skip);
    assert!(step.skip_subtree_slots);
}
