use buoyant::render::chart::ChartBar;
use buoyant::event::{Event, EventResult};
use buoyant::focus::{FocusAction, FocusDirection, FocusGroup};
use buoyant::harness::{focus_event, Harness};
use buoyant::primitives::aabb::{OutlineLabel, StaticAABBTree};
use buoyant::primitives::geometry::{Intersection, Rectangle};
use buoyant::primitives::{Dimensions, Interpolate, Plottable, Point, Size};
use buoyant::render::{
    AnimatedJoin, AnimationDomain, Capsule, ContentShape, IntrinsicShape, OneOf2, OneOf3, Opacity,
    Rect,
};
use buoyant::transition::Direction::{In, Out};
use buoyant::transition::{Edge, Move, Opacity as FadeTransition, Slide, Transition};
use core::time::Duration;

fn domain(factor: u8) -> AnimationDomain {
    AnimationDomain::new(factor, Duration::from_millis(100))
}

#[test]
fn union_and_intersection_are_symmetric() {
    let a = Rectangle::from_bounds(-3, 4, 10, 20);
    let b = Rectangle::from_bounds(5, -7, 12, 9);
    assert_eq!(a.union(&b), b.union(&a));
    assert_eq!(a.intersection(&b), b.intersection(&a));
}

#[test]
fn union_is_the_least_cover() {
    let a = Rectangle::from_bounds(0, 0, 4, 4);
    let b = Rectangle::from_bounds(10, 2, 12, 9);
    let u = a.union(&b);
    assert!(u.contains_rect(&a));
    assert!(u.contains_rect(&b));
    assert_eq!(u, Rectangle::from_bounds(0, 0, 12, 9));
    let i = Rectangle::from_bounds(2, 2, 11, 5).intersection(&u).unwrap();
    assert!(u.contains_rect(&i));
    assert_eq!(u.intersection_with(&a), Intersection::Contains);
}

#[test]
fn interpolation_reaches_both_ends() {
    let from = Point::new(-40, 7);
    let to = Point::new(90, -3);
    assert_eq!(Point::interpolate(from, to, 0), from);
    assert_eq!(Point::interpolate(from, to, 255), to);
    let d1 = Dimensions::new(3, 250);
    let d2 = Dimensions::new(250, 4);
    assert_eq!(Dimensions::interpolate(d1, d2, 0), d1);
    assert_eq!(Dimensions::interpolate(d1, d2, 255), d2);
    // the blend rounds toward zero, also for negative values
    assert_eq!(i16::interpolate(0, -10, 128), -5);
    assert_eq!(u8::interpolate(0, 10, 128), 5);
}

#[test]
fn transitions_rest_and_reach_their_edges() {
    let bounds = Size::new(30, 40);
    for edge in [Edge::Top, Edge::Bottom, Edge::Leading, Edge::Trailing] {
        let mv = Move::new(edge);
        let sl = Slide::new(edge);
        assert_eq!(mv.transform(In, 255, bounds), Point::zero());
        assert_eq!(sl.transform(Out, 0, bounds), Point::zero());
        let far = mv.transform(In, 0, bounds);
        assert_eq!(mv.transform(Out, 255, bounds), far);
        assert_eq!(sl.transform(Out, 255, bounds), -far);
        for factor in [0u8, 1, 100, 200, 255] {
            assert_eq!(
                mv.transform(Out, factor, bounds),
                mv.transform(In, 255 - factor, bounds)
            );
        }
    }
    for factor in 0..=255u8 {
        let fade = FadeTransition::new();
        assert_eq!(
            u16::from(fade.opacity(In, factor)) + u16::from(fade.opacity(Out, factor)),
            255
        );
    }
}

#[test]
fn offset_moves_the_bounding_box() {
    let shape = ContentShape::Rectangle(Rectangle::from_bounds(1, 2, 11, 22));
    let moved = shape.with_offset(Point::new(-5, 7));
    assert_eq!(
        moved.bounding_box(),
        Some(Rectangle::from_bounds(-4, 9, 6, 29))
    );
    assert_eq!(ContentShape::Empty.with_offset(Point::new(3, 3)), ContentShape::Empty);
}

#[test]
fn small_values_plot_unchanged() {
    assert_eq!((-7i8).as_i16(), -7);
    assert_eq!(200u8.as_i16(), 200);
    assert_eq!(32767u16.as_i16(), 32767);
}

#[test]
fn joins_reach_both_ends() {
    let source = Opacity::new(Rect::new(Point::new(0, 0), Size::new(4, 4)), 10);
    let target = Opacity::new(Rect::new(Point::new(8, 8), Size::new(2, 6)), 250);
    let mut start = target;
    start.join_from(&source, &domain(0));
    assert_eq!(start, source);
    let mut end = target;
    end.join_from(&source, &domain(255));
    assert_eq!(end, target);

    let c1 = Capsule::new(Point::new(3, 3), Size::new(7, 9));
    let c2 = Capsule::new(Point::new(-3, 30), Size::new(70, 9));
    let mut j = c2;
    j.join_from(&c1, &domain(0));
    assert_eq!(j, c1);
}

#[test]
fn one_of_joins_only_matching_branches() {
    let a: OneOf2<Rect, Capsule> = OneOf2::V0(Rect::new(Point::new(0, 0), Size::new(10, 10)));
    let b: OneOf2<Rect, Capsule> = OneOf2::V0(Rect::new(Point::new(20, 20), Size::new(30, 30)));
    let mut joined = b.clone();
    joined.join_from(&a, &domain(128));
    assert_eq!(
        joined,
        OneOf2::V0(Rect::new(Point::new(10, 10), Size::new(20, 20)))
    );

    let c: OneOf2<Rect, Capsule> = OneOf2::V1(Capsule::new(Point::new(1, 1), Size::new(2, 2)));
    let mut jumped = c.clone();
    jumped.join_from(&a, &domain(128));
    assert_eq!(jumped, c);

    let three: OneOf3<Rect, Capsule, ()> = OneOf3::V2(());
    assert_eq!(three.content_shape(), ContentShape::Empty);
    let one = OneOf3::<Rect, Capsule, ()>::V0(Rect::new(Point::new(2, 3), Size::new(4, 5)));
    assert_eq!(
        one.content_shape().bounding_box(),
        Some(Rectangle::new(Point::new(2, 3), Size::new(4, 5)))
    );
}

#[test]
fn rectangle_shape_views() {
    let r = Rectangle::from_bounds(1, 1, 5, 5);
    assert_eq!(r.bounding_box(), r);
    assert_eq!(r.as_rect(), Some(r));
    let filled: Rect = r.into();
    assert_eq!(filled, Rect::new(Point::new(1, 1), Size::new(4, 4)));
}

struct Recorder {
    sent: Vec<Event>,
}

impl Harness for Recorder {
    // The record of sent events exists for proofs only; nothing calls it at
    // run time.
    fn history(&self) -> vstd::seq::Seq<(Event, EventResult)> {
        panic!("the history of a harness is a proof-time record")
    }

    fn send(&mut self, event: Event) -> EventResult {
        self.sent.push(event);
        EventResult::default()
    }
}

#[test]
fn harness_sends_focus_events() {
    let mut h = Recorder { sent: Vec::new() };
    let g = FocusGroup(3);
    h.focus_forward();
    h.focus_backward_group(g);
    h.next();
    h.previous_group(g);
    h.select();
    h.blur_group(g);
    assert_eq!(
        h.sent,
        vec![
            Event::from(FocusAction::Focus(FocusDirection::Forward)),
            focus_event(FocusAction::Focus(FocusDirection::Backward), g),
            Event::Focus {
                action: FocusAction::Next,
                group: FocusGroup(0)
            },
            Event::Focus {
                action: FocusAction::Previous,
                group: g
            },
            Event::Focus {
                action: FocusAction::Select,
                group: FocusGroup(0)
            },
            Event::Focus {
                action: FocusAction::Blur,
                group: g
            },
        ]
    );
}

#[test]
fn tree_insert_remove_round_trip() {
    let mut tree = StaticAABBTree::<7>::new();
    let a = Rectangle::from_bounds(0, 0, 2, 2);
    let b = Rectangle::from_bounds(5, 5, 9, 9);
    tree.insert(a).unwrap();
    tree.insert(b).unwrap();
    assert_eq!(tree.len(), 2);
    assert!(tree.remove(&b));
    assert_eq!(tree.len(), 1);
    assert!(!tree.remove(&b));
    assert_eq!(tree.len(), 1);
    assert!(tree.remove(&a));
    assert!(tree.is_empty());
    // every slot is free again: three more rectangles fit
    for k in 0..3 {
        assert!(tree.insert(Rectangle::from_bounds(k, k, k + 1, k + 1)).is_ok());
    }
    assert_eq!(tree.len(), 3);
}

#[test]
fn tree_failed_insert_changes_nothing() {
    let mut tree = StaticAABBTree::<2>::new();
    tree.insert(Rectangle::from_bounds(0, 0, 1, 1)).unwrap();
    assert_eq!(
        tree.insert(Rectangle::from_bounds(3, 3, 4, 4)),
        Err("Tree is at maximum capacity")
    );
    assert_eq!(tree.len(), 1);
    assert_eq!(tree.query_intersects(&Rectangle::from_bounds(-9, -9, 9, 9)).len(), 1);
    let mut empty = StaticAABBTree::<0>::new();
    assert!(empty.insert(Rectangle::from_bounds(0, 0, 1, 1)).is_err());
    assert!(empty.is_empty());
}

#[test]
fn tree_drain_contained_keeps_the_rest() {
    let mut tree = StaticAABBTree::<20>::new();
    let inside = Rectangle::from_bounds(1, 1, 3, 3);
    let straddling = Rectangle::from_bounds(8, 8, 14, 14);
    let outside = Rectangle::from_bounds(30, 30, 40, 40);
    tree.insert(inside).unwrap();
    tree.insert(straddling).unwrap();
    tree.insert(outside).unwrap();
    let area = Rectangle::from_bounds(0, 0, 10, 10);
    assert_eq!(tree.drain_contained(&area), vec![inside]);
    assert_eq!(tree.len(), 2);
    assert!(tree.query_contains(&area).is_empty());
    let mut rest = tree.query_intersects(&Rectangle::from_bounds(-100, -100, 100, 100));
    rest.sort_by_key(|r| r.origin.x);
    assert_eq!(rest, vec![straddling, outside]);
}

#[test]
fn tree_empty_queries() {
    let mut tree = StaticAABBTree::<4>::new();
    let any = Rectangle::from_bounds(0, 0, 100, 100);
    assert!(tree.query_intersects(&any).is_empty());
    assert!(tree.drain_intersects(&any).is_empty());
    assert!(tree.outline().is_empty());
}

#[test]
fn tree_outline_lists_slots_in_order() {
    let mut tree = StaticAABBTree::<5>::new();
    let a = Rectangle::from_bounds(0, 0, 2, 2);
    let b = Rectangle::from_bounds(4, 4, 6, 6);
    tree.insert(a).unwrap();
    tree.insert(b).unwrap();
    let rows = tree.outline();
    assert_eq!(rows.len(), 3);
    assert_eq!(rows[0].label, OutlineLabel::Root);
    assert_eq!(rows[0].depth, 0);
    assert_eq!(rows[0].rect, Rectangle::from_bounds(0, 0, 6, 6));
    assert_eq!(rows[1].label, OutlineLabel::Leaf);
    assert_eq!(rows[1].rect, a);
    assert!(!rows[1].is_last);
    assert_eq!(rows[1].path_mask, 1);
    assert_eq!(rows[2].rect, b);
    assert!(rows[2].is_last);
    assert_eq!(rows[2].path_mask, 0);
}

#[test]
fn chart_bar_clamps_negative_extents() {
    let bar = ChartBar {
        x: -3,
        y: 4,
        width: 10,
        height: -2,
    };
    assert_eq!(
        bar.to_rectangle(),
        Rectangle::new(Point::new(-3, 4), Size::new(10, 0))
    );
}

#[test]
fn tree_drain_frees_every_slot() {
    let mut tree = StaticAABBTree::<5>::new();
    for k in 0..3 {
        tree.insert(Rectangle::from_bounds(k * 10, 0, k * 10 + 5, 5)).unwrap();
    }
    assert!(tree.insert(Rectangle::from_bounds(50, 50, 51, 51)).is_err());
    let drained = tree.drain_intersects(&Rectangle::from_bounds(-1, -1, 100, 100));
    assert_eq!(drained.len(), 3);
    assert!(tree.is_empty());
    for k in 0..3 {
        assert!(tree.insert(Rectangle::from_bounds(k, k, k + 2, k + 2)).is_ok());
    }
}

#[test]
fn wide_tuples_join_and_bound_every_member() {
    let r = |x: i32| Rect::new(Point::new(x, x), Size::new(2, 2));
    let shapes = (r(0), r(10), (), r(-4), r(3));
    assert_eq!(
        shapes.content_shape().bounding_box(),
        Some(Rectangle::from_bounds(-4, -4, 12, 12))
    );
    let source = (r(0), r(0), r(0), r(0), r(0), r(0), r(0), r(0), r(0), r(0));
    let mut target = (r(10), r(20), r(30), r(40), r(50), r(60), r(70), r(80), r(90), r(100));
    let untouched = target;
    target.join_from(&source, &domain(0));
    assert_eq!(target, source);
    let mut end = untouched;
    end.join_from(&source, &domain(255));
    assert_eq!(end, untouched);
}

#[test]
fn lost_focus_reports_a_focus_request() {
    let shape = ContentShape::Rectangle(Rectangle::from_bounds(0, 0, 4, 4));
    assert!(EventResult::handled_focused(shape).lost_focus());
    assert!(!EventResult::handled_unfocused().lost_focus());
    assert!(!EventResult::deferred().lost_focus());
    assert!(!EventResult::deferred_lost_focus().lost_focus());
    for r in [
        EventResult::handled_focused(shape),
        EventResult::handled_unfocused(),
        EventResult::deferred(),
        EventResult::deferred_lost_focus(),
    ] {
        assert_eq!(r.lost_focus(), r.requested_focus());
    }
}
