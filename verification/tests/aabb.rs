use buoyant::primitives::aabb::StaticAABBTree;
use buoyant::primitives::geometry::Rectangle;

#[test]
fn test_initialization_and_insertion() {
    let mut tree = StaticAABBTree::<10>::new(); // Capacity of 10 nodes
    assert!(tree.is_empty());
    assert_eq!(tree.len(), 0);

    // A single insertion takes 1 node
    tree.insert(Rectangle::from_bounds(0, 0, 10, 10)).unwrap();
    assert_eq!(tree.len(), 1);
    assert!(!tree.is_empty());

    // Second insertion creates an internal node + leaf, using 2 more nodes
    tree.insert(Rectangle::from_bounds(15, 15, 20, 20)).unwrap();
    assert_eq!(tree.len(), 2);
}

#[test]
fn test_query_intersects() {
    let mut tree = StaticAABBTree::<20>::new();

    let r1 = Rectangle::from_bounds(0, 0, 10, 10);
    let r2 = Rectangle::from_bounds(5, 5, 15, 15);
    let r3 = Rectangle::from_bounds(20, 20, 30, 30);

    tree.insert(r1.clone()).unwrap();
    tree.insert(r2.clone()).unwrap();
    tree.insert(r3.clone()).unwrap();

    let search_area = Rectangle::from_bounds(8, 8, 12, 12);
    let mut match_count = 0;

    for rect in tree.query_intersects(&search_area) {
        // Should match r1 and r2, but not r3
        assert!(rect == r1 || rect == r2);
        assert!(rect != r3);
        match_count += 1;
    }

    assert_eq!(match_count, 2);
}

#[test]
fn test_query_contains() {
    let mut tree = StaticAABBTree::<20>::new();

    let small_rect = Rectangle::from_bounds(2, 2, 8, 8);
    let overlapping_rect = Rectangle::from_bounds(5, 5, 15, 15);
    let large_rect = Rectangle::from_bounds(0, 0, 20, 20);

    tree.insert(small_rect.clone()).unwrap();
    tree.insert(overlapping_rect.clone()).unwrap();
    tree.insert(large_rect.clone()).unwrap();

    let search_area = Rectangle::from_bounds(0, 0, 10, 10);
    let mut match_count = 0;

    for rect in tree.query_contains(&search_area) {
        // Only small_rect is STRICTLY contained inside search_area
        assert_eq!(rect, small_rect);
        match_count += 1;
    }

    assert_eq!(match_count, 1);
}

#[test]
fn test_removal() {
    let mut tree = StaticAABBTree::<20>::new();

    let r1 = Rectangle::from_bounds(0, 0, 5, 5);
    let r2 = Rectangle::from_bounds(10, 10, 15, 15);

    tree.insert(r1.clone()).unwrap();
    tree.insert(r2.clone()).unwrap();
    assert_eq!(tree.len(), 2);

    // Remove r1
    let was_removed = tree.remove(&r1);
    assert!(was_removed);
    assert_eq!(tree.len(), 1);

    // Verify r1 is gone
    let found_r1 = !tree.query_intersects(&r1).is_empty();
    assert!(!found_r1);

    // Verify r2 is still there
    let found_r2 = !tree.query_intersects(&r2).is_empty();
    assert!(found_r2);

    // Try removing something that isn't there
    let not_in_tree = Rectangle::from_bounds(100, 100, 105, 105);
    assert!(!tree.remove(&not_in_tree));
}

#[test]
fn test_capacity_limit() {
    // Capacity of 3 nodes allows for exactly 2 insertions.
    // Insertion 1 uses 1 node (root leaf).
    // Insertion 2 uses 2 nodes (1 internal, 1 leaf).
    let mut tree = StaticAABBTree::<3>::new();

    assert!(tree.insert(Rectangle::from_bounds(0, 0, 1, 1)).is_ok());
    assert!(tree.insert(Rectangle::from_bounds(2, 2, 3, 3)).is_ok());

    // The third insertion should fail because it requires 2 more nodes
    let result = tree.insert(Rectangle::from_bounds(4, 4, 5, 5));
    assert!(result.is_err());
    assert_eq!(result.unwrap_err(), "Tree is at maximum capacity");
}

#[test]
fn test_capacity_reuse_after_removal() {
    // A capacity of 5 nodes allows exactly 3 rectangles to be inserted:
    // - 1st insert: 1 node (becomes root leaf)
    // - 2nd insert: 2 nodes (1 new leaf + 1 new internal parent)
    // - 3rd insert: 2 nodes (1 new leaf + 1 new internal parent)
    // Total nodes used: 5.
    let mut tree = StaticAABBTree::<5>::new();

    let r1 = Rectangle::from_bounds(0, 0, 1, 1);
    let r2 = Rectangle::from_bounds(2, 2, 3, 3);
    let r3 = Rectangle::from_bounds(4, 4, 5, 5);
    let r4_overflow = Rectangle::from_bounds(6, 6, 7, 7);

    // 1. Add nodes until the tree is full
    assert!(tree.insert(r1.clone()).is_ok());
    assert!(tree.insert(r2.clone()).is_ok());
    assert!(tree.insert(r3.clone()).is_ok());
    assert_eq!(tree.len(), 3);

    // Validate the tree is actually full
    assert!(tree.insert(r4_overflow.clone()).is_err());

    // 2. Delete a node (this should free exactly 2 nodes in the underlying array)
    assert!(tree.remove(&r2));
    assert_eq!(tree.len(), 2);

    // 3. Add a new node, which should successfully claim the newly freed space
    let r5_new = Rectangle::from_bounds(8, 8, 9, 9);
    assert!(
        tree.insert(r5_new.clone()).is_ok(),
        "Failed to reuse freed capacity!"
    );
    assert_eq!(tree.len(), 3);

    // Validate it is full once again
    assert!(tree.insert(r4_overflow).is_err());

    // 4. Final sanity check: ensure the tree structure remains valid and
    // contains exactly the expected rectangles (r1, r3, r5_new).
    let mut match_count = 0;
    let global_bounds = Rectangle::from_bounds(0, 0, 10, 10);

    for rect in tree.query_intersects(&global_bounds) {
        assert!(rect == r1 || rect == r3 || rect == r5_new);
        assert!(rect != r2); // Ensure the deleted one is truly gone
        match_count += 1;
    }

    assert_eq!(match_count, 3);
}

#[test]
fn test_drain_intersects() {
    let mut tree = StaticAABBTree::<20>::new();

    let r1 = Rectangle::from_bounds(0, 0, 5, 5); // Intersects
    let r2 = Rectangle::from_bounds(3, 3, 8, 8); // Intersects
    let r3 = Rectangle::from_bounds(10, 10, 15, 15); // Does NOT intersect
    let r4 = Rectangle::from_bounds(4, 4, 6, 6); // Intersects

    tree.insert(r1.clone()).unwrap();
    tree.insert(r2.clone()).unwrap();
    tree.insert(r3.clone()).unwrap();
    tree.insert(r4.clone()).unwrap();

    assert_eq!(tree.len(), 4);

    let drain_area = Rectangle::from_bounds(2, 2, 7, 7);
    let mut union_rect: Option<Rectangle> = None;
    let mut drain_count = 0;

    // Drain all rectangles intersecting with `drain_area`
    for rect in tree.drain_intersects(&drain_area) {
        drain_count += 1;
        // Build a bounding box covering all the removed rectangles
        union_rect = match &union_rect {
            Some(u) => Some(u.union(&rect)),
            None => Some(rect),
        };
    }

    // Verify exact number of drained items
    assert_eq!(drain_count, 3);
    assert_eq!(tree.len(), 1);

    // Verify the covering union of the drained rectangles:
    // Union of r1 (0,0 to 5,5), r2 (3,3 to 8,8), and r4 (4,4 to 6,6)
    let expected_union = Rectangle::from_bounds(0, 0, 8, 8);
    assert_eq!(union_rect, Some(expected_union));

    // Verify r3 was completely untouched and is still structurally sound
    let mut remaining = 0;
    for rect in tree.query_intersects(&Rectangle::from_bounds(-10, -10, 20, 20)) {
        assert_eq!(rect, r3);
        remaining += 1;
    }
    assert_eq!(remaining, 1);

    // Verify a second drain in the same area yields nothing
    let second_drain_count = tree.drain_intersects(&drain_area).len();
    assert_eq!(second_drain_count, 0);
}

#[test]
fn outline_starts_with_the_root_bounds() {
    let mut tree = StaticAABBTree::<10>::new();
    assert!(tree.outline().is_empty());
    assert!(tree.insert(Rectangle::from_bounds(0, 0, 10, 10)).is_ok());
    assert!(tree.insert(Rectangle::from_bounds(20, 0, 30, 10)).is_ok());
    assert!(tree.insert(Rectangle::from_bounds(100, 100, 110, 110)).is_ok());
    let rows = tree.outline();
    assert_eq!(rows.len(), 5);
    assert_eq!(rows[0].label, buoyant::primitives::aabb::OutlineLabel::Root);
    assert_eq!(rows[0].depth, 0);
    assert_eq!(rows[0].rect, Rectangle::from_bounds(0, 0, 110, 110));
    let leaves = rows
        .iter()
        .filter(|r| r.label == buoyant::primitives::aabb::OutlineLabel::Leaf)
        .count();
    assert_eq!(leaves, 3);
}

#[test]
fn inserts_succeed_while_two_more_slots_are_free() {
    let mut tree = StaticAABBTree::<7>::new();
    for i in 0..4 {
        assert!(tree.insert(Rectangle::from_bounds(i * 10, 0, i * 10 + 5, 5)).is_ok());
    }
    assert_eq!(tree.len(), 4);
    assert_eq!(
        tree.insert(Rectangle::from_bounds(50, 0, 55, 5)),
        Err("Tree is at maximum capacity")
    );
    assert_eq!(tree.len(), 4);
    let found = tree.query_intersects(&Rectangle::from_bounds(-10, -10, 200, 200));
    assert_eq!(found.len(), 4);
}

#[test]
fn root_bounds_shrink_to_the_remaining_rectangles() {
    let mut tree = StaticAABBTree::<10>::new();
    assert!(tree.insert(Rectangle::from_bounds(0, 0, 10, 10)).is_ok());
    assert!(tree.insert(Rectangle::from_bounds(20, 0, 30, 10)).is_ok());
    assert!(tree.insert(Rectangle::from_bounds(100, 100, 110, 110)).is_ok());
    assert!(tree.remove(&Rectangle::from_bounds(100, 100, 110, 110)));
    assert_eq!(tree.outline()[0].rect, Rectangle::from_bounds(0, 0, 30, 10));
    let drained = tree.drain_intersects(&Rectangle::from_bounds(25, 5, 26, 6));
    assert_eq!(drained, vec![Rectangle::from_bounds(20, 0, 30, 10)]);
    assert_eq!(tree.outline()[0].rect, Rectangle::from_bounds(0, 0, 10, 10));
}

#[test]
fn queries_and_drains_find_every_rect_in_a_large_tree() {
    let mut tree = StaticAABBTree::<301>::new();
    for i in 0..150 {
        assert!(tree.insert(Rectangle::from_bounds(i * 3, i * 2, i * 3 + 2, i * 2 + 2)).is_ok());
    }
    assert_eq!(tree.len(), 150);
    let everything = Rectangle::from_bounds(-10, -10, 1000, 1000);
    assert_eq!(tree.query_intersects(&everything).len(), 150);
    assert_eq!(tree.query_contains(&everything).len(), 150);
    assert!(tree.remove(&Rectangle::from_bounds(447, 298, 449, 300)));
    let drained = tree.drain_contained(&everything);
    assert_eq!(drained.len(), 149);
    assert!(tree.is_empty());
    assert!(tree.query_intersects(&everything).is_empty());
}

#[test]
fn insert_pairs_with_the_leaf_that_grows_least() {
    let a = Rectangle::from_bounds(0, 0, 10, 10);
    let b = Rectangle::from_bounds(100, 0, 110, 10);
    let c = Rectangle::from_bounds(12, 0, 14, 10);
    let mut tree = StaticAABBTree::<10>::new();
    assert!(tree.insert(a).is_ok());
    assert!(tree.insert(b).is_ok());
    assert!(tree.insert(c).is_ok());
    let rows = tree.outline();
    assert_eq!(rows.len(), 5);
    assert_eq!(rows[0].rect, Rectangle::from_bounds(0, 0, 110, 10));
    assert_eq!(rows[1].label, buoyant::primitives::aabb::OutlineLabel::Node);
    assert_eq!(rows[1].rect, Rectangle::from_bounds(0, 0, 14, 10));
    assert_eq!((rows[2].rect, rows[3].rect, rows[4].rect), (a, c, b));
}
