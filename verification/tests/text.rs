use buoyant::font::CharacterBufferFont;
use buoyant::primitives::Point;
use buoyant::render::{AnimatedJoin, AnimationDomain, Text};
use buoyant::view::{HorizontalTextAlignment, WrapStrategy};
use core::time::Duration;

fn animation_domain(factor: u8) -> AnimationDomain {
    AnimationDomain::new(factor, Duration::from_millis(100))
}

#[test]
fn text_animated_join_at_start() {
    let font = CharacterBufferFont;
    let source = Text::new(
        Point::new(0, 0),
        (100, 50),
        &font,
        "Hello",
        (),
        HorizontalTextAlignment::Leading,
        100,
        WrapStrategy::Word,
    );

    let mut target = Text::new(
        Point::new(50, 25),
        (200, 100),
        &font,
        "World",
        (),
        HorizontalTextAlignment::Center,
        100,
        WrapStrategy::Word,
    );

    target.join_from(&source, &animation_domain(0));

    // At factor 0, should have source's position, size, text and font
    assert_eq!(target.origin, source.origin);
    assert_eq!(target.size, source.size);
    assert_eq!(target.text, target.text);
    assert_eq!(target.alignment, target.alignment);
}

#[test]
fn text_animated_join_at_end() {
    let font = CharacterBufferFont;
    let source = Text::new(
        Point::new(0, 0),
        (100, 50),
        &font,
        "Hello",
        (),
        HorizontalTextAlignment::Leading,
        100,
        WrapStrategy::Word,
    );
    let original_target = Text::new(
        Point::new(50, 25),
        (200, 100),
        &font,
        "World",
        (),
        HorizontalTextAlignment::Center,
        100,
        WrapStrategy::Word,
    );
    let mut target = original_target.clone();

    target.join_from(&source, &animation_domain(255));

    // At factor 255, should be identical to target
    assert_eq!(target.origin, original_target.origin);
    assert_eq!(target.size, original_target.size);
    assert_eq!(target.text, original_target.text);
    assert_eq!(target.alignment, original_target.alignment);
}

#[test]
fn animated_join_interpolates_position_and_size() {
    let font = CharacterBufferFont;
    let source = Text::new(
        Point::new(0, 0),
        (50, 25),
        &font,
        "Start",
        (),
        HorizontalTextAlignment::Leading,
        100,
        WrapStrategy::Word,
    );
    let original_target = Text::new(
        Point::new(100, 50),
        (150, 75),
        &font,
        "End",
        (),
        HorizontalTextAlignment::Trailing,
        100,
        WrapStrategy::Word,
    );
    let mut target = original_target.clone();

    target.join_from(&source, &animation_domain(128));

    // Position and size should be interpolated
    assert!(target.origin.x > source.origin.x && target.origin.x < original_target.origin.x);
    assert!(target.origin.y > source.origin.y && target.origin.y < original_target.origin.y);
    assert!(target.size.0 > source.size.0 && target.size.0 < original_target.size.0);
    assert!(target.size.1 > source.size.1 && target.size.1 < original_target.size.1);

    // Text and alignment should come from target
    assert_eq!(target.text, original_target.text);
    assert_eq!(target.alignment, original_target.alignment);
}
