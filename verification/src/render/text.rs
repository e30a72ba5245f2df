use vstd::prelude::*;

use crate::font::{Font, FontAttributes};
use crate::primitives::geometry::Rectangle;
use crate::primitives::interpolate::{blend, Interpolate};
use crate::primitives::point::Point;
use crate::primitives::size::Size;
use crate::render::{AnimatedJoin, AnimationDomain, ContentShape, IntrinsicShape};
use crate::view::{HorizontalTextAlignment, WrapStrategy};

verus! {

/// A wrapped line of a text: the byte range it covers and its width.
#[derive(Debug, Clone, Copy, PartialEq, Eq, Structural)]
pub struct Line {
    pub start: usize,
    pub end: usize,
    pub pixel_width: u16,
}

/// A block of text in the render tree.
#[derive(Debug, PartialEq, Eq)]
pub struct Text<'a, T, F: Font> {
    pub origin: Point,
    pub size: (u16, u16),
    pub font: &'a F,
    pub text: T,
    pub attributes: F::Attributes,
    pub alignment: HorizontalTextAlignment,
    pub max_lines: u16,
    pub wrap: WrapStrategy,
}

impl<'a, T, F: Font> Text<'a, T, F> {
    pub fn new(
        origin: Point,
        size: (u16, u16),
        font: &'a F,
        text: T,
        attributes: F::Attributes,
        alignment: HorizontalTextAlignment,
        max_lines: u16,
        wrap: WrapStrategy,
    ) -> (r: Self)
        ensures
            r.origin == origin,
            r.size == size,
            r.font == font,
            r.text == text,
            r.attributes == attributes,
            r.alignment == alignment,
            r.max_lines == max_lines,
            r.wrap == wrap,
    {
        Self { origin, size, font, text, attributes, alignment, max_lines, wrap }
    }
}

impl<T: Clone, F: Font> Clone for Text<'_, T, F> {
    /// Copies every field; the text is cloned.
    fn clone(&self) -> (r: Self)
        ensures
            r.origin == self.origin,
            r.size == self.size,
            r.font == self.font,
            r.attributes == self.attributes,
            r.alignment == self.alignment,
            r.max_lines == self.max_lines,
            r.wrap == self.wrap,
    {
        Self {
            origin: self.origin,
            size: self.size,
            font: self.font,
            text: self.text.clone(),
            attributes: self.attributes.copied(),
            alignment: self.alignment,
            max_lines: self.max_lines,
            wrap: self.wrap,
        }
    }
}

impl<T, F: Font> AnimatedJoin for Text<'_, T, F> {
    open spec fn join_ok(self, source: Self, domain: AnimationDomain) -> bool {
        &&& Point::interpolate_ok(source.origin, self.origin, domain.factor)
        &&& F::Attributes::interpolate_ok(source.attributes, self.attributes, domain.factor)
    }

    /// Position, attributes and size are blended; the text content, font,
    /// alignment, line limit and wrapping jump to the target.
    open spec fn joined(self, source: Self, domain: AnimationDomain) -> Self {
        Text {
            origin: Point::interpolation(source.origin, self.origin, domain.factor),
            attributes: F::Attributes::interpolation(
                source.attributes,
                self.attributes,
                domain.factor,
            ),
            size: (
                blend(source.size.0 as int, self.size.0 as int, domain.factor as int) as u16,
                blend(source.size.1 as int, self.size.1 as int, domain.factor as int) as u16,
            ),
            ..self
        }
    }

    fn join_from(&mut self, source: &Self, domain: &AnimationDomain) {
        // Text content (and line breaks) jump
        self.origin = Point::interpolate(source.origin, self.origin, domain.factor);
        self.attributes = F::Attributes::interpolate(
            source.attributes.copied(),
            self.attributes.copied(),
            domain.factor,
        );
        self.size.0 = u16::interpolate(source.size.0, self.size.0, domain.factor);
        self.size.1 = u16::interpolate(source.size.1, self.size.1, domain.factor);
    }
}

impl<T, F: Font> IntrinsicShape for Text<'_, T, F> {
    open spec fn shape_ok(&self) -> bool {
        true
    }

    /// The text's frame.
    open spec fn shape(&self) -> ContentShape {
        ContentShape::Rectangle(
            Rectangle {
                origin: self.origin,
                size: Size { width: self.size.0 as u32, height: self.size.1 as u32 },
            },
        )
    }

    fn content_shape(&self) -> (r: ContentShape) {
        ContentShape::Rectangle(Rectangle::new(self.origin, Size::from(self.size)))
    }
}


/// Joining text takes the source's frame at factor 0 and keeps its own at
/// factor 255; the content, font and layout settings are always its own.
pub proof fn lemma_text_join_ends<T, F: Font>(target: Text<'_, T, F>, source: Text<'_, T, F>, domain: AnimationDomain)
    ensures
        ({
            let j = target.joined(source, domain);
            &&& domain.factor == 0 ==> j.origin == source.origin && j.size == source.size
            &&& domain.factor == 255 ==> j.origin == target.origin && j.size == target.size
            &&& j.text == target.text
            &&& j.font == target.font
            &&& j.alignment == target.alignment
            &&& j.max_lines == target.max_lines
            &&& j.wrap == target.wrap
        }),
{
    crate::primitives::point::lemma_point_interpolation_ends(source.origin, target.origin);
    crate::primitives::interpolate::lemma_blend_ends(source.size.0 as int, target.size.0 as int, 0);
    crate::primitives::interpolate::lemma_blend_ends(source.size.1 as int, target.size.1 as int, 0);
}

} // verus!
