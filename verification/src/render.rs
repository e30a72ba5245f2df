//! Render primitives.
//!
//! Render primitives represent the minimal information required to render a view. Nodes in the
//! render tree can be animated and joined with other trees of the same type to enable complex
//! animations.

pub mod chart;
pub mod clipped;
pub mod collections;
pub mod container;
pub mod content_shape_override;
pub mod empty;
pub mod hint_background;
pub mod joins;
pub mod node_shapes;
pub mod one_of;
pub mod opacity;
pub mod option;
pub mod shape;
pub mod text;
pub mod transition_option;

pub use clipped::Clipped;
pub use container::Container;
pub use content_shape_override::ContentShapeOverride;
pub use hint_background::HintBackground;
pub use one_of::{OneOf2, OneOf3};
pub use opacity::Opacity;
pub use shape::{Capsule, Rect, StrokedShape};
pub use text::Text;
pub use transition_option::TransitionOption;

use core::time::Duration;

use vstd::prelude::*;

use crate::primitives::geometry::{Circle, Rectangle, RoundedRectangle};
use crate::primitives::point::Point;

verus! {

/// The animation state under which a render tree is joined or drawn.
#[derive(Debug, Clone, Copy, PartialEq, Eq)]
pub struct AnimationDomain {
    /// The animation factor of this domain, ranging from 0 to 255
    pub factor: u8,
    /// The duration since the application started
    pub app_time: Duration,
}

impl AnimationDomain {
    pub fn new(factor: u8, app_time: Duration) -> (r: Self)
        ensures
            r.factor == factor,
            r.app_time == app_time,
    {
        Self { factor, app_time }
    }

    /// Use this to create a new top-level animation domain when rendering
    pub fn top_level(app_time: Duration) -> (r: Self)
        ensures
            r.factor == 255,
            r.app_time == app_time,
    {
        Self { factor: 255, app_time }
    }

    /// Whether the animation defined by this domain is complete
    pub fn is_complete(&self) -> (r: bool)
        ensures
            r == (self.factor == 255),
    {
        self.factor == 255
    }
}

/// A render tree node that can be joined with an earlier tree of the same
/// type, producing the intermediate state of an animation between them.
pub trait AnimatedJoin: Sized {
    /// Whether the join can be computed without overflow.
    spec fn join_ok(self, source: Self, domain: AnimationDomain) -> bool;

    /// The node that `join_from` leaves behind.
    spec fn joined(self, source: Self, domain: AnimationDomain) -> Self;

    /// Modifies a target tree by joining it with the source tree
    fn join_from(&mut self, source: &Self, domain: &AnimationDomain)
        requires
            old(self).join_ok(*source, *domain),
        ensures
            *final(self) == old(self).joined(*source, *domain),
    ;
}

/// A type which has an intrinsic content shape
pub trait IntrinsicShape {
    /// Whether the shape can be computed without overflow.
    spec fn shape_ok(&self) -> bool;

    /// The shape that `content_shape` returns.
    spec fn shape(&self) -> ContentShape;

    /// The shape of the object, in its local coordinate space
    fn content_shape(&self) -> (r: ContentShape)
        requires
            self.shape_ok(),
        ensures
            r == self.shape(),
    ;
}

/// The area of a render node that responds to focus and hit testing.
#[derive(Clone, Copy, Debug, PartialEq, Eq, Structural)]
#[non_exhaustive]
pub enum ContentShape {
    /// The focused element has no content shape
    Empty,
    Rectangle(Rectangle),
    RoundedRectangle(RoundedRectangle),
    Circle(Circle),
}

impl ContentShape {
    pub open spec fn spec_bounding_box(self) -> Option<Rectangle> {
        match self {
            ContentShape::Empty => None,
            ContentShape::Rectangle(rect) => Some(rect),
            ContentShape::RoundedRectangle(rrect) => Some(rrect.spec_bounding_box()),
            ContentShape::Circle(circle) => Some(circle.spec_bounding_box()),
        }
    }

    /// The origin of the shape, if it has one.
    pub open spec fn origin(self) -> Option<Point> {
        match self {
            ContentShape::Empty => None,
            ContentShape::Rectangle(rect) => Some(rect.origin),
            ContentShape::RoundedRectangle(rrect) => Some(rrect.origin),
            ContentShape::Circle(circle) => Some(circle.origin),
        }
    }

    /// Whether the shape can be moved by `offset` without overflow.
    pub open spec fn can_offset(self, offset: Point) -> bool {
        match self.origin() {
            Some(origin) => origin.can_add(offset),
            None => true,
        }
    }

    pub open spec fn offset_by(self, offset: Point) -> ContentShape {
        match self {
            ContentShape::Empty => ContentShape::Empty,
            ContentShape::Rectangle(rect) => ContentShape::Rectangle(
                Rectangle { origin: rect.origin.plus(offset), ..rect },
            ),
            ContentShape::RoundedRectangle(rrect) => ContentShape::RoundedRectangle(
                RoundedRectangle { origin: rrect.origin.plus(offset), ..rrect },
            ),
            ContentShape::Circle(circle) => ContentShape::Circle(
                Circle { origin: circle.origin.plus(offset), ..circle },
            ),
        }
    }

    /// Whether the edges of the bounding box can be computed.
    pub open spec fn edges_fit(self) -> bool {
        match self.spec_bounding_box() {
            Some(bb) => bb.edges_fit(),
            None => true,
        }
    }

    pub open spec fn spec_contains(self, point: Point) -> bool {
        match self.spec_bounding_box() {
            Some(bb) => bb.spec_contains(point),
            None => false,
        }
    }

    /// Returns the bounding rectangle of this content shape, if any.
    pub fn bounding_box(&self) -> (r: Option<Rectangle>)
        ensures
            r == self.spec_bounding_box(),
    {
        match self {
            Self::Empty => None,
            Self::Rectangle(rect) => Some(*rect),
            Self::RoundedRectangle(rrect) => Some(rrect.bounding_box()),
            Self::Circle(circle) => Some(circle.bounding_box()),
        }
    }

    /// Returns a new content shape with the provided offset applied
    pub fn with_offset(self, offset: Point) -> (r: Self)
        requires
            self.can_offset(offset),
        ensures
            r == self.offset_by(offset),
    {
        match self {
            Self::Empty => Self::Empty,
            Self::Rectangle(rect) => Self::Rectangle(rect.with_offset(offset)),
            Self::RoundedRectangle(rrect) => Self::RoundedRectangle(rrect.with_offset(offset)),
            Self::Circle(circle) => Self::Circle(circle.with_offset(offset)),
        }
    }

    /// Offsets the shape
    pub fn offset(&mut self, offset: Point)
        requires
            old(self).can_offset(offset),
        ensures
            *final(self) == old(self).offset_by(offset),
    {
        let moved = self.with_offset(offset);
        *self = moved;
    }

    /// Returns true if the provided point is contained within this content shape.
    ///
    /// Rounded rectangles and circles are hit-tested by their bounding box.
    pub fn contains(&self, point: Point) -> (r: bool)
        requires
            self.edges_fit(),
        ensures
            r == self.spec_contains(point),
    {
        match self {
            Self::Empty => false,
            Self::Rectangle(rect) => rect.contains(&point),
            Self::RoundedRectangle(rrect) => rrect.bounding_box().contains(&point),
            Self::Circle(circle) => circle.bounding_box().contains(&point),
        }
    }
}

impl From<Rectangle> for ContentShape {
    fn from(rect: Rectangle) -> (r: Self) {
        Self::Rectangle(rect)
    }
}

impl vstd::std_specs::convert::FromSpecImpl<Rectangle> for ContentShape {
    open spec fn obeys_from_spec() -> bool {
        true
    }

    open spec fn from_spec(rect: Rectangle) -> Self {
        ContentShape::Rectangle(rect)
    }
}

impl From<RoundedRectangle> for ContentShape {
    fn from(rrect: RoundedRectangle) -> (r: Self) {
        Self::RoundedRectangle(rrect)
    }
}

impl vstd::std_specs::convert::FromSpecImpl<RoundedRectangle> for ContentShape {
    open spec fn obeys_from_spec() -> bool {
        true
    }

    open spec fn from_spec(rrect: RoundedRectangle) -> Self {
        ContentShape::RoundedRectangle(rrect)
    }
}

impl From<Circle> for ContentShape {
    fn from(circle: Circle) -> (r: Self) {
        Self::Circle(circle)
    }
}

impl vstd::std_specs::convert::FromSpecImpl<Circle> for ContentShape {
    open spec fn obeys_from_spec() -> bool {
        true
    }

    open spec fn from_spec(circle: Circle) -> Self {
        ContentShape::Circle(circle)
    }
}

/// Moving a shape moves its bounding box by the same offset and keeps its size.
pub proof fn lemma_offset_moves_bounding_box(shape: ContentShape, offset: Point)
    requires
        shape.can_offset(offset),
    ensures
        shape.offset_by(offset).spec_bounding_box() == (match shape.spec_bounding_box() {
            Some(bb) => Some(Rectangle { origin: bb.origin.plus(offset), ..bb }),
            None => None,
        }),
{
}

/// Moving a shape and a point by the same offset keeps the point inside or
/// outside the shape; moving by nothing leaves the shape as it is.
pub proof fn lemma_offset_keeps_hits(shape: ContentShape, offset: Point, p: Point)
    requires
        shape.can_offset(offset),
        p.can_add(offset),
    ensures
        shape.offset_by(offset).spec_contains(p.plus(offset)) == shape.spec_contains(p),
        shape.offset_by(Point { x: 0, y: 0 }) == shape,
{
}

} // verus!
