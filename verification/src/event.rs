//! Interaction events and the results of handling them.
use core::time::Duration;

use vstd::prelude::*;

use crate::focus::{FocusAction, FocusGroup, RoleSet};
use crate::primitives::point::Point;
use crate::render::ContentShape;

verus! {

/// An interaction event that can be handled by a view.
#[non_exhaustive]
#[derive(Debug, Clone, Copy, PartialEq, Eq, Structural)]
pub enum Event {
    /// A request to move focus, often driven by navigational buttons
    /// or an encoder.
    Focus {
        /// The focus action to perform.
        action: FocusAction,
        /// The focus group this event targets.
        group: FocusGroup,
    },
    /// A key was pressed.
    KeyDown(u8),
    /// A key was released.
    KeyUp(u8),
}

impl From<FocusAction> for Event {
    fn from(action: FocusAction) -> (r: Self) {
        Self::Focus { action, group: FocusGroup::group_0() }
    }
}

impl vstd::std_specs::convert::FromSpecImpl<FocusAction> for Event {
    open spec fn obeys_from_spec() -> bool {
        true
    }

    open spec fn from_spec(action: FocusAction) -> Self {
        Event::Focus { action, group: FocusGroup(0) }
    }
}

impl Event {
    /// Returns a new event with the specified offset applied to any point-based data.
    ///
    /// None of the current events carries a point, so the event is returned as it is.
    pub fn offset(&self, _offset: Point) -> (r: Self)
        ensures
            r == *self,
    {
        *self
    }

    /// Returns a new event with the specified focus group set on Focus events.
    ///
    /// Non-focus events are returned unchanged.
    pub fn with_focus_group(self, group: FocusGroup) -> (r: Self)
        ensures
            r == (match self {
                Event::Focus { action, .. } => Event::Focus { action, group },
                other => other,
            }),
    {
        match self {
            Self::Focus { action, .. } => Self::Focus { action, group },
            other => other,
        }
    }
}

/// The result of handling an event.
#[derive(Debug, Clone, Copy, PartialEq, Eq, Structural)]
pub enum EventResult {
    /// Focus successfully moved to a new element
    Handled {
        /// The content shape of the focused element
        shape: ContentShape,
        /// The element which handled the event has focus
        request_focus: bool,
        /// The group of the focused element
        group: FocusGroup,
    },
    /// The event was not handled, or focus not obtained
    Deferred { focus_lost: bool },
}

impl Default for EventResult {
    fn default() -> (r: Self)
        ensures
            r == (EventResult::Deferred { focus_lost: false }),
    {
        Self::Deferred { focus_lost: false }
    }
}

impl EventResult {
    /// Creates a new `EventResult` indicating the event was handled but focus was not obtained.
    pub fn handled_unfocused() -> (r: Self)
        ensures
            r == (EventResult::Handled {
                shape: ContentShape::Empty,
                request_focus: false,
                group: FocusGroup(0),
            }),
    {
        Self::Handled {
            shape: ContentShape::Empty,
            request_focus: false,
            group: FocusGroup::group_0(),
        }
    }

    /// Creates a new `EventResult` indicating the event was handled with focus.
    pub fn handled_focused(shape: ContentShape) -> (r: Self)
        ensures
            r == (EventResult::Handled { shape, request_focus: true, group: FocusGroup(0) }),
    {
        Self::Handled { shape, request_focus: true, group: FocusGroup::group_0() }
    }

    /// Creates a new `EventResult` indicating the event was deferred.
    pub fn deferred() -> (r: Self)
        ensures
            r == (EventResult::Deferred { focus_lost: false }),
    {
        Self::Deferred { focus_lost: false }
    }

    /// Creates a new `EventResult` indicating the event was deferred and focus was lost.
    pub fn deferred_lost_focus() -> (r: Self)
        ensures
            r == (EventResult::Deferred { focus_lost: true }),
    {
        Self::Deferred { focus_lost: true }
    }

    /// Returns a new [`EventResult`] with the specified focus group.
    ///
    /// A deferred result becomes a plain deferral, without lost focus.
    pub fn with_group(self, group: FocusGroup) -> (r: Self)
        ensures
            r == (match self {
                EventResult::Handled { shape, request_focus, .. } => EventResult::Handled {
                    shape,
                    request_focus,
                    group,
                },
                EventResult::Deferred { .. } => EventResult::Deferred { focus_lost: false },
            }),
    {
        match self {
            Self::Handled { shape, request_focus, .. } => Self::Handled {
                shape,
                request_focus,
                group,
            },
            Self::Deferred { .. } => Self::deferred(),
        }
    }

    /// Returns true if the event was handled (not deferred).
    pub fn is_handled(&self) -> (r: bool)
        ensures
            r == (*self is Handled),
    {
        match self {
            Self::Handled { .. } => true,
            Self::Deferred { .. } => false,
        }
    }

    /// Returns true if this result is from an element requesting focus.
    pub fn requested_focus(&self) -> (r: bool)
        ensures
            r == (match *self {
                EventResult::Handled { request_focus, .. } => request_focus,
                EventResult::Deferred { .. } => false,
            }),
    {
        match self {
            Self::Handled { request_focus, .. } => *request_focus,
            Self::Deferred { .. } => false,
        }
    }

    /// Returns true if this result is from an element requesting focus.
    pub fn lost_focus(&self) -> (r: bool)
        ensures
            r == (match *self {
                EventResult::Handled { request_focus, .. } => request_focus,
                EventResult::Deferred { .. } => false,
            }),
    {
        match self {
            Self::Handled { request_focus, .. } => *request_focus,
            Self::Deferred { .. } => false,
        }
    }

    /// Returns the content shape if this result has one.
    pub fn shape(&self) -> (r: Option<&ContentShape>)
        ensures
            r == (match *self {
                EventResult::Handled { shape, .. } => Some(&shape),
                EventResult::Deferred { .. } => None,
            }),
    {
        match self {
            Self::Handled { shape, .. } => Some(shape),
            Self::Deferred { .. } => None,
        }
    }

    /// Returns the result offset by the given amount if it has a shape.
    pub fn with_offset(self, offset: Point) -> (r: Self)
        requires
            match self {
                EventResult::Handled { shape, .. } => shape.can_offset(offset),
                EventResult::Deferred { .. } => true,
            },
        ensures
            r == (match self {
                EventResult::Handled { shape, request_focus, group } => EventResult::Handled {
                    shape: shape.offset_by(offset),
                    request_focus,
                    group,
                },
                other => other,
            }),
    {
        match self {
            Self::Handled { shape, request_focus, group } => Self::Handled {
                shape: shape.with_offset(offset),
                request_focus,
                group,
            },
            other => other,
        }
    }
}

/// Context provided to views when handling events.
#[non_exhaustive]
#[derive(Debug, Clone, Copy, PartialEq, Eq)]
pub struct EventContext {
    /// The time since the application started.
    pub app_time: Duration,
    /// Whether a redraw has been requested.
    pub redraw_requested: bool,
    /// Whether a view rebuild has been requested.
    pub view_rebuild_requested: bool,
    /// Which roles are currently active.
    pub roles: RoleSet,
}

impl EventContext {
    /// Creates a new `EventContext` with the given application time.
    pub fn new(app_time: Duration) -> (r: Self)
        ensures
            r.app_time == app_time,
            !r.redraw_requested,
            !r.view_rebuild_requested,
            r.roles == RoleSet(u8::MAX),
    {
        Self {
            app_time,
            redraw_requested: false,
            view_rebuild_requested: false,
            roles: RoleSet::any(),
        }
    }

    pub fn with_roles(self, roles: RoleSet) -> (r: Self)
        ensures
            r == (EventContext { roles, ..self }),
    {
        let mut s = self;
        s.roles = roles;
        s
    }

    /// Indicates to the render loop that the view needs to be rebuilt.
    pub fn request_view_rebuild(&mut self)
        ensures
            *final(self) == (EventContext { view_rebuild_requested: true, ..*old(self) }),
    {
        self.view_rebuild_requested = true;
    }

    /// This flag indicates the view should be redrawn even if no animations were reported as
    /// active.
    ///
    /// This should be set when a view directly modifies the render tree state
    /// without requesting a view recompute, e.g. scrollview dragging.
    pub fn request_redraw(&mut self)
        ensures
            *final(self) == (EventContext { redraw_requested: true, ..*old(self) }),
    {
        self.redraw_requested = true;
    }
}

} // verus!
