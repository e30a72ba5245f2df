//! Focus navigation requests and the groups and roles they address.
use vstd::prelude::*;

verus! {

/// The direction in which focus is searched for.
#[derive(Debug, Clone, Copy, PartialEq, Eq, Structural)]
pub enum FocusDirection {
    Forward,
    Backward,
}

/// A request to move or use focus.
#[derive(Debug, Clone, Copy, PartialEq, Eq, Structural)]
pub enum FocusAction {
    /// Acquire focus, searching in the given direction
    Focus(FocusDirection),
    /// Move focus to the next element
    Next,
    /// Move focus to the previous element
    Previous,
    /// Activate the focused element
    Select,
    /// Leave the current focus
    Blur,
}

/// A group of focusable elements that are navigated together.
#[derive(Debug, Clone, Copy, PartialEq, Eq, Structural)]
pub struct FocusGroup(pub u8);

impl FocusGroup {
    /// The group that events address unless another is named.
    pub fn group_0() -> (r: Self)
        ensures
            r.0 == 0,
    {
        FocusGroup(0)
    }
}

/// A set of roles (such as buttons or containers), one bit per role.
#[derive(Debug, Clone, Copy, PartialEq, Eq, Structural)]
pub struct RoleSet(pub u8);

impl RoleSet {
    /// The set that admits every role.
    pub fn any() -> (r: Self)
        ensures
            r.0 == u8::MAX,
    {
        RoleSet(u8::MAX)
    }
}

} // verus!
