//! A convenience interface for driving an app with events.
use vstd::prelude::*;

use crate::event::{Event, EventResult};
use crate::focus::{FocusAction, FocusDirection, FocusGroup};

verus! {

/// The event that asks `group` to perform `action`.
pub fn focus_event(action: FocusAction, group: FocusGroup) -> (r: Event)
    ensures
        r == (Event::Focus { action, group }),
{
    Event::from(action).with_focus_group(group)
}

/// Sends events to something that handles them; the focus helpers build the
/// matching focus event and send it.
pub trait Harness {
    /// The events sent so far, each with the result it was answered with.
    spec fn history(&self) -> Seq<(Event, EventResult)>;

    /// Sends an event and returns the result.
    fn send(&mut self, event: Event) -> (r: EventResult)
        ensures
            final(self).history() == old(self).history().push((event, r)),
    ;

    /// Acquires focus, searching forward, in the common group.
    fn focus_forward(&mut self) -> (r: EventResult)
        ensures
            final(self).history() == old(self).history().push(
                ((Event::Focus { action: FocusAction::Focus(FocusDirection::Forward), group: FocusGroup(0) }), r),
            ),
    {
        self.send(Event::from(FocusAction::Focus(FocusDirection::Forward)))
    }

    /// Acquires focus searching forward in the specified group.
    fn focus_forward_group(&mut self, group: FocusGroup) -> (r: EventResult)
        ensures
            final(self).history() == old(self).history().push(
                ((Event::Focus { action: FocusAction::Focus(FocusDirection::Forward), group: group }), r),
            ),
    {
        self.send(focus_event(FocusAction::Focus(FocusDirection::Forward), group))
    }

    /// Acquires focus, searching backward, in the common group.
    fn focus_backward(&mut self) -> (r: EventResult)
        ensures
            final(self).history() == old(self).history().push(
                ((Event::Focus { action: FocusAction::Focus(FocusDirection::Backward), group: FocusGroup(0) }), r),
            ),
    {
        self.send(Event::from(FocusAction::Focus(FocusDirection::Backward)))
    }

    /// Acquires focus searching backward in the specified group.
    fn focus_backward_group(&mut self, group: FocusGroup) -> (r: EventResult)
        ensures
            final(self).history() == old(self).history().push(
                ((Event::Focus { action: FocusAction::Focus(FocusDirection::Backward), group: group }), r),
            ),
    {
        self.send(focus_event(FocusAction::Focus(FocusDirection::Backward), group))
    }

    /// Moves focus to the next element in the common group.
    fn next(&mut self) -> (r: EventResult)
        ensures
            final(self).history() == old(self).history().push(
                ((Event::Focus { action: FocusAction::Next, group: FocusGroup(0) }), r),
            ),
    {
        self.send(Event::from(FocusAction::Next))
    }

    /// Moves focus to the next element in the specified group.
    fn next_group(&mut self, group: FocusGroup) -> (r: EventResult)
        ensures
            final(self).history() == old(self).history().push(
                ((Event::Focus { action: FocusAction::Next, group: group }), r),
            ),
    {
        self.send(focus_event(FocusAction::Next, group))
    }

    /// Moves focus to the previous element in the common group.
    fn previous(&mut self) -> (r: EventResult)
        ensures
            final(self).history() == old(self).history().push(
                ((Event::Focus { action: FocusAction::Previous, group: FocusGroup(0) }), r),
            ),
    {
        self.send(Event::from(FocusAction::Previous))
    }

    /// Moves focus to the previous element in the specified group.
    fn previous_group(&mut self, group: FocusGroup) -> (r: EventResult)
        ensures
            final(self).history() == old(self).history().push(
                ((Event::Focus { action: FocusAction::Previous, group: group }), r),
            ),
    {
        self.send(focus_event(FocusAction::Previous, group))
    }

    /// Activates the currently focused element in the common group.
    fn select(&mut self) -> (r: EventResult)
        ensures
            final(self).history() == old(self).history().push(
                ((Event::Focus { action: FocusAction::Select, group: FocusGroup(0) }), r),
            ),
    {
        self.send(Event::from(FocusAction::Select))
    }

    /// Activates the currently focused element in the specified group.
    fn select_group(&mut self, group: FocusGroup) -> (r: EventResult)
        ensures
            final(self).history() == old(self).history().push(
                ((Event::Focus { action: FocusAction::Select, group: group }), r),
            ),
    {
        self.send(focus_event(FocusAction::Select, group))
    }

    /// Blurs (exits) the current focus in the common group.
    fn blur(&mut self) -> (r: EventResult)
        ensures
            final(self).history() == old(self).history().push(
                ((Event::Focus { action: FocusAction::Blur, group: FocusGroup(0) }), r),
            ),
    {
        self.send(Event::from(FocusAction::Blur))
    }

    /// Blurs (exits) the current focus in the specified group.
    fn blur_group(&mut self, group: FocusGroup) -> (r: EventResult)
        ensures
            final(self).history() == old(self).history().push(
                ((Event::Focus { action: FocusAction::Blur, group: group }), r),
            ),
    {
        self.send(focus_event(FocusAction::Blur, group))
    }
}

} // verus!
