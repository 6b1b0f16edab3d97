//! A hover area: entering and leaving it make messages.
use vstd::prelude::*;
use core::marker::PhantomData;
use crate::controls::ControlEvent;

verus! {

/// Makes the message of entering or of leaving; implemented by the application.
pub trait HoverOutput<Message> {
    /// The message that this output makes.
    spec fn message(&self) -> Message;

    fn create(&self) -> (m: Message)
        ensures
            m == self.message();
}

pub struct HoverControl<Message, E: HoverOutput<Message>, L: HoverOutput<Message>> {
    id: usize,
    phantom: PhantomData<Message>,
    enter: E,
    leave: L,
}

/// A hover control with the outputs for entering and for leaving.
pub fn c_hover<Message, E: HoverOutput<Message>, L: HoverOutput<Message>>(
    enter: E,
    leave: L,
) -> (c: HoverControl<Message, E, L>)
    ensures
        c.id() == 0,
        c.enter_message() == enter.message(),
        c.leave_message() == leave.message(),
{
    HoverControl::new(enter, leave)
}

impl<Message, E: HoverOutput<Message>, L: HoverOutput<Message>> HoverControl<Message, E, L> {
    pub closed spec fn id(&self) -> usize {
        self.id
    }

    /// The message of entering.
    pub closed spec fn enter_message(&self) -> Message {
        self.enter.message()
    }

    /// The message of leaving.
    pub closed spec fn leave_message(&self) -> Message {
        self.leave.message()
    }

    pub fn new(
        enter: E,
        leave: L,
    ) -> (c: Self)
        ensures
            c.id() == 0,
            c.enter_message() == enter.message(),
            c.leave_message() == leave.message(),
    {
        Self { id: 0, phantom: PhantomData, enter: enter, leave: leave }
    }

    /// The id that the control registry gave this control.
    pub fn get_id(&self) -> (r: usize)
        ensures
            r == self.id(),
    {
        self.id
    }

    /// Takes the id that the control registry gives this control.
    pub fn identify(&mut self, id: usize)
        ensures
            final(self).id() == id,
            final(self).enter_message() == old(self).enter_message(),
            final(self).leave_message() == old(self).leave_message(),
    {
        self.id = id;
    }

    /// Entering and leaving make messages; every other event makes none.
    pub fn handle(&mut self, event: ControlEvent) -> (r: Option<Message>)
        ensures
            event == ControlEvent::OnMouseEnter ==> r == Some(old(self).enter_message()),
            event == ControlEvent::OnMouseLeave ==> r == Some(old(self).leave_message()),
            event != ControlEvent::OnMouseEnter && event != ControlEvent::OnMouseLeave ==> r is None,
            *final(self) == *old(self),
    {
        match event {
            ControlEvent::OnMouseEnter => Some(self.enter.create()),
            ControlEvent::OnMouseLeave => Some(self.leave.create()),
            _ => None,
        }
    }
}

} // verus!
