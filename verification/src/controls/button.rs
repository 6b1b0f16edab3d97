//! A button: a click makes a message, while the button is enabled.
use vstd::prelude::*;
use core::marker::PhantomData;
use crate::controls::ControlEvent;

verus! {

/// Makes the message of a click; implemented by the application.
pub trait ButtonOutput<Message> {
    /// The message that this output makes.
    spec fn message(&self) -> Message;

    fn create(&self) -> (m: Message)
        ensures
            m == self.message();
}

pub struct ButtonControl<Message, O: ButtonOutput<Message>> {
    id: usize,
    phantom: PhantomData<Message>,
    output: O,
    enabled: bool,
}

/// A button control with the given output, enabled.
pub fn c_button<Message, O: ButtonOutput<Message>>(output: O) -> (c: ButtonControl<Message, O>)
    ensures
        c.id() == 0,
        c.is_enabled(),
        c.click_message() == output.message(),
{
    ButtonControl::new(output)
}

impl<Message, O: ButtonOutput<Message>> ButtonControl<Message, O> {
    pub closed spec fn id(&self) -> usize {
        self.id
    }

    pub closed spec fn is_enabled(&self) -> bool {
        self.enabled
    }

    /// The message of a click.
    pub closed spec fn click_message(&self) -> Message {
        self.output.message()
    }

    pub fn new(output: O) -> (c: Self)
        ensures
            c.id() == 0,
            c.is_enabled(),
            c.click_message() == output.message(),
    {
        Self { id: 0, phantom: PhantomData, output: output, enabled: true }
    }

    /// The same button, enabled or disabled.
    pub fn enabled(self, enabled: bool) -> (c: Self)
        ensures
            c.id() == self.id(),
            c.is_enabled() == enabled,
            c.click_message() == self.click_message(),
    {
        let mut c = self;
        c.enabled = enabled;
        c
    }

    /// The id that the control registry gave this control.
    pub fn get_id(&self) -> (r: usize)
        ensures
            r == self.id(),
    {
        self.id
    }

    /// Takes the id that the control registry gives this control.
    pub fn identify(&mut self, id: usize)
        ensures
            final(self).id() == id,
            final(self).is_enabled() == old(self).is_enabled(),
            final(self).click_message() == old(self).click_message(),
    {
        self.id = id;
    }

    /// A click on an enabled button makes a message; every other event makes none.
    pub fn handle(&mut self, event: ControlEvent) -> (r: Option<Message>)
        ensures
            (event == ControlEvent::OnClick && old(self).is_enabled()) ==> r == Some(old(self).click_message()),
            !(event == ControlEvent::OnClick && old(self).is_enabled()) ==> r is None,
            *final(self) == *old(self),
    {
        match event {
            ControlEvent::OnClick => {
                if self.enabled {
                    return Some(self.output.create());
                }
            },
            _ => {},
        }
        None
    }
}

} // verus!
