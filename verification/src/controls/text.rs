//! A text field: typing edits its value, and a value that differs from the first one
//! makes a message.
use vstd::prelude::*;
use core::marker::PhantomData;
use crate::controls::ControlEvent;
use crate::input::Keys;
use crate::text::{push_char, pop_char, str_eq};

verus! {

/// Makes the message of an edited value; implemented by the application.
pub trait TextOutput<Message> {
    /// The message that this output makes of a value.
    spec fn message(&self, value: Seq<char>) -> Message;

    fn create(&self, value: &str) -> (m: Message)
        ensures
            m == self.message(value@);
}

pub struct TextControl<Message, O: TextOutput<Message>> {
    id: usize,
    phantom: PhantomData<Message>,
    output: O,
    initial_value: String,
    value: String,
}

/// The value after an event: a typed character is appended, Backspace removes the last
/// character, every other event leaves it.
pub open spec fn edited(value: Seq<char>, event: ControlEvent) -> Seq<char> {
    match event {
        ControlEvent::OnInput(c) => value.push(c),
        ControlEvent::OnKeyDown(Keys::Backspace) => if value.len() > 0 {
            value.drop_last()
        } else {
            value
        },
        _ => value,
    }
}

/// A text control with the given first value and output.
pub fn c_text<Message, O: TextOutput<Message>>(value: String, output: O) -> (c: TextControl<Message, O>)
    ensures
        c.id() == 0,
        c.initial_value() == value@,
        c.value() == value@,
        forall|v: Seq<char>| c.output_message(v) == output.message(v),
{
    TextControl::new(value, output)
}

impl<Message, O: TextOutput<Message>> TextControl<Message, O> {
    pub closed spec fn id(&self) -> usize {
        self.id
    }

    pub closed spec fn initial_value(&self) -> Seq<char> {
        self.initial_value@
    }

    pub closed spec fn value(&self) -> Seq<char> {
        self.value@
    }

    /// The message that the output makes of a value.
    pub closed spec fn output_message(&self, value: Seq<char>) -> Message {
        self.output.message(value)
    }

    pub fn new(value: String, output: O) -> (c: Self)
        ensures
            c.id() == 0,
            c.initial_value() == value@,
            c.value() == value@,
            forall|v: Seq<char>| c.output_message(v) == output.message(v),
    {
        let initial_value = value.clone();
        Self { id: 0, phantom: PhantomData, output: output, initial_value, value }
    }

    /// The id that the control registry gave this control.
    pub fn get_id(&self) -> (r: usize)
        ensures
            r == self.id(),
    {
        self.id
    }

    /// The value as it stands.
    pub fn get_value(&self) -> (r: &str)
        ensures
            r@ == self.value(),
    {
        self.value.as_str()
    }

    /// Takes the id that the control registry gives this control.
    pub fn identify(&mut self, id: usize)
        ensures
            final(self).id() == id,
            final(self).value() == old(self).value(),
            final(self).initial_value() == old(self).initial_value(),
            forall|v: Seq<char>| final(self).output_message(v) == old(self).output_message(v),
    {
        self.id = id;
    }

    /// Edits the value as [`edited`] says; a message follows whenever the value then
    /// differs from the first one.
    pub fn handle(&mut self, event: ControlEvent) -> (r: Option<Message>)
        ensures
            final(self).value() == edited(old(self).value(), event),
            final(self).initial_value() == old(self).initial_value(),
            final(self).id() == old(self).id(),
            final(self).value() != final(self).initial_value() ==> r == Some(old(self).output_message(final(self).value())),
            final(self).value() == final(self).initial_value() ==> r is None,
            forall|v: Seq<char>| final(self).output_message(v) == old(self).output_message(v),
    {
        match event {
            ControlEvent::OnInput(c) => {
                push_char(&mut self.value, c);
            },
            ControlEvent::OnKeyDown(key) => match key {
                Keys::Backspace => {
                    let _ = pop_char(&mut self.value);
                },
                _ => {},
            },
            _ => {},
        }
        if !str_eq(self.initial_value.as_str(), self.value.as_str()) {
            Some(self.output.create(self.value.as_str()))
        } else {
            None
        }
    }
}

} // verus!

verus! {

/// Backspace undoes a typed character: typing `c` and then pressing Backspace leaves the
/// value as it was.
pub proof fn law_backspace_undoes_input(value: Seq<char>, c: char)
    ensures
        edited(edited(value, ControlEvent::OnInput(c)), ControlEvent::OnKeyDown(Keys::Backspace)) == value,
{
    assert(value.push(c).drop_last() =~= value);
}

} // verus!
