//! The parts of an element that the view keeps between updates.
use vstd::prelude::*;
use crate::text::{joined, join, trim, trimmed, chars_of};
use crate::html::clone_strings;

verus! {

/// The text of an element or of an attribute, kept as the spans it was bound from, so
/// that one span can be replaced when its binding changes.
#[derive(Debug)]
pub struct TextContent {
    spans: Vec<String>,
}

impl Clone for TextContent {
    fn clone(&self) -> (r: Self)
        ensures
            r@ == self@,
    {
        let r = TextContent { spans: clone_strings(&self.spans) };
        assert(r@ =~= self@);
        r
    }
}

impl View for TextContent {
    type V = Seq<Seq<char>>;

    closed spec fn view(&self) -> Seq<Seq<char>> {
        self.spans@.map_values(|s: String| s@)
    }
}

impl TextContent {
    pub fn new(spans: Vec<String>) -> (t: Self)
        ensures
            t@ == spans@.map_values(|s: String| s@),
    {
        Self { spans }
    }

    /// Replaces the span at `span`; an index past the last span changes nothing.
    pub fn set(&mut self, span: usize, value: String)
        ensures
            span < old(self)@.len() ==> final(self)@ == old(self)@.update(span as int, value@),
            span >= old(self)@.len() ==> final(self)@ == old(self)@,
    {
        if span < self.spans.len() {
            let ghost v = value@;
            self.spans.set(span, value);
            assert(self@ =~= old(self)@.update(span as int, v));
        }
    }

    /// The spans written one after another, without leading and trailing whitespace.
    pub fn to_string(&self) -> (r: String)
        ensures
            r@ == trim(joined(self@, Seq::empty())),
    {
        let all = join(self.spans.as_slice(), 0, "");
        proof {
            assert(self.spans@.subrange(0, self.spans@.len() as int) =~= self.spans@);
            assert(""@ =~= Seq::<char>::empty()) by {
                reveal_strlit("");
            }
        }
        let cs = chars_of(all.as_str());
        trimmed(cs.as_slice())
    }
}

/// How an image fills the box of its element.
#[derive(Clone, Copy, PartialEq, Eq, Hash, Debug)]
pub enum ObjectFit {
    Contain,
    Cover,
    Fill,
    /// Keeps the natural size (`object-fit: none`).
    NoResize,
    ScaleDown,
}

/// The horizontal alignment of text.
#[derive(Clone, Copy, Debug, PartialEq, Eq)]
pub enum TextAlign {
    Start,
    End,
    Left,
    Right,
    Center,
    Justify,
    JustifyAll,
    MatchParent,
}

/// The interaction state of an element.
#[derive(Clone, Copy, Debug, PartialEq, Eq)]
pub struct ElementState {
    pub active: bool,
    pub hover: bool,
    pub focus: bool,
    pub checked: bool,
}

impl ElementState {
    /// No interaction yet.
    pub fn new() -> (s: Self)
        ensures
            !s.active && !s.hover && !s.focus && !s.checked,
    {
        ElementState { active: false, hover: false, focus: false, checked: false }
    }
}

/// Whether an element can be the target of pointer events.
#[derive(Clone, Copy, Debug, PartialEq, Eq)]
pub enum PointerEvents {
    Auto,
    /// Lets pointer events pass through (`pointer-events: none`).
    Ignore,
}

} // verus!
