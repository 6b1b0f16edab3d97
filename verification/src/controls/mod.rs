//! Controls: the parts of a view that turn user interaction into application messages.
use vstd::prelude::*;
use crate::input::Keys;

pub mod button;
pub mod hover;
pub mod text;

pub use button::{c_button, ButtonControl, ButtonOutput};
pub use hover::{c_hover, HoverControl, HoverOutput};
pub use text::{c_text, TextControl, TextOutput};

verus! {

/// What happened to the element that a control is bound to.
#[derive(Debug, Clone, Copy, PartialEq, Eq)]
pub enum ControlEvent {
    OnDrop,
    OnDragStart,
    OnDragEnd,
    OnDragEnter,
    OnDragLeave,
    OnDragOver,
    OnClick,
    OnContextMenu,
    OnFocus,
    OnBlur,
    OnInput(char),
    OnKeyDown(Keys),
    OnKeyUp(Keys),
    OnMouseDown,
    OnMouseEnter,
    OnMouseLeave,
    OnMouseMove,
    OnMouseUp,
}

} // verus!
