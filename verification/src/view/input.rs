//! What one input event does to the interaction state of a view: which elements it
//! hovers, activates, focuses or drags, and which handlers it calls, in which order.
//! Where the mouse is over which element is found by the caller, from the layout.
use vstd::prelude::*;
use crate::input::{Keys, MouseButtons};

verus! {

/// An input event as the interaction state sees it: a mouse move comes with the elements
/// found under the mouse, handed in beside it.
#[derive(Debug, Clone, Copy)]
pub enum InputEvent {
    Unknown,
    MouseMove,
    MouseButtonDown(MouseButtons),
    MouseButtonUp(MouseButtons),
    MouseWheel,
    KeyDown(Keys),
    KeyUp(Keys),
    Char(char),
}

/// The handlers that input calls on an element.
#[derive(Debug, Clone, Copy, PartialEq, Eq, Structural)]
pub enum EventName {
    MouseLeave,
    DragLeave,
    MouseEnter,
    DragEnter,
    MouseMove,
    DragOver,
    Blur,
    Focus,
    MouseDown,
    DragStart,
    MouseUp,
    Drop,
    DragEnd,
    Click,
    ContextMenu,
    KeyDown,
    KeyUp,
    Input,
}

/// The interaction flags of an element.
#[derive(Debug, Clone, Copy, PartialEq, Eq, Structural)]
pub enum ElementFlag {
    Hover,
    Active,
    Focus,
}

/// One thing an input event does: call a handler of an element, or set a flag of it.
#[derive(Debug, Clone, Copy, PartialEq, Eq, Structural)]
pub enum InputAction {
    Call(usize, EventName),
    Mark(usize, ElementFlag, bool),
}

/// What input needs to know of an element: whether it takes text input (it has an
/// `oninput` handler), takes drops (an `ondrop` handler), and can be dragged.
#[derive(Debug, Clone, Copy, PartialEq, Eq, Structural)]
pub struct Target {
    pub focusable: bool,
    pub drop_target: bool,
    pub draggable: bool,
}

/// The interaction state: the elements under the mouse, from the outermost on; the
/// elements pressed since the last button release (an element is active while it is
/// among them); the element being dragged; the element with the focus.
#[derive(Debug)]
pub struct InputState {
    pub elements_under_mouse: Vec<usize>,
    pub elements_in_action: Vec<usize>,
    pub drag: Option<usize>,
    pub focus: Option<usize>,
}

pub struct InputStateV {
    pub under: Seq<usize>,
    pub in_action: Seq<usize>,
    pub drag: Option<usize>,
    pub focus: Option<usize>,
}

impl View for InputState {
    type V = InputStateV;

    open spec fn view(&self) -> InputStateV {
        InputStateV {
            under: self.elements_under_mouse@,
            in_action: self.elements_in_action@,
            drag: self.drag,
            focus: self.focus,
        }
    }
}

/// Every element that the state or the elements under the mouse name is one of `count`.
pub open spec fn names_known(s: InputStateV, under_mouse: Seq<usize>, count: nat) -> bool {
    &&& forall|i: int| 0 <= i < s.under.len() ==> #[trigger] s.under[i] < count
    &&& forall|i: int| 0 <= i < s.in_action.len() ==> #[trigger] s.in_action[i] < count
    &&& forall|i: int| 0 <= i < under_mouse.len() ==> #[trigger] under_mouse[i] < count
    &&& (s.drag matches Some(d) ==> d < count)
    &&& (s.focus matches Some(f) ==> f < count)
}

/// A handler call when something is dragged, else nothing.
pub open spec fn if_dragging(dragging: bool, node: usize, e: EventName) -> Seq<InputAction> {
    if dragging {
        seq![InputAction::Call(node, e)]
    } else {
        seq![]
    }
}

/// The elements that were under the mouse and no longer are, from the innermost
/// (`prev[k - 1]`) out: each loses its hover and gets `mouseleave` (and `dragleave`).
pub open spec fn leave_actions(prev: Seq<usize>, cur: Seq<usize>, dragging: bool, k: int) -> Seq<InputAction>
    decreases k,
{
    if k <= 0 {
        seq![]
    } else {
        let n = prev[k - 1];
        let here = if cur.contains(n) {
            seq![]
        } else {
            seq![InputAction::Mark(n, ElementFlag::Hover, false), InputAction::Call(n, EventName::MouseLeave)]
                + if_dragging(dragging, n, EventName::DragLeave)
        };
        here + leave_actions(prev, cur, dragging, k - 1)
    }
}

/// The elements under the mouse, from the innermost (`cur[k - 1]`) out: one that was not
/// under it before gets hovered and `mouseenter` (and `dragenter`); each gets
/// `mousemove` (and `dragover`).
pub open spec fn enter_actions(prev: Seq<usize>, cur: Seq<usize>, dragging: bool, k: int) -> Seq<InputAction>
    decreases k,
{
    if k <= 0 {
        seq![]
    } else {
        let n = cur[k - 1];
        let entered = if prev.contains(n) {
            seq![]
        } else {
            seq![InputAction::Mark(n, ElementFlag::Hover, true), InputAction::Call(n, EventName::MouseEnter)]
                + if_dragging(dragging, n, EventName::DragEnter)
        };
        entered + seq![InputAction::Call(n, EventName::MouseMove)] + if_dragging(dragging, n, EventName::DragOver)
            + enter_actions(prev, cur, dragging, k - 1)
    }
}

/// A button pressed on the element `n` under the mouse: it becomes active and in action;
/// where it takes text input and has no focus, the focused element (if any) is blurred
/// and `n` gets the focus; it gets `mousedown`; with the left button on a draggable
/// element, it gets `dragstart` and is dragged.
pub open spec fn down_step(s: InputStateV, n: usize, button: MouseButtons, targets: Seq<Target>) -> (InputStateV, Seq<InputAction>) {
    let s0 = InputStateV { under: s.under, in_action: s.in_action.push(n), drag: s.drag, focus: s.focus };
    let (s1, focusing) = if targets[n as int].focusable && s0.focus != Some(n) {
        let blur = match s0.focus {
            Some(f) => seq![InputAction::Mark(f, ElementFlag::Focus, false), InputAction::Call(f, EventName::Blur)],
            None => seq![],
        };
        (
            InputStateV { under: s0.under, in_action: s0.in_action, drag: s0.drag, focus: Some(n) },
            blur + seq![InputAction::Mark(n, ElementFlag::Focus, true), InputAction::Call(n, EventName::Focus)],
        )
    } else {
        (s0, seq![])
    };
    let (s2, dragging) = if button == MouseButtons::Left && targets[n as int].draggable {
        (
            InputStateV { under: s1.under, in_action: s1.in_action, drag: Some(n), focus: s1.focus },
            seq![InputAction::Call(n, EventName::DragStart)],
        )
    } else {
        (s1, seq![])
    };
    (s2, seq![InputAction::Mark(n, ElementFlag::Active, true)] + focusing + seq![InputAction::Call(n, EventName::MouseDown)] + dragging)
}

/// [`down_step`] on the elements under the mouse from `under[k - 1]` out.
pub open spec fn down_loop(s: InputStateV, under: Seq<usize>, k: int, button: MouseButtons, targets: Seq<Target>) -> (InputStateV, Seq<InputAction>)
    decreases k,
{
    if k <= 0 {
        (s, seq![])
    } else {
        let r = down_step(s, under[k - 1], button, targets);
        let t = down_loop(r.0, under, k - 1, button, targets);
        (t.0, r.1 + t.1)
    }
}

/// A button released over the element `n`: it gets `mouseup`; while something is
/// dragged, a drop target gets `drop` and the dragged element `dragend`, and nothing is
/// dragged any more; otherwise an active element gets `click` from the left button, and
/// any element `contextmenu` from the right one.
pub open spec fn up_step(s: InputStateV, n: usize, button: MouseButtons, targets: Seq<Target>) -> (InputStateV, Seq<InputAction>) {
    let up = seq![InputAction::Call(n, EventName::MouseUp)];
    match s.drag {
        Some(source) => if targets[n as int].drop_target {
            (
                InputStateV { under: s.under, in_action: s.in_action, drag: None, focus: s.focus },
                up + seq![InputAction::Call(n, EventName::Drop), InputAction::Call(source, EventName::DragEnd)],
            )
        } else {
            (s, up)
        },
        None => {
            let click = if button == MouseButtons::Left && s.in_action.contains(n) {
                seq![InputAction::Call(n, EventName::Click)]
            } else {
                seq![]
            };
            let menu = if button == MouseButtons::Right {
                seq![InputAction::Call(n, EventName::ContextMenu)]
            } else {
                seq![]
            };
            (s, up + click + menu)
        },
    }
}

/// [`up_step`] on the elements under the mouse from `under[k - 1]` out.
pub open spec fn up_loop(s: InputStateV, under: Seq<usize>, k: int, button: MouseButtons, targets: Seq<Target>) -> (InputStateV, Seq<InputAction>)
    decreases k,
{
    if k <= 0 {
        (s, seq![])
    } else {
        let r = up_step(s, under[k - 1], button, targets);
        let t = up_loop(r.0, under, k - 1, button, targets);
        (t.0, r.1 + t.1)
    }
}

/// The elements in action lose their active flag, in order.
pub open spec fn deactivated(nodes: Seq<usize>) -> Seq<InputAction> {
    Seq::new(nodes.len(), |i: int| InputAction::Mark(nodes[i], ElementFlag::Active, false))
}

/// A key or a character goes to the focused element, if there is one.
pub open spec fn to_focus(s: InputStateV, e: EventName) -> Seq<InputAction> {
    match s.focus {
        Some(n) => seq![InputAction::Call(n, e)],
        None => seq![],
    }
}

/// What one event does to the interaction state, and what it does to the elements, in
/// order; `under_mouse` is where the mouse now is, for a mouse move.
/// - mouse move: see [`leave_actions`], then [`enter_actions`]; the elements under the
///   mouse are `under_mouse`;
/// - button down: a focused element that is not under the mouse loses the focus and gets
///   `blur`; then see [`down_loop`];
/// - button up: see [`up_loop`]; then the elements in action are no longer active
///   ([`deactivated`]) and none is in action;
/// - key down, key up, character: `keydown`, `keyup`, `input` to the focused element;
/// - otherwise nothing.
pub open spec fn spec_input_step(s: InputStateV, event: InputEvent, under_mouse: Seq<usize>, targets: Seq<Target>) -> (InputStateV, Seq<InputAction>) {
    match event {
        InputEvent::MouseMove => {
            let dragging = s.drag is Some;
            (
                InputStateV { under: under_mouse, in_action: s.in_action, drag: s.drag, focus: s.focus },
                leave_actions(s.under, under_mouse, dragging, s.under.len() as int)
                    + enter_actions(s.under, under_mouse, dragging, under_mouse.len() as int),
            )
        },
        InputEvent::MouseButtonDown(button) => {
            let (s0, blur) = match s.focus {
                Some(f) => if !s.under.contains(f) {
                    (
                        InputStateV { under: s.under, in_action: s.in_action, drag: s.drag, focus: None },
                        seq![InputAction::Mark(f, ElementFlag::Focus, false), InputAction::Call(f, EventName::Blur)],
                    )
                } else {
                    (s, seq![])
                },
                None => (s, seq![]),
            };
            let r = down_loop(s0, s.under, s.under.len() as int, button, targets);
            (r.0, blur + r.1)
        },
        InputEvent::MouseButtonUp(button) => {
            let r = up_loop(s, s.under, s.under.len() as int, button, targets);
            (
                InputStateV { under: r.0.under, in_action: seq![], drag: r.0.drag, focus: r.0.focus },
                r.1 + deactivated(r.0.in_action),
            )
        },
        InputEvent::KeyDown(_) => (s, to_focus(s, EventName::KeyDown)),
        InputEvent::KeyUp(_) => (s, to_focus(s, EventName::KeyUp)),
        InputEvent::Char(_) => (s, to_focus(s, EventName::Input)),
        _ => (s, seq![]),
    }
}

fn has_node(v: &Vec<usize>, x: usize) -> (r: bool)
    ensures
        r == v@.contains(x),
{
    let mut k: usize = 0;
    while k < v.len()
        invariant
            k <= v@.len(),
            forall|i: int| 0 <= i < k ==> v@[i] != x,
        decreases v@.len() - k,
    {
        if v[k] == x {
            assert(v@[k as int] == x);
            return true;
        }
        k = k + 1;
    }
    false
}

fn copy_nodes(v: &Vec<usize>) -> (r: Vec<usize>)
    ensures
        r@ == v@,
{
    let mut r: Vec<usize> = Vec::new();
    let mut k: usize = 0;
    while k < v.len()
        invariant
            k <= v@.len(),
            r@ == v@.subrange(0, k as int),
        decreases v@.len() - k,
    {
        r.push(v[k]);
        k = k + 1;
        proof {
            assert(r@ =~= v@.subrange(0, k as int));
        }
    }
    proof {
        assert(v@.subrange(0, v@.len() as int) =~= v@);
    }
    r
}

fn is_left(b: MouseButtons) -> (r: bool)
    ensures
        r == (b == MouseButtons::Left),
{
    match b {
        MouseButtons::Left => true,
        MouseButtons::Right => false,
    }
}

/// What the event does to the interaction state and to the elements, see
/// [`spec_input_step`]; `targets` tells of each element what input needs to know.
pub fn input_step(state: &InputState, event: InputEvent, under_mouse: &Vec<usize>, targets: &Vec<Target>) -> (r: (InputState, Vec<InputAction>))
    requires
        names_known(state@, under_mouse@, targets@.len()),
    ensures
        (r.0@, r.1@) == spec_input_step(state@, event, under_mouse@, targets@),
{
    let s = state;
    match event {
        InputEvent::MouseMove => {
            let prev = &s.elements_under_mouse;
            let dragging = s.drag.is_some();
            let mut actions: Vec<InputAction> = Vec::new();
            let mut k: usize = prev.len();
            while k > 0
                invariant
                    k <= prev@.len(),
                    actions@ + leave_actions(prev@, under_mouse@, dragging, k as int)
                        == leave_actions(prev@, under_mouse@, dragging, prev@.len() as int),
                decreases k,
            {
                let n = prev[k - 1];
                let ghost before = actions@;
                let ghost here = if under_mouse@.contains(n) {
                    Seq::<InputAction>::empty()
                } else {
                    seq![InputAction::Mark(n, ElementFlag::Hover, false), InputAction::Call(n, EventName::MouseLeave)]
                        + if_dragging(dragging, n, EventName::DragLeave)
                };
                if !has_node(under_mouse, n) {
                    actions.push(InputAction::Mark(n, ElementFlag::Hover, false));
                    actions.push(InputAction::Call(n, EventName::MouseLeave));
                    if dragging {
                        actions.push(InputAction::Call(n, EventName::DragLeave));
                    }
                }
                proof {
                    assert(actions@ =~= before + here);
                    assert(leave_actions(prev@, under_mouse@, dragging, k as int) == here + leave_actions(prev@, under_mouse@, dragging, k - 1));
                    assert(before + (here + leave_actions(prev@, under_mouse@, dragging, k - 1)) =~= (before + here) + leave_actions(prev@, under_mouse@, dragging, k - 1));
                }
                k = k - 1;
            }
            let ghost leaving = actions@;
            let mut k: usize = under_mouse.len();
            while k > 0
                invariant
                    k <= under_mouse@.len(),
                    actions@ + enter_actions(prev@, under_mouse@, dragging, k as int)
                        == leaving + enter_actions(prev@, under_mouse@, dragging, under_mouse@.len() as int),
                decreases k,
            {
                let n = under_mouse[k - 1];
                let ghost before = actions@;
                let ghost entered = if prev@.contains(n) {
                    Seq::<InputAction>::empty()
                } else {
                    seq![InputAction::Mark(n, ElementFlag::Hover, true), InputAction::Call(n, EventName::MouseEnter)]
                        + if_dragging(dragging, n, EventName::DragEnter)
                };
                let ghost here = entered + seq![InputAction::Call(n, EventName::MouseMove)] + if_dragging(dragging, n, EventName::DragOver);
                if !has_node(prev, n) {
                    actions.push(InputAction::Mark(n, ElementFlag::Hover, true));
                    actions.push(InputAction::Call(n, EventName::MouseEnter));
                    if dragging {
                        actions.push(InputAction::Call(n, EventName::DragEnter));
                    }
                }
                actions.push(InputAction::Call(n, EventName::MouseMove));
                if dragging {
                    actions.push(InputAction::Call(n, EventName::DragOver));
                }
                proof {
                    assert(actions@ =~= before + here);
                    assert(enter_actions(prev@, under_mouse@, dragging, k as int) == here + enter_actions(prev@, under_mouse@, dragging, k - 1));
                    assert(before + (here + enter_actions(prev@, under_mouse@, dragging, k - 1)) =~= (before + here) + enter_actions(prev@, under_mouse@, dragging, k - 1));
                }
                k = k - 1;
            }
            proof {
                assert(leave_actions(prev@, under_mouse@, dragging, prev@.len() as int) =~= leaving + Seq::<InputAction>::empty());
            }
            let next = InputState {
                elements_under_mouse: copy_nodes(under_mouse),
                elements_in_action: copy_nodes(&s.elements_in_action),
                drag: s.drag,
                focus: s.focus,
            };
            (next, actions)
        },
        InputEvent::MouseButtonDown(button) => {
            let mut actions: Vec<InputAction> = Vec::new();
            let mut focus = s.focus;
            match s.focus {
                Some(f) => {
                    if !has_node(&s.elements_under_mouse, f) {
                        focus = None;
                        actions.push(InputAction::Mark(f, ElementFlag::Focus, false));
                        actions.push(InputAction::Call(f, EventName::Blur));
                    }
                },
                None => {},
            }
            let under = &s.elements_under_mouse;
            let mut in_action = copy_nodes(&s.elements_in_action);
            let mut drag = s.drag;
            let ghost s0 = InputStateV { under: under@, in_action: in_action@, drag: drag, focus: focus };
            let ghost blur = actions@;
            let ghost total = down_loop(s0, under@, under@.len() as int, button, targets@);
            proof {
                assert forall|i: int| 0 <= i < in_action@.len() implies #[trigger] in_action@[i] < targets@.len() by {
                    assert(in_action@[i] == state@.in_action[i]);
                }
            }
            let mut k: usize = under.len();
            while k > 0
                invariant
                    k <= under@.len(),
                    under@ == state@.under,
                    names_known(state@, under_mouse@, targets@.len()),
                    forall|i: int| 0 <= i < in_action@.len() ==> #[trigger] in_action@[i] < targets@.len(),
                    drag matches Some(d) ==> d < targets@.len(),
                    focus matches Some(f) ==> f < targets@.len(),
                    ({
                        let t = down_loop(InputStateV { under: under@, in_action: in_action@, drag: drag, focus: focus }, under@, k as int, button, targets@);
                        total == (t.0, actions@.subrange(blur.len() as int, actions@.len() as int) + t.1)
                    }),
                    blur.len() <= actions@.len(),
                    actions@.subrange(0, blur.len() as int) == blur,
                decreases k,
            {
                let n = under[k - 1];
                let ghost cur = InputStateV { under: under@, in_action: in_action@, drag: drag, focus: focus };
                let ghost before = actions@;
                let ghost step = down_step(cur, n, button, targets@);
                actions.push(InputAction::Mark(n, ElementFlag::Active, true));
                in_action.push(n);
                if targets[n].focusable && focus != Some(n) {
                    match focus {
                        Some(f) => {
                            actions.push(InputAction::Mark(f, ElementFlag::Focus, false));
                            actions.push(InputAction::Call(f, EventName::Blur));
                        },
                        None => {},
                    }
                    focus = Some(n);
                    actions.push(InputAction::Mark(n, ElementFlag::Focus, true));
                    actions.push(InputAction::Call(n, EventName::Focus));
                }
                actions.push(InputAction::Call(n, EventName::MouseDown));
                if is_left(button) && targets[n].draggable {
                    actions.push(InputAction::Call(n, EventName::DragStart));
                    drag = Some(n);
                }
                proof {
                    let now = InputStateV { under: under@, in_action: in_action@, drag: drag, focus: focus };
                    assert(now == step.0);
                    assert(actions@ =~= before + step.1);
                    let rest = down_loop(now, under@, k - 1, button, targets@);
                    assert(down_loop(cur, under@, k as int, button, targets@) == (rest.0, step.1 + rest.1));
                    assert(before.subrange(blur.len() as int, before.len() as int) + (step.1 + rest.1) =~= actions@.subrange(blur.len() as int, actions@.len() as int) + rest.1);
                    assert(actions@.subrange(0, blur.len() as int) =~= before.subrange(0, blur.len() as int));
                }
                k = k - 1;
            }
            proof {
                assert(actions@ =~= blur + actions@.subrange(blur.len() as int, actions@.len() as int));
                assert(actions@.subrange(blur.len() as int, actions@.len() as int) + Seq::<InputAction>::empty() =~= actions@.subrange(blur.len() as int, actions@.len() as int));
            }
            let next = InputState {
                elements_under_mouse: copy_nodes(under),
                elements_in_action: in_action,
                drag: drag,
                focus: focus,
            };
            (next, actions)
        },
        InputEvent::MouseButtonUp(button) => {
            let under = &s.elements_under_mouse;
            let in_action = &s.elements_in_action;
            let mut actions: Vec<InputAction> = Vec::new();
            let mut drag = s.drag;
            let ghost total = up_loop(state@, under@, under@.len() as int, button, targets@);
            let mut k: usize = under.len();
            while k > 0
                invariant
                    k <= under@.len(),
                    under@ == state@.under,
                    in_action@ == state@.in_action,
                    names_known(state@, under_mouse@, targets@.len()),
                    drag matches Some(d) ==> d < targets@.len(),
                    ({
                        let t = up_loop(InputStateV { under: under@, in_action: in_action@, drag: drag, focus: state@.focus }, under@, k as int, button, targets@);
                        total == (t.0, actions@ + t.1)
                    }),
                decreases k,
            {
                let n = under[k - 1];
                let ghost cur = InputStateV { under: under@, in_action: in_action@, drag: drag, focus: state@.focus };
                let ghost before = actions@;
                let ghost step = up_step(cur, n, button, targets@);
                actions.push(InputAction::Call(n, EventName::MouseUp));
                match drag {
                    Some(source) => {
                        if targets[n].drop_target {
                            actions.push(InputAction::Call(n, EventName::Drop));
                            actions.push(InputAction::Call(source, EventName::DragEnd));
                            drag = None;
                        }
                    },
                    None => {
                        if is_left(button) && has_node(in_action, n) {
                            actions.push(InputAction::Call(n, EventName::Click));
                        }
                        if !is_left(button) {
                            actions.push(InputAction::Call(n, EventName::ContextMenu));
                        }
                    },
                }
                proof {
                    let now = InputStateV { under: under@, in_action: in_action@, drag: drag, focus: state@.focus };
                    assert(button == MouseButtons::Right <==> button != MouseButtons::Left);
                    assert(now == step.0);
                    assert(actions@ =~= before + step.1);
                    let rest = up_loop(now, under@, k - 1, button, targets@);
                    assert(up_loop(cur, under@, k as int, button, targets@) == (rest.0, step.1 + rest.1));
                    assert(before + (step.1 + rest.1) =~= actions@ + rest.1);
                }
                k = k - 1;
            }
            let ghost looped = actions@;
            let mut j: usize = 0;
            while j < in_action.len()
                invariant
                    j <= in_action@.len(),
                    actions@ == looped + deactivated(in_action@).subrange(0, j as int),
                decreases in_action@.len() - j,
            {
                actions.push(InputAction::Mark(in_action[j], ElementFlag::Active, false));
                j = j + 1;
                proof {
                    assert(actions@ =~= looped + deactivated(in_action@).subrange(0, j as int));
                }
            }
            proof {
                assert(deactivated(in_action@).subrange(0, in_action@.len() as int) =~= deactivated(in_action@));
                assert(looped + Seq::<InputAction>::empty() =~= looped);
            }
            let next = InputState {
                elements_under_mouse: copy_nodes(under),
                elements_in_action: Vec::new(),
                drag: drag,
                focus: s.focus,
            };
            (next, actions)
        },
        InputEvent::KeyDown(_) => {
            let mut actions: Vec<InputAction> = Vec::new();
            if let Some(n) = s.focus {
                actions.push(InputAction::Call(n, EventName::KeyDown));
            }
            proof {
                assert(actions@ =~= to_focus(state@, EventName::KeyDown));
            }
            (copy_state(s), actions)
        },
        InputEvent::KeyUp(_) => {
            let mut actions: Vec<InputAction> = Vec::new();
            if let Some(n) = s.focus {
                actions.push(InputAction::Call(n, EventName::KeyUp));
            }
            proof {
                assert(actions@ =~= to_focus(state@, EventName::KeyUp));
            }
            (copy_state(s), actions)
        },
        InputEvent::Char(_) => {
            let mut actions: Vec<InputAction> = Vec::new();
            if let Some(n) = s.focus {
                actions.push(InputAction::Call(n, EventName::Input));
            }
            proof {
                assert(actions@ =~= to_focus(state@, EventName::Input));
            }
            (copy_state(s), actions)
        },
        _ => {
            let actions: Vec<InputAction> = Vec::new();
            proof {
                assert(actions@ =~= Seq::<InputAction>::empty());
            }
            (copy_state(s), actions)
        },
    }
}

fn copy_state(s: &InputState) -> (r: InputState)
    ensures
        r@ == s@,
{
    InputState {
        elements_under_mouse: copy_nodes(&s.elements_under_mouse),
        elements_in_action: copy_nodes(&s.elements_in_action),
        drag: s.drag,
        focus: s.focus,
    }
}

proof fn lemma_down_known(s: InputStateV, under: Seq<usize>, k: int, button: MouseButtons, targets: Seq<Target>, under_mouse: Seq<usize>)
    requires
        names_known(s, under_mouse, targets.len()),
        forall|i: int| 0 <= i < under.len() ==> #[trigger] under[i] < targets.len(),
        k <= under.len(),
    ensures
        names_known(down_loop(s, under, k, button, targets).0, under_mouse, targets.len()),
    decreases k,
{
    if k > 0 {
        let n = under[k - 1];
        let r = down_step(s, n, button, targets);
        assert(r.0.in_action =~= s.in_action.push(n));
        assert forall|i: int| 0 <= i < r.0.in_action.len() implies #[trigger] r.0.in_action[i] < targets.len() by {
            if i < s.in_action.len() {
                assert(r.0.in_action[i] == s.in_action[i]);
            }
        }
        lemma_down_known(r.0, under, k - 1, button, targets, under_mouse);
    }
}

proof fn lemma_up_known(s: InputStateV, under: Seq<usize>, k: int, button: MouseButtons, targets: Seq<Target>, under_mouse: Seq<usize>)
    requires
        names_known(s, under_mouse, targets.len()),
        forall|i: int| 0 <= i < under.len() ==> #[trigger] under[i] < targets.len(),
        k <= under.len(),
    ensures
        names_known(up_loop(s, under, k, button, targets).0, under_mouse, targets.len()),
    decreases k,
{
    if k > 0 {
        let r = up_step(s, under[k - 1], button, targets);
        lemma_up_known(r.0, under, k - 1, button, targets, under_mouse);
    }
}

/// Input never makes the state name an element that was not known before: when the
/// state and the elements under the mouse name elements of the view only, so does the
/// state after any event.
pub proof fn law_input_keeps_elements_known(s: InputStateV, event: InputEvent, under_mouse: Seq<usize>, targets: Seq<Target>)
    requires
        names_known(s, under_mouse, targets.len()),
    ensures
        names_known(spec_input_step(s, event, under_mouse, targets).0, under_mouse, targets.len()),
{
    match event {
        InputEvent::MouseButtonDown(button) => {
            let s0 = match s.focus {
                Some(f) => if !s.under.contains(f) {
                    InputStateV { under: s.under, in_action: s.in_action, drag: s.drag, focus: None }
                } else {
                    s
                },
                None => s,
            };
            lemma_down_known(s0, s.under, s.under.len() as int, button, targets, under_mouse);
        },
        InputEvent::MouseButtonUp(button) => {
            lemma_up_known(s, s.under, s.under.len() as int, button, targets, under_mouse);
        },
        _ => {},
    }
}


/// Keyboard input goes to the element with the focus, each event to the handler of its
/// own kind: a key press to `keydown`, a key release to `keyup`, a character to `input`;
/// without a focus it calls nothing. The state stays as it is.
pub proof fn law_keys_go_to_the_focus(s: InputStateV, key: Keys, c: char, under_mouse: Seq<usize>, targets: Seq<Target>)
    ensures
        spec_input_step(s, InputEvent::KeyDown(key), under_mouse, targets).0 == s,
        spec_input_step(s, InputEvent::KeyUp(key), under_mouse, targets).0 == s,
        spec_input_step(s, InputEvent::Char(c), under_mouse, targets).0 == s,
        s.focus matches Some(n) ==> spec_input_step(s, InputEvent::KeyDown(key), under_mouse, targets).1
            == seq![InputAction::Call(n, EventName::KeyDown)],
        s.focus matches Some(n) ==> spec_input_step(s, InputEvent::KeyUp(key), under_mouse, targets).1
            == seq![InputAction::Call(n, EventName::KeyUp)],
        s.focus matches Some(n) ==> spec_input_step(s, InputEvent::Char(c), under_mouse, targets).1
            == seq![InputAction::Call(n, EventName::Input)],
        s.focus is None ==> spec_input_step(s, InputEvent::KeyDown(key), under_mouse, targets).1.len() == 0
            && spec_input_step(s, InputEvent::KeyUp(key), under_mouse, targets).1.len() == 0
            && spec_input_step(s, InputEvent::Char(c), under_mouse, targets).1.len() == 0,
{
}

/// The wheel and unknown events change nothing and call nothing.
pub proof fn law_other_events_do_nothing(s: InputStateV, under_mouse: Seq<usize>, targets: Seq<Target>)
    ensures
        spec_input_step(s, InputEvent::MouseWheel, under_mouse, targets) == (s, Seq::<InputAction>::empty()),
        spec_input_step(s, InputEvent::Unknown, under_mouse, targets) == (s, Seq::<InputAction>::empty()),
{
}

/// Moving the mouse (with nothing dragged) onto an element hovers it and calls its
/// `mouseenter` and then `mousemove`; moving on over it calls `mousemove` only; moving
/// off it unhovers it and calls its `mouseleave`. The elements under the mouse become
/// those it is now over, and nothing else in the state changes.
pub proof fn law_mouse_moves_enter_and_leave(s: InputStateV, n: usize, targets: Seq<Target>)
    requires
        s.drag is None,
    ensures
        s.under == Seq::<usize>::empty() ==> spec_input_step(s, InputEvent::MouseMove, seq![n], targets).1
            == seq![InputAction::Mark(n, ElementFlag::Hover, true), InputAction::Call(n, EventName::MouseEnter), InputAction::Call(n, EventName::MouseMove)],
        s.under == seq![n] ==> spec_input_step(s, InputEvent::MouseMove, seq![n], targets).1
            == seq![InputAction::Call(n, EventName::MouseMove)],
        s.under == seq![n] ==> spec_input_step(s, InputEvent::MouseMove, Seq::empty(), targets).1
            == seq![InputAction::Mark(n, ElementFlag::Hover, false), InputAction::Call(n, EventName::MouseLeave)],
        spec_input_step(s, InputEvent::MouseMove, seq![n], targets).0
            == (InputStateV { under: seq![n], in_action: s.in_action, drag: s.drag, focus: s.focus }),
{
    reveal_with_fuel(leave_actions, 2);
    reveal_with_fuel(enter_actions, 2);
    assert(Seq::<usize>::empty().contains(n) == false);
    assert(seq![n].contains(n)) by {
        assert(seq![n][0] == n);
    }
    assert(seq![InputAction::Mark(n, ElementFlag::Hover, true), InputAction::Call(n, EventName::MouseEnter)]
        + Seq::<InputAction>::empty() + seq![InputAction::Call(n, EventName::MouseMove)] + Seq::<InputAction>::empty()
        + Seq::<InputAction>::empty() =~= seq![InputAction::Mark(n, ElementFlag::Hover, true), InputAction::Call(n, EventName::MouseEnter), InputAction::Call(n, EventName::MouseMove)]);
    assert(Seq::<InputAction>::empty() + Seq::<InputAction>::empty() + seq![InputAction::Call(n, EventName::MouseMove)]
        + Seq::<InputAction>::empty() + Seq::<InputAction>::empty() =~= seq![InputAction::Call(n, EventName::MouseMove)]);
    assert(seq![InputAction::Mark(n, ElementFlag::Hover, false), InputAction::Call(n, EventName::MouseLeave)]
        + Seq::<InputAction>::empty() + Seq::<InputAction>::empty() + Seq::<InputAction>::empty()
        =~= seq![InputAction::Mark(n, ElementFlag::Hover, false), InputAction::Call(n, EventName::MouseLeave)]);
}

/// Pressing and releasing the left button on one element under the mouse, that takes no
/// text input and cannot be dragged, with nothing in action, dragged or focused: the
/// press makes it active and calls its `mousedown`; the release calls its `mouseup` and
/// then `click`, and makes it inactive again.
pub proof fn law_left_click(s: InputStateV, n: usize, targets: Seq<Target>)
    requires
        s.under == seq![n],
        s.in_action == Seq::<usize>::empty(),
        s.drag is None,
        s.focus is None,
        n < targets.len(),
        !targets[n as int].focusable,
        !targets[n as int].draggable,
    ensures
        ({
            let down = spec_input_step(s, InputEvent::MouseButtonDown(MouseButtons::Left), s.under, targets);
            let up = spec_input_step(down.0, InputEvent::MouseButtonUp(MouseButtons::Left), s.under, targets);
            &&& down.1 == seq![InputAction::Mark(n, ElementFlag::Active, true), InputAction::Call(n, EventName::MouseDown)]
            &&& down.0.in_action == seq![n]
            &&& up.1 == seq![InputAction::Call(n, EventName::MouseUp), InputAction::Call(n, EventName::Click), InputAction::Mark(n, ElementFlag::Active, false)]
            &&& up.0.in_action == Seq::<usize>::empty()
        }),
{
    reveal_with_fuel(down_loop, 2);
    reveal_with_fuel(up_loop, 2);
    let down = spec_input_step(s, InputEvent::MouseButtonDown(MouseButtons::Left), s.under, targets);
    assert(Seq::<usize>::empty().push(n) =~= seq![n]);
    assert(seq![n].contains(n)) by {
        assert(seq![n][0] == n);
    }
    assert(Seq::<InputAction>::empty() + (seq![InputAction::Mark(n, ElementFlag::Active, true)] + Seq::<InputAction>::empty()
        + seq![InputAction::Call(n, EventName::MouseDown)] + Seq::<InputAction>::empty()) + Seq::<InputAction>::empty()
        =~= seq![InputAction::Mark(n, ElementFlag::Active, true), InputAction::Call(n, EventName::MouseDown)]);
    assert(down.0.in_action == seq![n]);
    assert(deactivated(seq![n]) =~= seq![InputAction::Mark(n, ElementFlag::Active, false)]);
    assert(seq![InputAction::Call(n, EventName::MouseUp)] + seq![InputAction::Call(n, EventName::Click)] + Seq::<InputAction>::empty()
        + Seq::<InputAction>::empty() + seq![InputAction::Mark(n, ElementFlag::Active, false)]
        =~= seq![InputAction::Call(n, EventName::MouseUp), InputAction::Call(n, EventName::Click), InputAction::Mark(n, ElementFlag::Active, false)]);
}


/// Pressing a button on one element under the mouse that takes text input, with nothing
/// focused, in action or dragged: it becomes active, takes the focus (its `focus` is
/// called), and gets `mousedown`; the focus is now on it.
pub proof fn law_press_focuses_text_input(s: InputStateV, n: usize, button: MouseButtons, targets: Seq<Target>)
    requires
        s.under == seq![n],
        s.in_action == Seq::<usize>::empty(),
        s.drag is None,
        s.focus is None,
        n < targets.len(),
        targets[n as int].focusable,
        !targets[n as int].draggable,
    ensures
        ({
            let down = spec_input_step(s, InputEvent::MouseButtonDown(button), s.under, targets);
            &&& down.1 == seq![InputAction::Mark(n, ElementFlag::Active, true), InputAction::Mark(n, ElementFlag::Focus, true), InputAction::Call(n, EventName::Focus), InputAction::Call(n, EventName::MouseDown)]
            &&& down.0.focus == Some(n)
            &&& down.0.in_action == seq![n]
        }),
{
    reveal_with_fuel(down_loop, 2);
    assert(Seq::<usize>::empty().push(n) =~= seq![n]);
    assert(Seq::<InputAction>::empty() + (seq![InputAction::Mark(n, ElementFlag::Active, true)]
        + (Seq::<InputAction>::empty() + seq![InputAction::Mark(n, ElementFlag::Focus, true), InputAction::Call(n, EventName::Focus)])
        + seq![InputAction::Call(n, EventName::MouseDown)] + Seq::<InputAction>::empty()) + Seq::<InputAction>::empty()
        =~= seq![InputAction::Mark(n, ElementFlag::Active, true), InputAction::Mark(n, ElementFlag::Focus, true), InputAction::Call(n, EventName::Focus), InputAction::Call(n, EventName::MouseDown)]);
}

/// Releasing the right button over the one element under the mouse, with nothing dragged
/// and the element in action: it gets `mouseup` and `contextmenu` (no `click`), and is
/// no longer active.
pub proof fn law_right_release_opens_context_menu(s: InputStateV, n: usize, targets: Seq<Target>)
    requires
        s.under == seq![n],
        s.in_action == seq![n],
        s.drag is None,
        n < targets.len(),
    ensures
        ({
            let up = spec_input_step(s, InputEvent::MouseButtonUp(MouseButtons::Right), s.under, targets);
            &&& up.1 == seq![InputAction::Call(n, EventName::MouseUp), InputAction::Call(n, EventName::ContextMenu), InputAction::Mark(n, ElementFlag::Active, false)]
            &&& up.0.in_action == Seq::<usize>::empty()
        }),
{
    reveal_with_fuel(up_loop, 2);
    assert(deactivated(seq![n]) =~= seq![InputAction::Mark(n, ElementFlag::Active, false)]);
    assert(seq![InputAction::Call(n, EventName::MouseUp)] + Seq::<InputAction>::empty() + seq![InputAction::Call(n, EventName::ContextMenu)]
        + Seq::<InputAction>::empty() + seq![InputAction::Mark(n, ElementFlag::Active, false)]
        =~= seq![InputAction::Call(n, EventName::MouseUp), InputAction::Call(n, EventName::ContextMenu), InputAction::Mark(n, ElementFlag::Active, false)]);
}


/// Pressing the left button on a draggable element (the one under the mouse, taking no
/// text input, nothing in action, dragged or focused) starts dragging it: `mousedown`
/// then `dragstart`. Releasing over a drop target `m` while `n` is dragged calls `mouseup`
/// and `drop` on `m`, then `dragend` on `n`, and ends the drag.
pub proof fn law_drag_and_drop(s: InputStateV, n: usize, m: usize, button: MouseButtons, targets: Seq<Target>)
    requires
        n < targets.len(),
        m < targets.len(),
        !targets[n as int].focusable,
        targets[n as int].draggable,
        targets[m as int].drop_target,
    ensures
        (s.under == seq![n] && s.in_action == Seq::<usize>::empty() && s.drag is None && s.focus is None) ==> ({
            let down = spec_input_step(s, InputEvent::MouseButtonDown(MouseButtons::Left), s.under, targets);
            &&& down.1 == seq![InputAction::Mark(n, ElementFlag::Active, true), InputAction::Call(n, EventName::MouseDown), InputAction::Call(n, EventName::DragStart)]
            &&& down.0.drag == Some(n)
        }),
        (s.under == seq![m] && s.in_action == Seq::<usize>::empty() && s.drag == Some(n)) ==> ({
            let up = spec_input_step(s, InputEvent::MouseButtonUp(button), s.under, targets);
            &&& up.1 == seq![InputAction::Call(m, EventName::MouseUp), InputAction::Call(m, EventName::Drop), InputAction::Call(n, EventName::DragEnd)]
            &&& up.0.drag is None
        }),
{
    reveal_with_fuel(down_loop, 2);
    reveal_with_fuel(up_loop, 2);
    assert(Seq::<usize>::empty().push(n) =~= seq![n]);
    assert(Seq::<InputAction>::empty() + (seq![InputAction::Mark(n, ElementFlag::Active, true)] + Seq::<InputAction>::empty()
        + seq![InputAction::Call(n, EventName::MouseDown)] + seq![InputAction::Call(n, EventName::DragStart)]) + Seq::<InputAction>::empty()
        =~= seq![InputAction::Mark(n, ElementFlag::Active, true), InputAction::Call(n, EventName::MouseDown), InputAction::Call(n, EventName::DragStart)]);
    assert(deactivated(Seq::<usize>::empty()) =~= Seq::<InputAction>::empty());
    assert(seq![InputAction::Call(m, EventName::MouseUp)] + seq![InputAction::Call(m, EventName::Drop), InputAction::Call(n, EventName::DragEnd)]
        + Seq::<InputAction>::empty() + Seq::<InputAction>::empty()
        =~= seq![InputAction::Call(m, EventName::MouseUp), InputAction::Call(m, EventName::Drop), InputAction::Call(n, EventName::DragEnd)]);
}

} // verus!
