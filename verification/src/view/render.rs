//! Rendering a template into the binding table of a view: which node each element and
//! text gets, which bound path reaches which node in which way, and the schema places
//! that the bound paths need. Laying out and drawing the nodes is left to the caller.
use vstd::prelude::*;
use crate::html::{
    escaped, first_repeat, first_visibility, json_pointer, local_value, locals_view, pointer_tokens, BinderV,
    CallbackArgumentV, ElementBindingV, HtmlV, TextSpanV,
};
use crate::view::binding::{BindingParamsV, BindingV};
use crate::lexer::views;
use crate::html::{clone_strings, html_view, Binder, CallbackArgument, ElementBinding, Html, TextSpan};
use crate::view::binding::{Binding, BindingParams};
use crate::view::model::{child_path, decimal_text, JsonV};
use crate::view::schema::Schema;
use crate::view::schema::{indexes_fit, with_place};
use crate::text::{push_all, str_eq};

verus! {

/// The local names as a map: each name to the value of its first pair.
pub open spec fn locals_map(l: Seq<(Seq<char>, Seq<char>)>) -> Map<Seq<char>, Seq<char>> {
    Map::new(|k: Seq<char>| local_value(l, k, 0) is Some, |k: Seq<char>| local_value(l, k, 0).unwrap())
}

/// The JSON pointer of a binder's path with the local names as a map, see
/// [`json_pointer`].
pub open spec fn pointer_in(path: Seq<Seq<char>>, m: Map<Seq<char>, Seq<char>>) -> Seq<char> {
    let head = if m.contains_key(path[0]) { m[path[0]] } else { seq!['/'] + escaped(path[0]) };
    head + pointer_tokens(path.subrange(1, path.len() as int))
}

pub proof fn lemma_pointer_in(path: Seq<Seq<char>>, l: Seq<(Seq<char>, Seq<char>)>)
    ensures
        json_pointer(path, l) == pointer_in(path, locals_map(l)),
{
}

proof fn lemma_local_first(l: Seq<(Seq<char>, Seq<char>)>, x: Seq<char>, k: int)
    requires
        0 <= k,
    ensures
        match local_value(l, x, k) {
            Some(v) => exists|i: int| k <= i < l.len() && l[i] == (x, v) && forall|j: int| k <= j < i ==> #[trigger] l[j].0 != x,
            None => forall|j: int| k <= j < l.len() ==> #[trigger] l[j].0 != x,
        },
    decreases l.len() - k,
{
    if k < l.len() && l[k].0 != x {
        lemma_local_first(l, x, k + 1);
        match local_value(l, x, k + 1) {
            Some(v) => {
                let i = choose|i: int| k + 1 <= i < l.len() && l[i] == (x, v) && forall|j: int| k + 1 <= j < i ==> #[trigger] l[j].0 != x;
                assert forall|j: int| k <= j < i implies #[trigger] l[j].0 != x by {}
            },
            None => {},
        }
    } else if k < l.len() {
        assert(l[k] == (x, l[k].1));
    }
}

proof fn lemma_local_at(l: Seq<(Seq<char>, Seq<char>)>, x: Seq<char>, k: int, i: int)
    requires
        0 <= k <= i < l.len(),
        l[i].0 == x,
        forall|j: int| k <= j < i ==> #[trigger] l[j].0 != x,
    ensures
        local_value(l, x, k) == Some(l[i].1),
    decreases i - k,
{
    if k < i {
        lemma_local_at(l, x, k + 1, i);
    }
}

proof fn lemma_local_none(l: Seq<(Seq<char>, Seq<char>)>, x: Seq<char>, k: int)
    requires
        0 <= k,
        forall|j: int| k <= j < l.len() ==> #[trigger] l[j].0 != x,
    ensures
        local_value(l, x, k) is None,
    decreases l.len() - k,
{
    if k < l.len() {
        lemma_local_none(l, x, k + 1);
    }
}

/// The first position of a name among the local names.
fn find_local(locals: &Vec<(String, String)>, name: &str) -> (r: Option<usize>)
    ensures
        match r {
            Some(p) => p < locals@.len() && locals@[p as int].0@ == name@ && forall|j: int| 0 <= j < p ==> (#[trigger] locals@[j]).0@ != name@,
            None => forall|j: int| 0 <= j < locals@.len() ==> (#[trigger] locals@[j]).0@ != name@,
        },
{
    let mut k: usize = 0;
    while k < locals.len()
        invariant
            k <= locals@.len(),
            forall|j: int| 0 <= j < k ==> (#[trigger] locals@[j]).0@ != name@,
        decreases locals@.len() - k,
    {
        if str_eq(locals[k].0.as_str(), name) {
            return Some(k);
        }
        k = k + 1;
    }
    None
}

/// Binds `name` to `value` among the local names (`HashMap::insert`).
fn set_local(locals: &mut Vec<(String, String)>, name: &str, value: String)
    ensures
        locals_map(locals_view(final(locals)@)) == locals_map(locals_view(old(locals)@)).insert(name@, value@),
{
    let ghost before = locals_view(locals@);
    let mut key = String::new();
    push_all(&mut key, name);
    let ghost v = value@;
    match find_local(locals, name) {
        Some(p) => {
            locals.set(p, (key, value));
            proof {
                let after = locals_view(locals@);
                assert(after =~= before.update(p as int, (name@, v)));
                assert forall|x: Seq<char>| #[trigger] local_value(after, x, 0) == (if x == name@ { Some(v) } else { local_value(before, x, 0) }) by {
                    if x == name@ {
                        assert forall|j: int| 0 <= j < p implies #[trigger] after[j].0 != x by {
                            assert(after[j] == before[j]);
                        }
                        lemma_local_at(after, x, 0, p as int);
                    } else {
                        lemma_local_first(before, x, 0);
                        match local_value(before, x, 0) {
                            Some(w) => {
                                let i = choose|i: int| 0 <= i < before.len() && before[i] == (x, w) && forall|j: int| 0 <= j < i ==> #[trigger] before[j].0 != x;
                                assert forall|j: int| 0 <= j < i implies #[trigger] after[j].0 != x by {
                                    if j != p {
                                        assert(after[j] == before[j]);
                                    }
                                }
                                assert(after[i] == before[i]);
                                lemma_local_at(after, x, 0, i);
                            },
                            None => {
                                assert forall|j: int| 0 <= j < after.len() implies #[trigger] after[j].0 != x by {
                                    if j != p {
                                        assert(after[j] == before[j]);
                                    }
                                }
                                lemma_local_none(after, x, 0);
                            },
                        }
                    }
                }
                assert(locals_map(after) =~= locals_map(before).insert(name@, v));
            }
        },
        None => {
            locals.push((key, value));
            proof {
                let after = locals_view(locals@);
                assert(after =~= before.push((name@, v)));
                assert forall|x: Seq<char>| #[trigger] local_value(after, x, 0) == (if x == name@ { Some(v) } else { local_value(before, x, 0) }) by {
                    if x == name@ {
                        assert forall|j: int| 0 <= j < before.len() implies #[trigger] after[j].0 != x by {
                            assert(after[j] == before[j]); assert(before[j].0 == old(locals)@[j].0@);
                        }
                        lemma_local_at(after, x, 0, before.len() as int);
                    } else {
                        lemma_local_first(before, x, 0);
                        match local_value(before, x, 0) {
                            Some(w) => {
                                let i = choose|i: int| 0 <= i < before.len() && before[i] == (x, w) && forall|j: int| 0 <= j < i ==> #[trigger] before[j].0 != x;
                                assert forall|j: int| 0 <= j < i implies #[trigger] after[j].0 != x by {
                                    assert(after[j] == before[j]);
                                }
                                lemma_local_at(after, x, 0, i);
                            },
                            None => {
                                assert forall|j: int| 0 <= j < after.len() implies #[trigger] after[j].0 != x by {
                                    if j < before.len() {
                                        assert(after[j] == before[j]);
                                    }
                                }
                                lemma_local_none(after, x, 0);
                            },
                        }
                    }
                }
                assert(locals_map(after) =~= locals_map(before).insert(name@, v));
            }
        },
    }
}

/// Takes `name` out of the local names (`HashMap::remove`).
fn remove_local(locals: &mut Vec<(String, String)>, name: &str)
    ensures
        locals_map(locals_view(final(locals)@)) == locals_map(locals_view(old(locals)@)).remove(name@),
{
    let ghost before = locals_view(locals@);
    let mut kept: Vec<(String, String)> = Vec::new();
    let mut k: usize = 0;
    // kept holds the pairs of locals[..k] whose name is not `name`, in order
    let ghost mut origin: Seq<int> = Seq::empty();
    while k < locals.len()
        invariant
            before == locals_view(locals@),
            k <= locals@.len(),
            origin.len() == kept@.len(),
            forall|i: int| 0 <= i < origin.len() ==> 0 <= #[trigger] origin[i] < k && locals_view(kept@)[i] == before[origin[i]] && before[origin[i]].0 != name@,
            forall|i: int, j: int| 0 <= i < j < origin.len() ==> #[trigger] origin[i] < #[trigger] origin[j],
            forall|j: int| 0 <= j < k && before[j].0 != name@ ==> exists|i: int| 0 <= i < origin.len() && #[trigger] origin[i] == j,
        decreases locals@.len() - k,
    {
        if !str_eq(locals[k].0.as_str(), name) {
            let pair = (locals[k].0.clone(), locals[k].1.clone());
            kept.push(pair);
            proof {
                let old_origin = origin;
                origin = origin.push(k as int);
                assert forall|j: int| 0 <= j < k + 1 && before[j].0 != name@ implies exists|i: int| 0 <= i < origin.len() && #[trigger] origin[i] == j by {
                    if j == k {
                        assert(origin[old_origin.len() as int] == j);
                    } else {
                        let i = choose|i: int| 0 <= i < old_origin.len() && #[trigger] old_origin[i] == j;
                        assert(origin[i] == j);
                    }
                }
            }
        }
        k = k + 1;
    }
    let ghost after = locals_view(kept@);
    proof {
        assert forall|x: Seq<char>| #[trigger] local_value(after, x, 0) == (if x == name@ { None } else { local_value(before, x, 0) }) by {
            if x == name@ {
                assert forall|j: int| 0 <= j < after.len() implies #[trigger] after[j].0 != x by {
                    assert(after[j] == before[origin[j]]);
                }
                lemma_local_none(after, x, 0);
            } else {
                lemma_local_first(before, x, 0);
                match local_value(before, x, 0) {
                    Some(w) => {
                        let i = choose|i: int| 0 <= i < before.len() && before[i] == (x, w) && forall|j: int| 0 <= j < i ==> #[trigger] before[j].0 != x;
                        let q = choose|q: int| 0 <= q < origin.len() && #[trigger] origin[q] == i;
                        assert forall|j: int| 0 <= j < q implies #[trigger] after[j].0 != x by {
                            if 0 <= j < q {
                                assert(origin[j] < origin[q]);
                                assert(after[j] == before[origin[j]]);
                            }
                        }
                        assert(after[q] == before[i]);
                        lemma_local_at(after, x, 0, q);
                    },
                    None => {
                        assert forall|j: int| 0 <= j < after.len() implies #[trigger] after[j].0 != x by {
                            assert(after[j] == before[origin[j]]);
                        }
                        lemma_local_none(after, x, 0);
                    },
                }
            }
        }
        assert(locals_map(after) =~= locals_map(before).remove(name@));
    }
    *locals = kept;
}

/// The state that rendering threads through: the schema value, the local names, the
/// binding table (each bound path with its binding, in the order they were made), and
/// the number of the next node.
pub struct RenderState {
    pub schema: JsonV,
    pub locals: Map<Seq<char>, Seq<char>>,
    pub table: Seq<(Seq<char>, BindingV)>,
    pub next: nat,
}

/// A place made in the schema for the value that a binder names: the state after it and
/// the pointer; `None` where the binder has no path or the pointer writes the largest
/// index.
pub open spec fn place(s: RenderState, b: BinderV) -> Option<(RenderState, Seq<char>)> {
    if b.path.len() == 0 {
        None
    } else {
        let p = pointer_in(b.path, s.locals);
        if indexes_fit(p) {
            Some((RenderState { schema: with_place(s.schema, p), locals: s.locals, table: s.table, next: s.next }, p))
        } else {
            None
        }
    }
}

/// A place made in the schema for item `n` of the array that a binder names.
pub open spec fn index_place(s: RenderState, b: BinderV, n: nat) -> Option<(RenderState, Seq<char>)> {
    if b.path.len() == 0 {
        None
    } else {
        let p = child_path(pointer_in(b.path, s.locals), decimal_text(n));
        if indexes_fit(p) {
            Some((RenderState { schema: with_place(s.schema, p), locals: s.locals, table: s.table, next: s.next }, p))
        } else {
            None
        }
    }
}

/// A new node: the next number; `None` where no number is left.
pub open spec fn new_node(s: RenderState) -> Option<(RenderState, usize)> {
    if s.next < usize::MAX {
        Some((RenderState { schema: s.schema, locals: s.locals, table: s.table, next: s.next + 1 }, s.next as usize))
    } else {
        None
    }
}

/// A binding appended to the table under `path`.
pub open spec fn bind(s: RenderState, path: Seq<char>, params: BindingParamsV, pipe: Seq<Seq<char>>) -> RenderState {
    RenderState { schema: s.schema, locals: s.locals, table: s.table.push((path, BindingV { params, pipe })), next: s.next }
}

pub open spec fn with_locals(s: RenderState, locals: Map<Seq<char>, Seq<char>>) -> RenderState {
    RenderState { schema: s.schema, locals, table: s.table, next: s.next }
}

/// The spans of a text node from the one at index `i` on: each binder gets a place and a
/// text binding of its span.
pub open spec fn text_spans(node: usize, spans: Seq<TextSpanV>, i: nat, s: RenderState) -> Option<RenderState>
    decreases spans.len(),
{
    if spans.len() == 0 {
        Some(s)
    } else {
        let rest = spans.subrange(1, spans.len() as int);
        match spans[0] {
            TextSpanV::Str(_) => text_spans(node, rest, i + 1, s),
            TextSpanV::Binder(b) => match place(s, b) {
                Some((s1, p)) => text_spans(node, rest, i + 1, bind(s1, p, BindingParamsV::Text(node, i as usize), b.pipe)),
                None => None,
            },
        }
    }
}

/// The spans of an attribute from the one at index `i` on: each binder gets a place and an
/// attribute binding of its span.
pub open spec fn attribute_spans(node: usize, key: Seq<char>, spans: Seq<TextSpanV>, i: nat, s: RenderState) -> Option<RenderState>
    decreases spans.len(),
{
    if spans.len() == 0 {
        Some(s)
    } else {
        let rest = spans.subrange(1, spans.len() as int);
        match spans[0] {
            TextSpanV::Str(_) => attribute_spans(node, key, rest, i + 1, s),
            TextSpanV::Binder(b) => match place(s, b) {
                Some((s1, p)) => attribute_spans(node, key, rest, i + 1, bind(s1, p, BindingParamsV::Attribute(node, key, i as usize), b.pipe)),
                None => None,
            },
        }
    }
}

/// The arguments of a handler: each binder gets a place.
pub open spec fn arguments_placed(args: Seq<CallbackArgumentV>, s: RenderState) -> Option<RenderState>
    decreases args.len(),
{
    if args.len() == 0 {
        Some(s)
    } else {
        let rest = args.subrange(1, args.len() as int);
        match args[0] {
            CallbackArgumentV::Binder(b) => match place(s, b) {
                Some((s1, _)) => arguments_placed(rest, s1),
                None => None,
            },
            _ => arguments_placed(rest, s),
        }
    }
}

/// Whether an attribute is one plain span, which needs no binding.
pub open spec fn simple_text(spans: Seq<TextSpanV>) -> bool {
    spans.len() == 1 && spans[0] is Str
}

/// The bindings of an element in order: a tag binding, the bound spans of an attribute
/// (unless it is one plain span) and the binders of a handler's arguments get places;
/// tag and attribute bindings enter the table.
pub open spec fn element_bindings(node: usize, bs: Seq<ElementBindingV>, s: RenderState) -> Option<RenderState>
    decreases bs.len(),
{
    if bs.len() == 0 {
        Some(s)
    } else {
        let rest = bs.subrange(1, bs.len() as int);
        match bs[0] {
            ElementBindingV::Tag(key, b) => match place(s, b) {
                Some((s1, p)) => element_bindings(node, rest, bind(s1, p, BindingParamsV::Tag(node, key), b.pipe)),
                None => None,
            },
            ElementBindingV::Attribute(key, spans) => if simple_text(spans) {
                element_bindings(node, rest, s)
            } else {
                match attribute_spans(node, key, spans, 0, s) {
                    Some(s1) => element_bindings(node, rest, s1),
                    None => None,
                }
            },
            ElementBindingV::Callback(_, args) => match arguments_placed(args, s) {
                Some(s1) => element_bindings(node, rest, s1),
                None => None,
            },
            _ => element_bindings(node, rest, s),
        }
    }
}

/// The aliases of an element in order: each gets a place, and its name is bound to the
/// pointer among the local names; each name and the value it had before are recorded.
pub open spec fn aliases(bs: Seq<ElementBindingV>, s: RenderState, overridden: Seq<(Seq<char>, Option<Seq<char>>)>) -> Option<(RenderState, Seq<(Seq<char>, Option<Seq<char>>)>)>
    decreases bs.len(),
{
    if bs.len() == 0 {
        Some((s, overridden))
    } else {
        let rest = bs.subrange(1, bs.len() as int);
        match bs[0] {
            ElementBindingV::Alias(name, b) => match place(s, b) {
                Some((s1, p)) => {
                    let prior = if s1.locals.contains_key(name) { Some(s1.locals[name]) } else { None };
                    aliases(rest, with_locals(s1, s1.locals.insert(name, p)), overridden.push((name, prior)))
                },
                None => None,
            },
            _ => aliases(rest, s, overridden),
        }
    }
}

/// A name given back the value it had: bound again, or taken out where it had none.
pub open spec fn give_back(locals: Map<Seq<char>, Seq<char>>, name: Seq<char>, prior: Option<Seq<char>>) -> Map<Seq<char>, Seq<char>> {
    match prior {
        Some(v) => locals.insert(name, v),
        None => locals.remove(name),
    }
}

/// The recorded names given back their values in order; for a name recorded twice the
/// later record decides.
pub open spec fn restored(locals: Map<Seq<char>, Seq<char>>, overridden: Seq<(Seq<char>, Option<Seq<char>>)>) -> Map<Seq<char>, Seq<char>>
    decreases overridden.len(),
{
    if overridden.len() == 0 {
        locals
    } else {
        restored(give_back(locals, overridden[0].0, overridden[0].1), overridden.subrange(1, overridden.len() as int))
    }
}

pub open spec fn img_tag() -> Seq<char> {
    seq!['i', 'm', 'g']
}

pub open spec fn input_tag() -> Seq<char> {
    seq!['i', 'n', 'p', 'u', 't']
}

/// The void elements besides `img` and `input`, which get no children.
pub open spec fn other_void_tag(t: Seq<char>) -> bool {
    ||| t == seq!['a', 'r', 'e', 'a']
    ||| t == seq!['b', 'a', 's', 'e']
    ||| t == seq!['b', 'r']
    ||| t == seq!['c', 'o', 'l']
    ||| t == seq!['c', 'o', 'm', 'm', 'a', 'n', 'd']
    ||| t == seq!['e', 'm', 'b', 'e', 'd']
    ||| t == seq!['h', 'r']
    ||| t == seq!['k', 'e', 'y', 'g', 'e', 'n']
    ||| t == seq!['l', 'i', 'n', 'k']
    ||| t == seq!['m', 'e', 't', 'a']
    ||| t == seq!['p', 'a', 'r', 'a', 'm']
    ||| t == seq!['s', 'o', 'u', 'r', 'c', 'e']
    ||| t == seq!['t', 'r', 'a', 'c', 'k']
    ||| t == seq!['w', 'b', 'r']
}

/// A template rendered: a text gets a node and its span bindings; an element first binds
/// the names of its aliases, is rendered (see [`element_rendered`]), and then gives the
/// names back. The result is the state after it, the node, and the node's children.
pub open spec fn node_rendered(h: HtmlV, s: RenderState) -> Option<(RenderState, usize, Seq<usize>)>
    decreases h, 2int,
{
    match h.text {
        Some(spans) => match new_node(s) {
            Some((s1, node)) => match text_spans(node, spans, 0, s1) {
                Some(s2) => Some((s2, node, Seq::empty())),
                None => None,
            },
            None => None,
        },
        None => match aliases(h.bindings, s, Seq::empty()) {
            Some((s1, overridden)) => match element_rendered(h, s1) {
                Some((s2, node, children)) => Some((with_locals(s2, restored(s2.locals, overridden)), node, children)),
                None => None,
            },
            None => None,
        },
    }
}

/// An element rendered: it gets a node, then its bindings (see [`element_bindings`]);
/// `img` gets a background node as its child and `input` a value and a caret node; the
/// other void elements get no children; any other element renders its children (see
/// [`children_rendered`]).
pub open spec fn element_rendered(h: HtmlV, s: RenderState) -> Option<(RenderState, usize, Seq<usize>)>
    decreases h, 1int,
{
    match new_node(s) {
        Some((s1, node)) => match element_bindings(node, h.bindings, s1) {
            Some(s2) => if h.tag == img_tag() {
                match new_node(s2) {
                    Some((s3, c)) => Some((s3, node, seq![c])),
                    None => None,
                }
            } else if h.tag == input_tag() {
                match new_node(s2) {
                    Some((s3, c1)) => match new_node(s3) {
                        Some((s4, c2)) => Some((s4, node, seq![c1, c2])),
                        None => None,
                    },
                    None => None,
                }
            } else if other_void_tag(h.tag) {
                Some((s2, node, Seq::empty()))
            } else {
                match children_rendered(node, h.children, Seq::empty(), s2) {
                    Some((s3, children)) => Some((s3, node, children)),
                    None => None,
                }
            },
            None => None,
        },
        None => None,
    }
}

/// The children of the element `node`, after the children `done`:
/// - a child with a visibility binding gets a place for it, is rendered, and the table
///   gets the binding of its visibility under the parent;
/// - a child with a repeat binding gets a place for the array and the table gets the
///   repeat binding (starting at the number of children so far); the repeat name is
///   taken out of the local names, the child is rendered once for each item (see
///   [`repeat_rendered`]), and the name is given back;
/// - any other child is rendered.
pub open spec fn children_rendered(node: usize, cs: Seq<HtmlV>, done: Seq<usize>, s: RenderState) -> Option<(RenderState, Seq<usize>)>
    decreases cs, 0int,
{
    if cs.len() == 0 {
        Some((s, done))
    } else {
        let child = cs[0];
        let rest = cs.subrange(1, cs.len() as int);
        match first_visibility(child.bindings) {
            Some((visible, b)) => match place(s, b) {
                Some((s1, p)) => match node_rendered(child, s1) {
                    Some((s2, cid, _)) => children_rendered(
                        node,
                        rest,
                        done.push(cid),
                        bind(s2, p, BindingParamsV::Visibility(node, cid, visible), b.pipe),
                    ),
                    None => None,
                },
                None => None,
            },
            None => match first_repeat(child.bindings) {
                Some((name, count, b)) => match place(s, b) {
                    Some((s1, arr)) => {
                        let s2 = bind(s1, arr, BindingParamsV::Repeat(node, done.len() as usize, count), b.pipe);
                        let prior = if s2.locals.contains_key(name) { Some(s2.locals[name]) } else { None };
                        match repeat_rendered(child, name, count as nat, b, 0, done, with_locals(s2, s2.locals.remove(name))) {
                            Some((s3, done2)) => children_rendered(node, rest, done2, with_locals(s3, give_back(s3.locals, name, prior))),
                            None => None,
                        }
                    },
                    None => None,
                },
                None => match node_rendered(child, s) {
                    Some((s1, cid, _)) => children_rendered(node, rest, done.push(cid), s1),
                    None => None,
                },
            },
        }
    }
}

/// A repeated child rendered for the items from `k` on: each item gets a place, the repeat
/// name is bound to its pointer, and the child is rendered.
pub open spec fn repeat_rendered(child: HtmlV, name: Seq<char>, count: nat, b: BinderV, k: nat, done: Seq<usize>, s: RenderState) -> Option<(RenderState, Seq<usize>)>
    decreases child, count - k + 3,
{
    if k >= count {
        Some((s, done))
    } else {
        match index_place(s, b, k) {
            Some((s1, p)) => match node_rendered(child, with_locals(s1, s1.locals.insert(name, p))) {
                Some((s2, cid, _)) => repeat_rendered(child, name, count, b, k + 1, done.push(cid), s2),
                None => None,
            },
            None => None,
        }
    }
}

/// The names of the aliases among bindings, in order.
pub open spec fn alias_names(bs: Seq<ElementBindingV>) -> Seq<Seq<char>>
    decreases bs.len(),
{
    if bs.len() == 0 {
        Seq::empty()
    } else {
        let rest = alias_names(bs.subrange(1, bs.len() as int));
        match bs[0] {
            ElementBindingV::Alias(n, _) => seq![n] + rest,
            _ => rest,
        }
    }
}

/// No element of a template has two aliases of one name.
pub open spec fn aliases_distinct(h: HtmlV) -> bool
    decreases h, 0int,
{
    alias_names(h.bindings).no_duplicates() && children_aliases_distinct(h.children)
}

pub open spec fn children_aliases_distinct(cs: Seq<HtmlV>) -> bool
    decreases cs, 1int,
{
    cs.len() == 0 || (aliases_distinct(cs[0]) && children_aliases_distinct(cs.subrange(1, cs.len() as int)))
}

proof fn lemma_text_spans_locals(node: usize, spans: Seq<TextSpanV>, i: nat, s: RenderState)
    requires
        text_spans(node, spans, i, s) is Some,
    ensures
        text_spans(node, spans, i, s).unwrap().locals == s.locals,
    decreases spans.len(),
{
    if spans.len() > 0 {
        let rest = spans.subrange(1, spans.len() as int);
        match spans[0] {
            TextSpanV::Str(_) => lemma_text_spans_locals(node, rest, i + 1, s),
            TextSpanV::Binder(b) => {
                let (s1, p) = place(s, b).unwrap();
                lemma_text_spans_locals(node, rest, i + 1, bind(s1, p, BindingParamsV::Text(node, i as usize), b.pipe));
            },
        }
    }
}

proof fn lemma_attribute_spans_locals(node: usize, key: Seq<char>, spans: Seq<TextSpanV>, i: nat, s: RenderState)
    requires
        attribute_spans(node, key, spans, i, s) is Some,
    ensures
        attribute_spans(node, key, spans, i, s).unwrap().locals == s.locals,
    decreases spans.len(),
{
    if spans.len() > 0 {
        let rest = spans.subrange(1, spans.len() as int);
        match spans[0] {
            TextSpanV::Str(_) => lemma_attribute_spans_locals(node, key, rest, i + 1, s),
            TextSpanV::Binder(b) => {
                let (s1, p) = place(s, b).unwrap();
                lemma_attribute_spans_locals(node, key, rest, i + 1, bind(s1, p, BindingParamsV::Attribute(node, key, i as usize), b.pipe));
            },
        }
    }
}

proof fn lemma_arguments_locals(args: Seq<CallbackArgumentV>, s: RenderState)
    requires
        arguments_placed(args, s) is Some,
    ensures
        arguments_placed(args, s).unwrap().locals == s.locals,
    decreases args.len(),
{
    if args.len() > 0 {
        let rest = args.subrange(1, args.len() as int);
        match args[0] {
            CallbackArgumentV::Binder(b) => lemma_arguments_locals(rest, place(s, b).unwrap().0),
            _ => lemma_arguments_locals(rest, s),
        }
    }
}

proof fn lemma_element_bindings_locals(node: usize, bs: Seq<ElementBindingV>, s: RenderState)
    requires
        element_bindings(node, bs, s) is Some,
    ensures
        element_bindings(node, bs, s).unwrap().locals == s.locals,
    decreases bs.len(),
{
    if bs.len() > 0 {
        let rest = bs.subrange(1, bs.len() as int);
        match bs[0] {
            ElementBindingV::Tag(key, b) => {
                let (s1, p) = place(s, b).unwrap();
                lemma_element_bindings_locals(node, rest, bind(s1, p, BindingParamsV::Tag(node, key), b.pipe));
            },
            ElementBindingV::Attribute(key, spans) => if simple_text(spans) {
                lemma_element_bindings_locals(node, rest, s);
            } else {
                lemma_attribute_spans_locals(node, key, spans, 0, s);
                lemma_element_bindings_locals(node, rest, attribute_spans(node, key, spans, 0, s).unwrap());
            },
            ElementBindingV::Callback(_, args) => {
                lemma_arguments_locals(args, s);
                lemma_element_bindings_locals(node, rest, arguments_placed(args, s).unwrap());
            },
            _ => lemma_element_bindings_locals(node, rest, s),
        }
    }
}

proof fn lemma_restored_push(m: Map<Seq<char>, Seq<char>>, ov: Seq<(Seq<char>, Option<Seq<char>>)>, e: (Seq<char>, Option<Seq<char>>))
    ensures
        restored(m, ov.push(e)) == give_back(restored(m, ov), e.0, e.1),
    decreases ov.len(),
{
    if ov.len() > 0 {
        assert(ov.push(e)[0] == ov[0]);
        assert(ov.push(e).subrange(1, ov.len() as int + 1) =~= ov.subrange(1, ov.len() as int).push(e));
        lemma_restored_push(give_back(m, ov[0].0, ov[0].1), ov.subrange(1, ov.len() as int), e);
    } else {
        let one = ov.push(e);
        assert(one[0] == e);
        assert(one.subrange(1, 1) =~= Seq::<(Seq<char>, Option<Seq<char>>)>::empty());
        assert(restored(give_back(m, e.0, e.1), one.subrange(1, 1)) == give_back(m, e.0, e.1));
        assert(restored(m, ov) == m);
    }
}

proof fn lemma_restored_other(m: Map<Seq<char>, Seq<char>>, ov: Seq<(Seq<char>, Option<Seq<char>>)>, n: Seq<char>, p: Seq<char>)
    requires
        forall|i: int| 0 <= i < ov.len() ==> #[trigger] ov[i].0 != n,
    ensures
        restored(m.insert(n, p), ov) == restored(m, ov).insert(n, p),
        restored(m, ov).contains_key(n) == m.contains_key(n),
        m.contains_key(n) ==> restored(m, ov)[n] == m[n],
    decreases ov.len(),
{
    if ov.len() > 0 {
        let rest = ov.subrange(1, ov.len() as int);
        assert(ov[0].0 != n);
        assert(give_back(m.insert(n, p), ov[0].0, ov[0].1) =~= give_back(m, ov[0].0, ov[0].1).insert(n, p));
        assert forall|i: int| 0 <= i < rest.len() implies #[trigger] rest[i].0 != n by {
            assert(rest[i] == ov[i + 1]);
        }
        lemma_restored_other(give_back(m, ov[0].0, ov[0].1), rest, n, p);
    } else {
        assert(restored(m.insert(n, p), ov) =~= restored(m, ov).insert(n, p));
    }
}

proof fn lemma_aliases_restore(bs: Seq<ElementBindingV>, s: RenderState, ov: Seq<(Seq<char>, Option<Seq<char>>)>)
    requires
        aliases(bs, s, ov) is Some,
        alias_names(bs).no_duplicates(),
        forall|i: int, j: int| 0 <= i < ov.len() && 0 <= j < alias_names(bs).len() ==> #[trigger] ov[i].0 != #[trigger] alias_names(bs)[j],
    ensures
        ({
            let (s1, ov1) = aliases(bs, s, ov).unwrap();
            restored(s1.locals, ov1) == restored(s.locals, ov)
        }),
    decreases bs.len(),
{
    if bs.len() > 0 {
        let rest = bs.subrange(1, bs.len() as int);
        match bs[0] {
            ElementBindingV::Alias(n, b) => {
                let (s1, p) = place(s, b).unwrap();
                let l = s.locals;
                let prior = if l.contains_key(n) { Some(l[n]) } else { None };
                let ov2 = ov.push((n, prior));
                assert(alias_names(bs) == seq![n] + alias_names(rest));
                assert forall|i: int| 0 <= i < alias_names(rest).len() implies #[trigger] alias_names(rest)[i] != n by {
                    assert(alias_names(bs)[i + 1] == alias_names(rest)[i]);
                    assert(alias_names(bs)[0] == n);
                }
                assert(alias_names(rest).no_duplicates()) by {
                    assert forall|i: int, j: int| 0 <= i < alias_names(rest).len() && 0 <= j < alias_names(rest).len() && i != j implies alias_names(rest)[i] != alias_names(rest)[j] by {
                        assert(alias_names(bs)[i + 1] == alias_names(rest)[i]);
                        assert(alias_names(bs)[j + 1] == alias_names(rest)[j]);
                    }
                }
                assert forall|i: int, j: int| 0 <= i < ov2.len() && 0 <= j < alias_names(rest).len() implies #[trigger] ov2[i].0 != #[trigger] alias_names(rest)[j] by {
                    assert(alias_names(bs)[j + 1] == alias_names(rest)[j]);
                    if i < ov.len() {
                        assert(ov2[i] == ov[i]);
                    }
                }
                lemma_aliases_restore(rest, with_locals(s1, l.insert(n, p)), ov2);
                assert forall|i: int| 0 <= i < ov.len() implies #[trigger] ov[i].0 != n by {
                    assert(alias_names(bs)[0] == n);
                }
                lemma_restored_push(l.insert(n, p), ov, (n, prior));
                lemma_restored_other(l, ov, n, p);
                assert(give_back(restored(l, ov).insert(n, p), n, prior) =~= restored(l, ov));
            },
            _ => {
                assert(alias_names(bs) == alias_names(rest));
                lemma_aliases_restore(rest, s, ov);
            },
        }
    }
}

/// Rendering gives the local names back: where no element has two aliases of one name,
/// the local names after rendering a template are those before it.
pub proof fn law_render_gives_locals_back(h: HtmlV, s: RenderState)
    requires
        aliases_distinct(h),
        node_rendered(h, s) is Some,
    ensures
        node_rendered(h, s).unwrap().0.locals == s.locals,
    decreases h, 2int,
{
    match h.text {
        Some(spans) => {
            let (s1, node) = new_node(s).unwrap();
            lemma_text_spans_locals(node, spans, 0, s1);
        },
        None => {
            let (s1, ov) = aliases(h.bindings, s, Seq::empty()).unwrap();
            lemma_aliases_restore(h.bindings, s, Seq::empty());
            lemma_element_locals(h, s1);
        },
    }
}

proof fn lemma_element_locals(h: HtmlV, s: RenderState)
    requires
        children_aliases_distinct(h.children),
        element_rendered(h, s) is Some,
    ensures
        element_rendered(h, s).unwrap().0.locals == s.locals,
    decreases h, 1int,
{
    let (s1, node) = new_node(s).unwrap();
    lemma_element_bindings_locals(node, h.bindings, s1);
    let s2 = element_bindings(node, h.bindings, s1).unwrap();
    if h.tag != img_tag() && h.tag != input_tag() && !other_void_tag(h.tag) {
        lemma_children_locals(node, h.children, Seq::empty(), s2);
    }
}

proof fn lemma_children_locals(node: usize, cs: Seq<HtmlV>, done: Seq<usize>, s: RenderState)
    requires
        children_aliases_distinct(cs),
        children_rendered(node, cs, done, s) is Some,
    ensures
        children_rendered(node, cs, done, s).unwrap().0.locals == s.locals,
    decreases cs, 0int,
{
    if cs.len() > 0 {
        let child = cs[0];
        let rest = cs.subrange(1, cs.len() as int);
        match first_visibility(child.bindings) {
            Some((visible, b)) => {
                let (s1, p) = place(s, b).unwrap();
                law_render_gives_locals_back(child, s1);
                let (s2, cid, _) = node_rendered(child, s1).unwrap();
                lemma_children_locals(node, rest, done.push(cid), bind(s2, p, BindingParamsV::Visibility(node, cid, visible), b.pipe));
            },
            None => match first_repeat(child.bindings) {
                Some((name, count, b)) => {
                    let (s1, arr) = place(s, b).unwrap();
                    let s2 = bind(s1, arr, BindingParamsV::Repeat(node, done.len() as usize, count), b.pipe);
                    let prior = if s2.locals.contains_key(name) { Some(s2.locals[name]) } else { None };
                    let start = with_locals(s2, s2.locals.remove(name));
                    lemma_repeat_locals(child, name, count as nat, b, 0, done, start);
                    let (s3, done2) = repeat_rendered(child, name, count as nat, b, 0, done, start).unwrap();
                    let r = s3.locals;
                    let l = s.locals;
                    assert(s2.locals == l);
                    assert(l.remove(name).remove(name) =~= l.remove(name));
                    assert(r.remove(name) == l.remove(name));
                    assert forall|k: Seq<char>| k != name implies (r.contains_key(k) == l.contains_key(k) && (r.contains_key(k) ==> r[k] == l[k])) by {
                        assert(r.remove(name).contains_key(k) == r.contains_key(k));
                        assert(l.remove(name).contains_key(k) == l.contains_key(k));
                        if r.contains_key(k) {
                            assert(r.remove(name)[k] == r[k]);
                            assert(l.remove(name)[k] == l[k]);
                        }
                    }
                    assert(give_back(r, name, prior) =~= l);
                    lemma_children_locals(node, rest, done2, with_locals(s3, give_back(s3.locals, name, prior)));
                },
                None => {
                    law_render_gives_locals_back(child, s);
                    let (s1, cid, _) = node_rendered(child, s).unwrap();
                    lemma_children_locals(node, rest, done.push(cid), s1);
                },
            },
        }
    }
}

proof fn lemma_repeat_locals(child: HtmlV, name: Seq<char>, count: nat, b: BinderV, k: nat, done: Seq<usize>, s: RenderState)
    requires
        aliases_distinct(child),
        repeat_rendered(child, name, count, b, k, done, s) is Some,
    ensures
        repeat_rendered(child, name, count, b, k, done, s).unwrap().0.locals.remove(name) == s.locals.remove(name),
    decreases child, count - k + 3,
{
    if k < count {
        let (s1, p) = index_place(s, b, k).unwrap();
        let s2 = with_locals(s1, s1.locals.insert(name, p));
        law_render_gives_locals_back(child, s2);
        let (s3, cid, _) = node_rendered(child, s2).unwrap();
        lemma_repeat_locals(child, name, count, b, k + 1, done.push(cid), s3);
        assert(s3.locals.remove(name) =~= s.locals.remove(name));
    }
}

/// The binding table as plain values.
pub open spec fn table_view(t: Seq<(String, Binding)>) -> Seq<(Seq<char>, BindingV)> {
    Seq::new(t.len(), |i: int| (t[i].0@, t[i].1@))
}

/// The rendering state that a schema, local names, a binding table and a node number
/// make.
pub open spec fn state_of(schema: &Schema, locals: &Vec<(String, String)>, table: &Vec<(String, Binding)>, next: usize) -> RenderState {
    RenderState { schema: schema.value@, locals: locals_map(locals_view(locals@)), table: table_view(table@), next: next as nat }
}

proof fn lemma_html_view(h: Html)
    ensures
        h@.tag == h.tag@,
        h@.bindings == views(h.bindings@),
        h@.text == (match h.text {
            Some(t) => Some(t@),
            None => None::<Seq<TextSpanV>>,
        }),
        h@.children == views(h.children@),
{
    reveal(html_view);
    assert(html_view(h).children =~= views(h.children@));
}

fn place_exec(b: &Binder, schema: &mut Schema, locals: &Vec<(String, String)>) -> (p: String)
    requires
        b@.path.len() > 0,
        indexes_fit(pointer_in(b@.path, locals_map(locals_view(locals@)))),
    ensures
        p@ == pointer_in(b@.path, locals_map(locals_view(locals@))),
        final(schema).value@ == with_place(old(schema).value@, p@),
{
    proof {
        lemma_pointer_in(b@.path, locals_view(locals@));
    }
    schema.field(b, locals)
}

fn index_exec(b: &Binder, n: usize, schema: &mut Schema, locals: &Vec<(String, String)>) -> (p: String)
    requires
        b@.path.len() > 0,
        indexes_fit(child_path(pointer_in(b@.path, locals_map(locals_view(locals@))), decimal_text(n as nat))),
    ensures
        p@ == child_path(pointer_in(b@.path, locals_map(locals_view(locals@))), decimal_text(n as nat)),
        final(schema).value@ == with_place(old(schema).value@, p@),
{
    proof {
        lemma_pointer_in(b@.path, locals_view(locals@));
    }
    schema.index(b, n, locals)
}

fn push_binding(table: &mut Vec<(String, Binding)>, path: String, params: BindingParams, pipe: &Vec<String>)
    ensures
        table_view(final(table)@) == table_view(old(table)@).push((path@, BindingV { params: params@, pipe: views(pipe@) })),
{
    let b = Binding { params, pipe: clone_strings(pipe) };
    table.push((path, b));
    proof {
        assert(table_view(table@) =~= table_view(old(table)@).push((path@, BindingV { params: params@, pipe: views(pipe@) })));
    }
}

fn text_spans_exec(node: usize, spans: &Vec<TextSpan>, schema: &mut Schema, locals: &mut Vec<(String, String)>, table: &mut Vec<(String, Binding)>, next: &mut usize)
    requires
        text_spans(node, views(spans@), 0, state_of(old(schema), old(locals), old(table), *old(next))) is Some,
    ensures
        state_of(final(schema), final(locals), final(table), *final(next))
            == text_spans(node, views(spans@), 0, state_of(old(schema), old(locals), old(table), *old(next))).unwrap(),
{
    let ghost all = views(spans@);
    let ghost total = text_spans(node, all, 0, state_of(schema, locals, table, *next));
    let mut k: usize = 0;
    proof {
        assert(all.subrange(0, all.len() as int) =~= all);
    }
    while k < spans.len()
        invariant
            all == views(spans@),
            k <= spans@.len(),
            total is Some,
            total == text_spans(node, all.subrange(k as int, all.len() as int), k as nat, state_of(schema, locals, table, *next)),
        decreases spans@.len() - k,
    {
        let ghost sub = all.subrange(k as int, all.len() as int);
        proof {
            assert(sub.subrange(1, sub.len() as int) =~= all.subrange(k + 1, all.len() as int));
            assert(sub[0] == spans@[k as int]@);
        }
        match &spans[k] {
            TextSpan::String(_) => {},
            TextSpan::Binder(b) => {
                let p = place_exec(b, schema, locals);
                push_binding(table, p, BindingParams::Text(node, k), &b.pipe);
            },
        }
        k = k + 1;
    }
}

fn attribute_spans_exec(node: usize, key: &String, spans: &Vec<TextSpan>, schema: &mut Schema, locals: &mut Vec<(String, String)>, table: &mut Vec<(String, Binding)>, next: &mut usize)
    requires
        attribute_spans(node, key@, views(spans@), 0, state_of(old(schema), old(locals), old(table), *old(next))) is Some,
    ensures
        state_of(final(schema), final(locals), final(table), *final(next))
            == attribute_spans(node, key@, views(spans@), 0, state_of(old(schema), old(locals), old(table), *old(next))).unwrap(),
{
    let ghost all = views(spans@);
    let ghost total = attribute_spans(node, key@, all, 0, state_of(schema, locals, table, *next));
    let mut k: usize = 0;
    proof {
        assert(all.subrange(0, all.len() as int) =~= all);
    }
    while k < spans.len()
        invariant
            all == views(spans@),
            k <= spans@.len(),
            total is Some,
            total == attribute_spans(node, key@, all.subrange(k as int, all.len() as int), k as nat, state_of(schema, locals, table, *next)),
        decreases spans@.len() - k,
    {
        let ghost sub = all.subrange(k as int, all.len() as int);
        proof {
            assert(sub.subrange(1, sub.len() as int) =~= all.subrange(k + 1, all.len() as int));
            assert(sub[0] == spans@[k as int]@);
        }
        match &spans[k] {
            TextSpan::String(_) => {},
            TextSpan::Binder(b) => {
                let p = place_exec(b, schema, locals);
                push_binding(table, p, BindingParams::Attribute(node, key.clone(), k), &b.pipe);
            },
        }
        k = k + 1;
    }
}

fn arguments_exec(args: &Vec<CallbackArgument>, schema: &mut Schema, locals: &mut Vec<(String, String)>, table: &mut Vec<(String, Binding)>, next: &mut usize)
    requires
        arguments_placed(views(args@), state_of(old(schema), old(locals), old(table), *old(next))) is Some,
    ensures
        state_of(final(schema), final(locals), final(table), *final(next))
            == arguments_placed(views(args@), state_of(old(schema), old(locals), old(table), *old(next))).unwrap(),
{
    let ghost all = views(args@);
    let ghost total = arguments_placed(all, state_of(schema, locals, table, *next));
    let mut k: usize = 0;
    proof {
        assert(all.subrange(0, all.len() as int) =~= all);
    }
    while k < args.len()
        invariant
            all == views(args@),
            k <= args@.len(),
            total is Some,
            total == arguments_placed(all.subrange(k as int, all.len() as int), state_of(schema, locals, table, *next)),
        decreases args@.len() - k,
    {
        let ghost sub = all.subrange(k as int, all.len() as int);
        proof {
            assert(sub.subrange(1, sub.len() as int) =~= all.subrange(k + 1, all.len() as int));
            assert(sub[0] == args@[k as int]@);
        }
        match &args[k] {
            CallbackArgument::Binder(b) => {
                let _p = place_exec(b, schema, locals);
            },
            _ => {},
        }
        k = k + 1;
    }
}

fn element_bindings_exec(node: usize, bs: &Vec<ElementBinding>, schema: &mut Schema, locals: &mut Vec<(String, String)>, table: &mut Vec<(String, Binding)>, next: &mut usize)
    requires
        element_bindings(node, views(bs@), state_of(old(schema), old(locals), old(table), *old(next))) is Some,
    ensures
        state_of(final(schema), final(locals), final(table), *final(next))
            == element_bindings(node, views(bs@), state_of(old(schema), old(locals), old(table), *old(next))).unwrap(),
{
    let ghost all = views(bs@);
    let ghost total = element_bindings(node, all, state_of(schema, locals, table, *next));
    let mut k: usize = 0;
    proof {
        assert(all.subrange(0, all.len() as int) =~= all);
    }
    while k < bs.len()
        invariant
            all == views(bs@),
            k <= bs@.len(),
            total is Some,
            total == element_bindings(node, all.subrange(k as int, all.len() as int), state_of(schema, locals, table, *next)),
        decreases bs@.len() - k,
    {
        let ghost sub = all.subrange(k as int, all.len() as int);
        proof {
            assert(sub.subrange(1, sub.len() as int) =~= all.subrange(k + 1, all.len() as int));
            assert(sub[0] == bs@[k as int]@);
        }
        match &bs[k] {
            ElementBinding::Tag(key, b) => {
                let p = place_exec(b, schema, locals);
                push_binding(table, p, BindingParams::Tag(node, key.clone()), &b.pipe);
            },
            ElementBinding::Attribute(key, text) => {
                if text.as_simple_text().is_none() {
                    attribute_spans_exec(node, key, &text.spans, schema, locals, table, next);
                }
            },
            ElementBinding::Callback(_, args) => {
                arguments_exec(args, schema, locals, table, next);
            },
            _ => {},
        }
        k = k + 1;
    }
}

/// The recorded names and values as plain values.
pub open spec fn overridden_view(o: Seq<(String, Option<String>)>) -> Seq<(Seq<char>, Option<Seq<char>>)> {
    Seq::new(o.len(), |i: int| (o[i].0@, match o[i].1 {
        Some(v) => Some(v@),
        None => None,
    }))
}

/// The value a name has among the local names.
fn get_local(locals: &Vec<(String, String)>, name: &str) -> (r: Option<String>)
    ensures
        match r {
            Some(v) => locals_map(locals_view(locals@)).contains_key(name@) && locals_map(locals_view(locals@))[name@] == v@,
            None => !locals_map(locals_view(locals@)).contains_key(name@),
        },
{
    let ghost lv = locals_view(locals@);
    match find_local(locals, name) {
        Some(p) => {
            proof {
                assert forall|j: int| 0 <= j < p implies #[trigger] lv[j].0 != name@ by {
                    assert(lv[j].0 == locals@[j].0@);
                }
                lemma_local_at(lv, name@, 0, p as int);
            }
            Some(locals[p].1.clone())
        },
        None => {
            proof {
                assert forall|j: int| 0 <= j < lv.len() implies #[trigger] lv[j].0 != name@ by {
                    assert(lv[j].0 == locals@[j].0@);
                }
                lemma_local_none(lv, name@, 0);
            }
            None
        },
    }
}

fn give_back_exec(locals: &mut Vec<(String, String)>, name: &str, prior: &Option<String>)
    ensures
        locals_map(locals_view(final(locals)@)) == give_back(locals_map(locals_view(old(locals)@)), name@, match prior {
            Some(v) => Some(v@),
            None => None,
        }),
{
    match prior {
        Some(v) => set_local(locals, name, v.clone()),
        None => remove_local(locals, name),
    }
}

fn aliases_exec(bs: &Vec<ElementBinding>, schema: &mut Schema, locals: &mut Vec<(String, String)>, table: &mut Vec<(String, Binding)>, next: &mut usize) -> (ov: Vec<(String, Option<String>)>)
    requires
        aliases(views(bs@), state_of(old(schema), old(locals), old(table), *old(next)), Seq::empty()) is Some,
    ensures
        aliases(views(bs@), state_of(old(schema), old(locals), old(table), *old(next)), Seq::empty())
            == Some((state_of(final(schema), final(locals), final(table), *final(next)), overridden_view(ov@))),
{
    let ghost all = views(bs@);
    let ghost total = aliases(all, state_of(schema, locals, table, *next), Seq::empty());
    let mut ov: Vec<(String, Option<String>)> = Vec::new();
    let mut k: usize = 0;
    proof {
        assert(all.subrange(0, all.len() as int) =~= all);
        assert(overridden_view(ov@) =~= Seq::<(Seq<char>, Option<Seq<char>>)>::empty());
    }
    while k < bs.len()
        invariant
            all == views(bs@),
            k <= bs@.len(),
            total is Some,
            total == aliases(all.subrange(k as int, all.len() as int), state_of(schema, locals, table, *next), overridden_view(ov@)),
        decreases bs@.len() - k,
    {
        let ghost sub = all.subrange(k as int, all.len() as int);
        proof {
            assert(sub.subrange(1, sub.len() as int) =~= all.subrange(k + 1, all.len() as int));
            assert(sub[0] == bs@[k as int]@);
        }
        match &bs[k] {
            ElementBinding::Alias(name, b) => {
                let p = place_exec(b, schema, locals);
                let prior = get_local(locals, name.as_str());
                let ghost before = overridden_view(ov@);
                let ghost pv = match &prior {
                    Some(v) => Some(v@),
                    None => None::<Seq<char>>,
                };
                set_local(locals, name.as_str(), p.clone());
                ov.push((name.clone(), prior));
                proof {
                    assert(overridden_view(ov@) =~= before.push((name@, pv)));
                }
            },
            _ => {},
        }
        k = k + 1;
    }
    proof {
        assert(all.subrange(bs@.len() as int, all.len() as int) =~= Seq::<ElementBindingV>::empty());
    }
    ov
}

fn restore_exec(ov: &Vec<(String, Option<String>)>, locals: &mut Vec<(String, String)>)
    ensures
        locals_map(locals_view(final(locals)@)) == restored(locals_map(locals_view(old(locals)@)), overridden_view(ov@)),
{
    let ghost all = overridden_view(ov@);
    let ghost total = restored(locals_map(locals_view(locals@)), all);
    let mut k: usize = 0;
    proof {
        assert(all.subrange(0, all.len() as int) =~= all);
    }
    while k < ov.len()
        invariant
            all == overridden_view(ov@),
            k <= ov@.len(),
            total == restored(locals_map(locals_view(locals@)), all.subrange(k as int, all.len() as int)),
        decreases ov@.len() - k,
    {
        let ghost sub = all.subrange(k as int, all.len() as int);
        proof {
            assert(sub.subrange(1, sub.len() as int) =~= all.subrange(k + 1, all.len() as int));
        }
        give_back_exec(locals, ov[k].0.as_str(), &ov[k].1);
        k = k + 1;
    }
}

fn is_tag(tag: &str, lit: &str) -> (r: bool)
    ensures
        r == (tag@ == lit@),
{
    str_eq(tag, lit)
}

fn is_other_void(tag: &str) -> (r: bool)
    ensures
        r == other_void_tag(tag@),
{
    let t0 = "area";
    proof {
        reveal_strlit("area");
        assert(t0@ =~= seq!['a', 'r', 'e', 'a']);
    }
    let t1 = "base";
    proof {
        reveal_strlit("base");
        assert(t1@ =~= seq!['b', 'a', 's', 'e']);
    }
    let t2 = "br";
    proof {
        reveal_strlit("br");
        assert(t2@ =~= seq!['b', 'r']);
    }
    let t3 = "col";
    proof {
        reveal_strlit("col");
        assert(t3@ =~= seq!['c', 'o', 'l']);
    }
    let t4 = "command";
    proof {
        reveal_strlit("command");
        assert(t4@ =~= seq!['c', 'o', 'm', 'm', 'a', 'n', 'd']);
    }
    let t5 = "embed";
    proof {
        reveal_strlit("embed");
        assert(t5@ =~= seq!['e', 'm', 'b', 'e', 'd']);
    }
    let t6 = "hr";
    proof {
        reveal_strlit("hr");
        assert(t6@ =~= seq!['h', 'r']);
    }
    let t7 = "keygen";
    proof {
        reveal_strlit("keygen");
        assert(t7@ =~= seq!['k', 'e', 'y', 'g', 'e', 'n']);
    }
    let t8 = "link";
    proof {
        reveal_strlit("link");
        assert(t8@ =~= seq!['l', 'i', 'n', 'k']);
    }
    let t9 = "meta";
    proof {
        reveal_strlit("meta");
        assert(t9@ =~= seq!['m', 'e', 't', 'a']);
    }
    let t10 = "param";
    proof {
        reveal_strlit("param");
        assert(t10@ =~= seq!['p', 'a', 'r', 'a', 'm']);
    }
    let t11 = "source";
    proof {
        reveal_strlit("source");
        assert(t11@ =~= seq!['s', 'o', 'u', 'r', 'c', 'e']);
    }
    let t12 = "track";
    proof {
        reveal_strlit("track");
        assert(t12@ =~= seq!['t', 'r', 'a', 'c', 'k']);
    }
    let t13 = "wbr";
    proof {
        reveal_strlit("wbr");
        assert(t13@ =~= seq!['w', 'b', 'r']);
    }
    is_tag(tag, t0) || is_tag(tag, t1) || is_tag(tag, t2) || is_tag(tag, t3) || is_tag(tag, t4) || is_tag(tag, t5) || is_tag(tag, t6) || is_tag(tag, t7) || is_tag(tag, t8) || is_tag(tag, t9) || is_tag(tag, t10) || is_tag(tag, t11) || is_tag(tag, t12) || is_tag(tag, t13)
}

fn new_node_exec(next: &mut usize) -> (node: usize)
    requires
        *old(next) < usize::MAX,
    ensures
        node == *old(next),
        *final(next) == *old(next) + 1,
{
    let node = *next;
    *next = *next + 1;
    node
}

/// Renders a template into the binding table, see [`node_rendered`].
fn render_node_exec(template: &Html, schema: &mut Schema, locals: &mut Vec<(String, String)>, table: &mut Vec<(String, Binding)>, next: &mut usize) -> (r: (usize, Vec<usize>))
    requires
        node_rendered(template@, state_of(old(schema), old(locals), old(table), *old(next))) is Some,
    ensures
        ({
            let x = node_rendered(template@, state_of(old(schema), old(locals), old(table), *old(next))).unwrap();
            state_of(final(schema), final(locals), final(table), *final(next)) == x.0 && r.0 == x.1 && r.1@ == x.2
        }),
    decreases template@, 2int,
{
    proof {
        lemma_html_view(*template);
    }
    match &template.text {
        Some(t) => {
            let node = new_node_exec(next);
            text_spans_exec(node, &t.spans, schema, locals, table, next);
            (node, Vec::new())
        },
        None => {
            let ov = aliases_exec(&template.bindings, schema, locals, table, next);
            let r = render_element_exec(template, schema, locals, table, next);
            restore_exec(&ov, locals);
            r
        },
    }
}

/// Renders an element into the binding table, see [`element_rendered`].
fn render_element_exec(template: &Html, schema: &mut Schema, locals: &mut Vec<(String, String)>, table: &mut Vec<(String, Binding)>, next: &mut usize) -> (r: (usize, Vec<usize>))
    requires
        element_rendered(template@, state_of(old(schema), old(locals), old(table), *old(next))) is Some,
    ensures
        ({
            let x = element_rendered(template@, state_of(old(schema), old(locals), old(table), *old(next))).unwrap();
            state_of(final(schema), final(locals), final(table), *final(next)) == x.0 && r.0 == x.1 && r.1@ == x.2
        }),
    decreases template@, 1int,
{
    proof {
        lemma_html_view(*template);
    }
    let node = new_node_exec(next);
    element_bindings_exec(node, &template.bindings, schema, locals, table, next);
    let tag = template.tag.as_str();
    proof {
        reveal_strlit("img");
        reveal_strlit("input");
        assert("img"@ =~= img_tag());
        assert("input"@ =~= input_tag());
    }
    if is_tag(tag, "img") {
        let c = new_node_exec(next);
        return (node, vec![c]);
    }
    if is_tag(tag, "input") {
        let c1 = new_node_exec(next);
        let c2 = new_node_exec(next);
        return (node, vec![c1, c2]);
    }
    if is_other_void(tag) {
        return (node, Vec::new());
    }
    let mut children: Vec<usize> = Vec::new();
    proof {
        assert(children@ =~= Seq::<usize>::empty());
    }
    render_children_exec(node, template, &mut children, schema, locals, table, next);
    (node, children)
}

/// Renders the children of an element, see [`children_rendered`].
fn render_children_exec(node: usize, template: &Html, children: &mut Vec<usize>, schema: &mut Schema, locals: &mut Vec<(String, String)>, table: &mut Vec<(String, Binding)>, next: &mut usize)
    requires
        children_rendered(node, template@.children, old(children)@, state_of(old(schema), old(locals), old(table), *old(next))) is Some,
    ensures
        children_rendered(node, template@.children, old(children)@, state_of(old(schema), old(locals), old(table), *old(next)))
            == Some((state_of(final(schema), final(locals), final(table), *final(next)), final(children)@)),
    decreases template@, 0int,
{
    proof {
        lemma_html_view(*template);
    }
    let ghost cv = template@.children;
    let ghost total = children_rendered(node, cv, children@, state_of(schema, locals, table, *next));
    let mut k: usize = 0;
    proof {
        assert(cv.subrange(0, cv.len() as int) =~= cv);
    }
    while k < template.children.len()
        invariant
            cv == template@.children,
            cv == views(template.children@),
            k <= cv.len(),
            total is Some,
            total == children_rendered(node, cv.subrange(k as int, cv.len() as int), children@, state_of(schema, locals, table, *next)),
        decreases cv.len() - k,
    {
        let ghost sub = cv.subrange(k as int, cv.len() as int);
        let child = &template.children[k];
        proof {
            assert(sub.subrange(1, sub.len() as int) =~= cv.subrange(k + 1, cv.len() as int));
            assert(sub[0] == child@);
            lemma_html_view(*child);
            assert(decreases_to!(template@ => template@.children[k as int]));
        }
        match child.as_visibility() {
            Some((visible, b)) => {
                let p = place_exec(b, schema, locals);
                let (cid, _) = render_node_exec(child, schema, locals, table, next);
                children.push(cid);
                push_binding(table, p, BindingParams::Visibility(node, cid, visible), &b.pipe);
            },
            None => match child.as_repeat() {
                Some((name, count, b)) => {
                    let arr = place_exec(b, schema, locals);
                    push_binding(table, arr, BindingParams::Repeat(node, children.len(), count), &b.pipe);
                    let prior = get_local(locals, name);
                    remove_local(locals, name);
                    render_repeat_exec(child, name, count, b, children, schema, locals, table, next);
                    give_back_exec(locals, name, &prior);
                },
                None => {
                    let (cid, _) = render_node_exec(child, schema, locals, table, next);
                    children.push(cid);
                },
            },
        }
        k = k + 1;
    }
    proof {
        assert(cv.subrange(cv.len() as int, cv.len() as int) =~= Seq::<HtmlV>::empty());
    }
}

/// Renders a repeated child once for each item, see [`repeat_rendered`].
fn render_repeat_exec(child: &Html, name: &str, count: usize, b: &Binder, children: &mut Vec<usize>, schema: &mut Schema, locals: &mut Vec<(String, String)>, table: &mut Vec<(String, Binding)>, next: &mut usize)
    requires
        repeat_rendered(child@, name@, count as nat, b@, 0, old(children)@, state_of(old(schema), old(locals), old(table), *old(next))) is Some,
    ensures
        repeat_rendered(child@, name@, count as nat, b@, 0, old(children)@, state_of(old(schema), old(locals), old(table), *old(next)))
            == Some((state_of(final(schema), final(locals), final(table), *final(next)), final(children)@)),
    decreases child@, 3int,
{
    let ghost rtotal = repeat_rendered(child@, name@, count as nat, b@, 0, children@, state_of(schema, locals, table, *next));
    let mut n: usize = 0;
    while n < count
        invariant
            n <= count,
            rtotal is Some,
            rtotal == repeat_rendered(child@, name@, count as nat, b@, n as nat, children@, state_of(schema, locals, table, *next)),
        decreases count - n,
    {
        let p = index_exec(b, n, schema, locals);
        set_local(locals, name, p.clone());
        let (cid, _) = render_node_exec(child, schema, locals, table, next);
        children.push(cid);
        n = n + 1;
    }
}

/// Renders a template into the binding table, its nodes numbered from `first`: the
/// schema, the local names and the table become what [`node_rendered`] gives; the result
/// is the number after the last node and the children of the template's node.
pub fn render_bindings(template: &Html, first: usize, schema: &mut Schema, locals: &mut Vec<(String, String)>, table: &mut Vec<(String, Binding)>) -> (r: (usize, Vec<usize>))
    requires
        node_rendered(template@, state_of(old(schema), old(locals), old(table), first)) is Some,
    ensures
        ({
            let x = node_rendered(template@, state_of(old(schema), old(locals), old(table), first)).unwrap();
            &&& final(schema).value@ == x.0.schema
            &&& locals_map(locals_view(final(locals)@)) == x.0.locals
            &&& table_view(final(table)@) == x.0.table
            &&& r.0 == x.0.next
            &&& r.1@ == x.2
        }),
        aliases_distinct(template@) ==> locals_map(locals_view(final(locals)@)) == locals_map(locals_view(old(locals)@)),
{
    proof {
        if aliases_distinct(template@) {
            law_render_gives_locals_back(template@, state_of(schema, locals, table, first));
        }
    }
    let mut next = first;
    let (_, children) = render_node_exec(template, schema, locals, table, &mut next);
    (next, children)
}

} // verus!
