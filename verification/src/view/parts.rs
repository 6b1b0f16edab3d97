//! What an element keeps of its bindings when it is rendered, besides the binding table:
//! its attributes, the text of each bound attribute, its listeners with the pointers of
//! their arguments, and its inline style. A later binding of the same name takes the
//! place of an earlier one.
use vstd::prelude::*;
use crate::css::{Declaration, DeclarationV};
use crate::css::reader::{read_inline_css, sp_declarations};
use crate::element::TextContent;
use crate::html::{
    binder_text, json_pointer, locals_view, BinderV, CallbackArgument, CallbackArgumentV,
    ElementBinding, ElementBindingV, TextSpan, TextSpanV,
};
use crate::lexer::views;
use crate::text::{joined, str_eq, trim};
use crate::view::model::first_entry;

verus! {

/// An argument of a listener: a keyword, the event itself, or the pointer of a bound
/// value with the pipe it goes through.
#[derive(Debug, PartialEq)]
pub enum ListenerArgument {
    Keyword(String),
    Event,
    Pointer(String, Vec<String>),
}

pub enum ListenerArgumentV {
    Keyword(Seq<char>),
    Event,
    Pointer(Seq<char>, Seq<Seq<char>>),
}

impl View for ListenerArgument {
    type V = ListenerArgumentV;

    open spec fn view(&self) -> ListenerArgumentV {
        match self {
            ListenerArgument::Keyword(k) => ListenerArgumentV::Keyword(k@),
            ListenerArgument::Event => ListenerArgumentV::Event,
            ListenerArgument::Pointer(p, pipe) => ListenerArgumentV::Pointer(p@, views(pipe@)),
        }
    }
}

/// The arguments that a listener hands to its handler.
#[derive(Debug, PartialEq)]
pub struct Listener {
    pub arguments: Vec<ListenerArgument>,
}

impl View for Listener {
    type V = Seq<ListenerArgumentV>;

    open spec fn view(&self) -> Seq<ListenerArgumentV> {
        views(self.arguments@)
    }
}

/// The attributes, bound attribute texts, listeners (by event) and inline style of an
/// element.
#[derive(Debug)]
pub struct ElementParts {
    pub attrs: Vec<(String, String)>,
    pub texts: Vec<(String, TextContent)>,
    pub listeners: Vec<(String, Listener)>,
    pub style: Vec<Declaration>,
}

pub struct ElementPartsV {
    pub attrs: Seq<(Seq<char>, Seq<char>)>,
    pub texts: Seq<(Seq<char>, Seq<Seq<char>>)>,
    pub listeners: Seq<(Seq<char>, Seq<ListenerArgumentV>)>,
    pub style: Seq<DeclarationV>,
}

pub open spec fn pairs<T: View>(entries: Seq<(String, T)>) -> Seq<(Seq<char>, T::V)> {
    entries.map_values(|e: (String, T)| (e.0@, e.1@))
}

impl View for ElementParts {
    type V = ElementPartsV;

    open spec fn view(&self) -> ElementPartsV {
        ElementPartsV {
            attrs: pairs(self.attrs@),
            texts: pairs(self.texts@),
            listeners: pairs(self.listeners@),
            style: views(self.style@),
        }
    }
}

/// The entries with `value` under `key`: in the place of the first entry of that key, or
/// added at the end where there is none.
pub open spec fn put<V>(entries: Seq<(Seq<char>, V)>, key: Seq<char>, value: V) -> Seq<(Seq<char>, V)> {
    match first_entry(entries, key, 0) {
        Some(j) => if 0 <= j < entries.len() {
            entries.update(j, (key, value))
        } else {
            entries.push((key, value))
        },
        None => entries.push((key, value)),
    }
}

/// The text of a span: itself, or a binder as markup writes it.
pub open spec fn span_text(s: TextSpanV) -> Seq<char> {
    match s {
        TextSpanV::Str(t) => t,
        TextSpanV::Binder(b) => binder_text(b),
    }
}

/// A listener's argument, with the pointer of a bound value under the local names.
pub open spec fn argument_of(a: CallbackArgumentV, locals: Seq<(Seq<char>, Seq<char>)>) -> ListenerArgumentV {
    match a {
        CallbackArgumentV::Keyword(k) => ListenerArgumentV::Keyword(k),
        CallbackArgumentV::Event => ListenerArgumentV::Event,
        CallbackArgumentV::Binder(b) => ListenerArgumentV::Pointer(json_pointer(b.path, locals), b.pipe),
    }
}

pub open spec fn style_name() -> Seq<char> {
    seq!['s', 't', 'y', 'l', 'e']
}

/// The parts after one more binding: a plain attribute is kept (and, for `style`, read as
/// the inline style); an attribute of one plain span is kept as that text; another bound
/// attribute keeps its span texts and their trimmed join as its value; a callback is the
/// listener of its event. Other bindings leave the parts as they are.
pub open spec fn parts_after(p: ElementPartsV, b: ElementBindingV, locals: Seq<(Seq<char>, Seq<char>)>) -> ElementPartsV {
    match b {
        ElementBindingV::Plain(k, v) => ElementPartsV {
            attrs: put(p.attrs, k, v),
            style: if k == style_name() { sp_declarations(v, 0).0 } else { p.style },
            ..p
        },
        ElementBindingV::Attribute(k, spans) => if spans.len() == 1 && spans[0] is Str {
            ElementPartsV { attrs: put(p.attrs, k, spans[0]->Str_0), ..p }
        } else {
            let texts = spans.map_values(|s: TextSpanV| span_text(s));
            ElementPartsV {
                attrs: put(p.attrs, k, trim(joined(texts, Seq::empty()))),
                texts: put(p.texts, k, texts),
                ..p
            }
        },
        ElementBindingV::Callback(event, args) => ElementPartsV {
            listeners: put(p.listeners, event, args.map_values(|a: CallbackArgumentV| argument_of(a, locals))),
            ..p
        },
        _ => p,
    }
}

/// The parts of an element after its bindings, one after another.
pub open spec fn parts_of(bs: Seq<ElementBindingV>, locals: Seq<(Seq<char>, Seq<char>)>) -> ElementPartsV
    decreases bs.len(),
{
    if bs.len() == 0 {
        ElementPartsV { attrs: Seq::empty(), texts: Seq::empty(), listeners: Seq::empty(), style: Seq::empty() }
    } else {
        parts_after(parts_of(bs.drop_last(), locals), bs.last(), locals)
    }
}

/// Whether every bound argument of a callback names a value (its path is not empty).
pub open spec fn arguments_named(bs: Seq<ElementBindingV>) -> bool {
    forall|i: int, j: int| 0 <= i < bs.len() && bs[i] is Callback && 0 <= j < bs[i]->Callback_1.len()
        && bs[i]->Callback_1[j] is Binder ==> (#[trigger] bs[i]->Callback_1[j])->Binder_0.path.len() > 0
}

/// Puts `value` under `key`, see [`put`].
fn put_entry<T: View>(entries: &mut Vec<(String, T)>, key: String, value: T)
    ensures
        pairs(final(entries)@) == put(pairs(old(entries)@), key@, value@),
{
    let ghost before = pairs(entries@);
    let mut k: usize = 0;
    while k < entries.len()
        invariant
            k <= entries@.len(),
            before == pairs(entries@),
            entries@ == old(entries)@,
            first_entry(before, key@, 0) == first_entry(before, key@, k as int),
        decreases entries@.len() - k,
    {
        assert(before[k as int].0 == entries@[k as int].0@);
        if str_eq(entries[k].0.as_str(), key.as_str()) {
            let ghost kv = key@;
            let ghost vv = value@;
            entries.set(k, (key, value));
            assert(pairs(entries@) =~= before.update(k as int, (kv, vv)));
            return;
        }
        k = k + 1;
    }
    let ghost kv = key@;
    let ghost vv = value@;
    entries.push((key, value));
    assert(pairs(entries@) =~= before.push((kv, vv)));
}


/// The texts of the spans of a bound attribute, see [`span_text`].
fn span_texts(spans: &Vec<TextSpan>) -> (r: Vec<String>)
    ensures
        r@.map_values(|s: String| s@) == views(spans@).map_values(|s: TextSpanV| span_text(s)),
{
    let mut r: Vec<String> = Vec::new();
    let mut k: usize = 0;
    while k < spans.len()
        invariant
            k <= spans@.len(),
            r@.map_values(|s: String| s@) =~= views(spans@).subrange(0, k as int).map_values(|s: TextSpanV| span_text(s)),
        decreases spans@.len() - k,
    {
        let t = match &spans[k] {
            TextSpan::String(s) => s.clone(),
            TextSpan::Binder(b) => b.to_string(),
        };
        let ghost before = r@;
        r.push(t);
        proof {
            assert(views(spans@)[k as int] == spans@[k as int]@);
            assert(views(spans@).subrange(0, k + 1) =~= views(spans@).subrange(0, k as int).push(views(spans@)[k as int]));
            assert(r@.map_values(|s: String| s@) =~= before.map_values(|s: String| s@).push(t@));
        }
        k = k + 1;
    }
    assert(views(spans@).subrange(0, spans@.len() as int) =~= views(spans@));
    r
}

/// The arguments of a listener, see [`argument_of`].
fn listener_arguments(args: &Vec<CallbackArgument>, locals: &Vec<(String, String)>) -> (r: Vec<ListenerArgument>)
    requires
        forall|j: int| 0 <= j < args@.len() && args@[j]@ is Binder ==> (#[trigger] args@[j]@)->Binder_0.path.len() > 0,
    ensures
        views(r@) == views(args@).map_values(|a: CallbackArgumentV| argument_of(a, locals_view(locals@))),
{
    let mut r: Vec<ListenerArgument> = Vec::new();
    let mut k: usize = 0;
    while k < args.len()
        invariant
            k <= args@.len(),
            forall|j: int| 0 <= j < args@.len() && args@[j]@ is Binder ==> (#[trigger] args@[j]@)->Binder_0.path.len() > 0,
            views(r@) =~= views(args@).subrange(0, k as int).map_values(|a: CallbackArgumentV| argument_of(a, locals_view(locals@))),
        decreases args@.len() - k,
    {
        assert(views(args@)[k as int] == args@[k as int]@);
        let a = match &args[k] {
            CallbackArgument::Keyword(w) => ListenerArgument::Keyword(w.clone()),
            CallbackArgument::Event => ListenerArgument::Event,
            CallbackArgument::Binder(b) => ListenerArgument::Pointer(b.to_json_pointer(locals), crate::html::clone_strings(&b.pipe)),
        };
        let ghost before = r@;
        r.push(a);
        proof {
            assert(views(args@).subrange(0, k + 1) =~= views(args@).subrange(0, k as int).push(views(args@)[k as int]));
            assert(views(r@) =~= views(before).push(a@));
        }
        k = k + 1;
    }
    assert(views(args@).subrange(0, args@.len() as int) =~= views(args@));
    r
}

/// Takes one more binding into the parts, see [`parts_after`].
fn take_binding(parts: &mut ElementParts, b: &ElementBinding, locals: &Vec<(String, String)>)
    requires
        b@ is Callback ==> forall|j: int| 0 <= j < b@->Callback_1.len() && b@->Callback_1[j] is Binder ==> (#[trigger] b@->Callback_1[j])->Binder_0.path.len() > 0,
    ensures
        final(parts)@ == parts_after(old(parts)@, b@, locals_view(locals@)),
{
    match b {
        ElementBinding::Plain(k, v) => {
            put_entry(&mut parts.attrs, k.clone(), v.clone());
            let style = "style";
            proof {
                reveal_strlit("style");
                assert(style@ =~= style_name());
            }
            if str_eq(k.as_str(), style) {
                match read_inline_css(v.as_str()) {
                    Ok(ds) => parts.style = ds,
                    Err(_) => {},
                }
            }
        },
        ElementBinding::Attribute(k, t) => match t.as_simple_text() {
            Some(text) => {
                put_entry(&mut parts.attrs, k.clone(), text);
            },
            None => {
                let texts = span_texts(&t.spans);
                let content = TextContent::new(texts);
                let value = content.to_string();
                put_entry(&mut parts.attrs, k.clone(), value);
                put_entry(&mut parts.texts, k.clone(), content);
            },
        },
        ElementBinding::Callback(event, args) => {
            proof {
                assert forall|j: int| 0 <= j < args@.len() && args@[j]@ is Binder implies (#[trigger] args@[j]@)->Binder_0.path.len() > 0 by {
                    assert(b@->Callback_1[j] == args@[j]@);
                }
            }
            let arguments = listener_arguments(args, locals);
            put_entry(&mut parts.listeners, event.clone(), Listener { arguments });
        },
        _ => {},
    }
}

/// The attributes, bound attribute texts, listeners and inline style that an element
/// keeps of its bindings, see [`parts_of`].
pub fn element_parts(bindings: &Vec<ElementBinding>, locals: &Vec<(String, String)>) -> (r: ElementParts)
    requires
        arguments_named(views(bindings@)),
    ensures
        r@ == parts_of(views(bindings@), locals_view(locals@)),
{
    let mut parts = ElementParts { attrs: Vec::new(), texts: Vec::new(), listeners: Vec::new(), style: Vec::new() };
    let ghost all = views(bindings@);
    proof {
        assert(all.subrange(0, 0) =~= Seq::<ElementBindingV>::empty());
        assert(parts@.attrs =~= Seq::<(Seq<char>, Seq<char>)>::empty());
        assert(parts@.texts =~= Seq::<(Seq<char>, Seq<Seq<char>>)>::empty());
        assert(parts@.listeners =~= Seq::<(Seq<char>, Seq<ListenerArgumentV>)>::empty());
        assert(parts@.style =~= Seq::<DeclarationV>::empty());
    }
    let mut k: usize = 0;
    while k < bindings.len()
        invariant
            k <= bindings@.len(),
            all == views(bindings@),
            arguments_named(all),
            parts@ == parts_of(all.subrange(0, k as int), locals_view(locals@)),
        decreases bindings@.len() - k,
    {
        assert(all[k as int] == bindings@[k as int]@);
        proof {
            if all[k as int] is Callback {
                assert forall|j: int| 0 <= j < all[k as int]->Callback_1.len() && all[k as int]->Callback_1[j] is Binder implies (#[trigger] all[k as int]->Callback_1[j])->Binder_0.path.len() > 0 by {
                }
            }
        }
        take_binding(&mut parts, &bindings[k], locals);
        proof {
            let next = all.subrange(0, k + 1);
            assert(next.drop_last() =~= all.subrange(0, k as int));
            assert(next.last() == all[k as int]);
        }
        k = k + 1;
    }
    assert(all.subrange(0, bindings@.len() as int) =~= all);
    parts
}

} // verus!
