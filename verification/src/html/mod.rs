//! The document model that the markup reader produces.
use vstd::prelude::*;

pub mod reader;
pub mod laws;

use crate::lexer::views;
use crate::text::{joined, join, push_all, push_char, str_eq};

verus! {

/// A path into the view model with the transformers to apply to the value found there,
/// written `{ path.to.value | transformer }` in markup.
#[derive(Debug, PartialEq)]
pub struct Binder {
    pub path: Vec<String>,
    pub pipe: Vec<String>,
}

/// A copy of a list of strings.
pub fn clone_strings(v: &Vec<String>) -> (r: Vec<String>)
    ensures
        views(r@) == views(v@),
{
    let mut r: Vec<String> = Vec::new();
    let mut k: usize = 0;
    while k < v.len()
        invariant
            k <= v@.len(),
            r@.len() == k,
            forall|j: int| 0 <= j < k ==> #[trigger] r@[j]@ == v@[j]@,
        decreases v@.len() - k,
    {
        r.push(v[k].clone());
        k = k + 1;
    }
    assert(views(r@) =~= views(v@));
    r
}

impl Clone for Binder {
    fn clone(&self) -> (r: Self)
        ensures
            r@ == self@,
    {
        Binder { path: clone_strings(&self.path), pipe: clone_strings(&self.pipe) }
    }
}

pub struct BinderV {
    pub path: Seq<Seq<char>>,
    pub pipe: Seq<Seq<char>>,
}

impl View for Binder {
    type V = BinderV;

    open spec fn view(&self) -> BinderV {
        BinderV { path: views(self.path@), pipe: views(self.pipe@) }
    }
}

/// How a binder is written: `{ path.to.value }`, or `{ path.to.value | a | b }` with its
/// transformers.
pub open spec fn binder_text(b: BinderV) -> Seq<char> {
    let path = joined(b.path, seq!['.']);
    if b.pipe.len() > 0 {
        seq!['{', ' '] + path + seq![' ', '|', ' '] + joined(b.pipe, seq![' ', '|', ' ']) + seq![' ', '}']
    } else {
        seq!['{', ' '] + path + seq![' ', '}']
    }
}

/// The value a name is bound to among local names: the first pair with that name.
pub open spec fn local_value(locals: Seq<(Seq<char>, Seq<char>)>, name: Seq<char>, k: int) -> Option<Seq<char>>
    decreases locals.len() - k,
{
    if 0 <= k < locals.len() {
        if locals[k].0 == name {
            Some(locals[k].1)
        } else {
            local_value(locals, name, k + 1)
        }
    } else {
        None
    }
}

pub open spec fn locals_view(locals: Seq<(String, String)>) -> Seq<(Seq<char>, Seq<char>)> {
    locals.map_values(|p: (String, String)| (p.0@, p.1@))
}

/// A reference token of a JSON pointer (RFC 6901): `~` written `~0`, `/` written `~1`.
pub open spec fn escaped(t: Seq<char>) -> Seq<char>
    decreases t.len(),
{
    if t.len() == 0 {
        Seq::empty()
    } else {
        let c = t.last();
        escaped(t.drop_last()) + if c == '~' {
            seq!['~', '0']
        } else if c == '/' {
            seq!['~', '1']
        } else {
            seq![c]
        }
    }
}

/// The name that a reference token writes (RFC 6901): `~1` reads as `/`, `~0` as `~`,
/// read from the front.
pub open spec fn unescaped(t: Seq<char>) -> Seq<char>
    decreases t.len(),
{
    if t.len() == 0 {
        Seq::empty()
    } else if t.len() >= 2 && t[0] == '~' && t[1] == '1' {
        seq!['/'] + unescaped(t.subrange(2, t.len() as int))
    } else if t.len() >= 2 && t[0] == '~' && t[1] == '0' {
        seq!['~'] + unescaped(t.subrange(2, t.len() as int))
    } else {
        seq![t[0]] + unescaped(t.subrange(1, t.len() as int))
    }
}

/// The reference token of one character.
pub open spec fn escaped_char(c: char) -> Seq<char> {
    if c == '~' {
        seq!['~', '0']
    } else if c == '/' {
        seq!['~', '1']
    } else {
        seq![c]
    }
}

proof fn lemma_escaped_concat(a: Seq<char>, b: Seq<char>)
    ensures
        escaped(a + b) == escaped(a) + escaped(b),
    decreases b.len(),
{
    if b.len() == 0 {
        assert(a + b =~= a);
        assert(escaped(a) + escaped(b) =~= escaped(a));
    } else {
        lemma_escaped_concat(a, b.drop_last());
        assert((a + b).drop_last() =~= a + b.drop_last());
        assert((a + b).last() == b.last());
        assert(escaped(a + b) =~= escaped(a) + escaped(b));
    }
}

proof fn lemma_unescaped_front(c: char, rest: Seq<char>)
    ensures
        unescaped(escaped_char(c) + rest) == seq![c] + unescaped(rest),
{
    let t = escaped_char(c) + rest;
    if c == '~' || c == '/' {
        assert(t.subrange(2, t.len() as int) =~= rest);
    } else {
        assert(t.subrange(1, t.len() as int) =~= rest);
    }
}

/// Reading a reference token back gives the name it was written from.
pub proof fn law_token_reads_back(s: Seq<char>)
    ensures
        unescaped(escaped(s)) == s,
    decreases s.len(),
{
    if s.len() > 0 {
        let rest = s.subrange(1, s.len() as int);
        assert(s =~= seq![s[0]] + rest);
        lemma_escaped_concat(seq![s[0]], rest);
        let one = seq![s[0]];
        assert(one.drop_last() =~= Seq::<char>::empty());
        assert(one.last() == s[0]);
        assert(escaped(Seq::<char>::empty()) == Seq::<char>::empty());
        assert(escaped(one) =~= escaped_char(s[0]));
        lemma_unescaped_front(s[0], escaped(rest));
        law_token_reads_back(rest);
        assert(seq![s[0]] + rest =~= s);
    }
}

/// The name that the reference token `t` writes, see [`unescaped`].
pub(crate) fn unescape_token(t: &str) -> (r: String)
    ensures
        r@ == unescaped(t@),
{
    let cs = crate::text::chars_of(t);
    let mut r = String::new();
    let mut k: usize = 0;
    assert(cs@.subrange(0, cs@.len() as int) =~= cs@);
    assert(r@ =~= Seq::<char>::empty());
    assert(r@ + unescaped(cs@) =~= unescaped(cs@));
    while k < cs.len()
        invariant
            cs@ == t@,
            k <= cs@.len(),
            r@ + unescaped(cs@.subrange(k as int, cs@.len() as int)) == unescaped(cs@),
        decreases cs@.len() - k,
    {
        let ghost tail = cs@.subrange(k as int, cs@.len() as int);
        let c = cs[k];
        if c == '~' && k + 1 < cs.len() && cs[k + 1] == '1' {
            push_char(&mut r, '/');
            assert(tail.subrange(2, tail.len() as int) =~= cs@.subrange(k + 2, cs@.len() as int));
            assert(r@ + unescaped(cs@.subrange(k + 2, cs@.len() as int)) =~= unescaped(cs@));
            k = k + 2;
        } else if c == '~' && k + 1 < cs.len() && cs[k + 1] == '0' {
            push_char(&mut r, '~');
            assert(tail.subrange(2, tail.len() as int) =~= cs@.subrange(k + 2, cs@.len() as int));
            assert(r@ + unescaped(cs@.subrange(k + 2, cs@.len() as int)) =~= unescaped(cs@));
            k = k + 2;
        } else {
            push_char(&mut r, c);
            assert(tail.subrange(1, tail.len() as int) =~= cs@.subrange(k + 1, cs@.len() as int));
            assert(r@ + unescaped(cs@.subrange(k + 1, cs@.len() as int)) =~= unescaped(cs@));
            k = k + 1;
        }
    }
    assert(r@ =~= unescaped(cs@));
    r
}

/// Each segment written as `/` and its reference token.
pub open spec fn pointer_tokens(segments: Seq<Seq<char>>) -> Seq<char>
    decreases segments.len(),
{
    if segments.len() == 0 {
        Seq::empty()
    } else {
        pointer_tokens(segments.drop_last()) + seq!['/'] + escaped(segments.last())
    }
}

/// The JSON pointer (RFC 6901) of a binder's path: its head as the local names give it
/// (a pointer already), else `/` and the head's reference token; then `/` and the
/// reference token of each further segment.
pub open spec fn json_pointer(path: Seq<Seq<char>>, locals: Seq<(Seq<char>, Seq<char>)>) -> Seq<char> {
    let head = match local_value(locals, path[0], 0) {
        Some(v) => v,
        None => seq!['/'] + escaped(path[0]),
    };
    head + pointer_tokens(path.subrange(1, path.len() as int))
}

/// Appends the reference token of `t`, see [`escaped`].
pub(crate) fn push_escaped(r: &mut String, t: &str)
    ensures
        final(r)@ == old(r)@ + escaped(t@),
{
    let cs = crate::text::chars_of(t);
    let mut k: usize = 0;
    while k < cs.len()
        invariant
            cs@ == t@,
            k <= cs@.len(),
            r@ == old(r)@ + escaped(cs@.subrange(0, k as int)),
        decreases cs@.len() - k,
    {
        let c = cs[k];
        let ghost before = r@;
        if c == '~' {
            push_char(r, '~');
            push_char(r, '0');
        } else if c == '/' {
            push_char(r, '~');
            push_char(r, '1');
        } else {
            push_char(r, c);
        }
        proof {
            let next = cs@.subrange(0, k + 1);
            assert(next.drop_last() =~= cs@.subrange(0, k as int));
            assert(next.last() == c);
            assert(r@ =~= old(r)@ + escaped(next));
        }
        k = k + 1;
    }
    assert(cs@.subrange(0, cs@.len() as int) =~= cs@);
}

impl Binder {
    /// The binder as markup writes it, see [`binder_text`].
    pub fn to_string(&self) -> (r: String)
        ensures
            r@ == binder_text(self@),
    {
        let dot = ".";
        let bar = " | ";
        proof {
            reveal_strlit(".");
            reveal_strlit(" | ");
            assert(self.path@.subrange(0, self.path@.len() as int) =~= self.path@);
            assert(self.path@.map_values(|p: String| p@) =~= views(self.path@));
            assert(self.pipe@.subrange(0, self.pipe@.len() as int) =~= self.pipe@);
            assert(self.pipe@.map_values(|p: String| p@) =~= views(self.pipe@));
        }
        assert(dot@ =~= seq!['.']);
        assert(bar@ =~= seq![' ', '|', ' ']);
        let path = join(self.path.as_slice(), 0, dot);
        assert(self.path@.subrange(0, self.path@.len() as int).map_values(|p: String| p@) =~= self@.path);
        assert(path@ == joined(self@.path, seq!['.']));
        let mut r = String::new();
        push_char_pair(&mut r, '{', ' ');
        push_all(&mut r, path.as_str());
        if self.pipe.len() > 0 {
            let pipe = join(self.pipe.as_slice(), 0, bar);
            assert(self.pipe@.subrange(0, self.pipe@.len() as int).map_values(|p: String| p@) =~= self@.pipe);
            assert(pipe@ == joined(self@.pipe, seq![' ', '|', ' ']));
            push_all(&mut r, bar);
            push_all(&mut r, pipe.as_str());
            push_char_pair(&mut r, ' ', '}');
            assert(r@ =~= binder_text(self@));
        } else {
            push_char_pair(&mut r, ' ', '}');
            assert(r@ =~= binder_text(self@));
        }
        r
    }

    /// The JSON pointer (RFC 6901) of the value that the binder's path names, see
    /// [`json_pointer`].
    pub fn to_json_pointer(&self, locals: &Vec<(String, String)>) -> (r: String)
        requires
            self.path@.len() > 0,
        ensures
            r@ == json_pointer(self@.path, locals_view(locals@)),
    {
        let head = &self.path[0];
        let mut r = String::new();
        match lookup_local(locals, head.as_str()) {
            Some(v) => {
                push_all(&mut r, v.as_str());
            },
            None => {
                push_char(&mut r, '/');
                push_escaped(&mut r, head.as_str());
                assert(r@ =~= seq!['/'] + escaped(head@));
            },
        }
        let ghost first = r@;
        let ghost p = self@.path;
        let mut k: usize = 1;
        assert(p.subrange(1, 1) =~= Seq::<Seq<char>>::empty());
        while k < self.path.len()
            invariant
                1 <= k <= self.path@.len(),
                p == self@.path,
                r@ == first + pointer_tokens(p.subrange(1, k as int)),
            decreases self.path@.len() - k,
        {
            push_char(&mut r, '/');
            push_escaped(&mut r, self.path[k].as_str());
            proof {
                let next = p.subrange(1, k + 1);
                assert(next.drop_last() =~= p.subrange(1, k as int));
                assert(next.last() == self.path@[k as int]@);
                assert(r@ =~= first + pointer_tokens(next));
            }
            k = k + 1;
        }
        r
    }
}

/// The value bound to `name` among local names, see [`local_value`].
fn lookup_local<'a>(locals: &'a Vec<(String, String)>, name: &str) -> (r: Option<&'a String>)
    ensures
        match local_value(locals_view(locals@), name@, 0) {
            Some(v) => r matches Some(x) && x@ == v,
            None => r is None,
        },
{
    let ghost ls = locals_view(locals@);
    let mut k: usize = 0;
    while k < locals.len()
        invariant
            ls == locals_view(locals@),
            k <= locals@.len(),
            local_value(ls, name@, 0) == local_value(ls, name@, k as int),
        decreases locals@.len() - k,
    {
        if str_eq(locals[k].0.as_str(), name) {
            return Some(&locals[k].1);
        }
        k = k + 1;
    }
    None
}

fn push_char_pair(s: &mut String, a: char, b: char)
    ensures
        final(s)@ == old(s)@ + seq![a, b],
{
    crate::text::push_char(s, a);
    crate::text::push_char(s, b);
    assert(old(s)@.push(a).push(b) =~= old(s)@ + seq![a, b]);
}

#[derive(Debug, PartialEq)]
pub enum TextSpan {
    String(String),
    Binder(Binder),
}

pub enum TextSpanV {
    Str(Seq<char>),
    Binder(BinderV),
}

impl View for TextSpan {
    type V = TextSpanV;

    open spec fn view(&self) -> TextSpanV {
        match self {
            TextSpan::String(s) => TextSpanV::Str(s@),
            TextSpan::Binder(b) => TextSpanV::Binder(b@),
        }
    }
}

pub open spec fn spans_view(spans: Seq<TextSpan>) -> Seq<TextSpanV> {
    views(spans)
}

/// Text with bound spans, such as `Hello, {name}!`.
#[derive(Debug, PartialEq)]
pub struct TextBinding {
    pub spans: Vec<TextSpan>,
}

impl View for TextBinding {
    type V = Seq<TextSpanV>;

    open spec fn view(&self) -> Seq<TextSpanV> {
        spans_view(self.spans@)
    }
}

#[derive(Debug, PartialEq)]
pub enum CallbackArgument {
    Keyword(String),
    Event,
    Binder(Binder),
}

pub enum CallbackArgumentV {
    Keyword(Seq<char>),
    Event,
    Binder(BinderV),
}

impl View for CallbackArgument {
    type V = CallbackArgumentV;

    open spec fn view(&self) -> CallbackArgumentV {
        match self {
            CallbackArgument::Keyword(k) => CallbackArgumentV::Keyword(k@),
            CallbackArgument::Event => CallbackArgumentV::Event,
            CallbackArgument::Binder(b) => CallbackArgumentV::Binder(b@),
        }
    }
}

/// An attribute of an element: a plain value or one of the binding forms.
#[derive(Debug, PartialEq)]
pub enum ElementBinding {
    Plain(String, String),
    Alias(String, Binder),
    Tag(String, Binder),
    Attribute(String, TextBinding),
    Repeat(String, usize, Binder),
    Callback(String, Vec<CallbackArgument>),
    Visibility(bool, Binder),
}

pub enum ElementBindingV {
    Plain(Seq<char>, Seq<char>),
    Alias(Seq<char>, BinderV),
    Tag(Seq<char>, BinderV),
    Attribute(Seq<char>, Seq<TextSpanV>),
    Repeat(Seq<char>, usize, BinderV),
    Callback(Seq<char>, Seq<CallbackArgumentV>),
    Visibility(bool, BinderV),
}

impl View for ElementBinding {
    type V = ElementBindingV;

    open spec fn view(&self) -> ElementBindingV {
        match self {
            ElementBinding::Plain(k, v) => ElementBindingV::Plain(k@, v@),
            ElementBinding::Alias(k, b) => ElementBindingV::Alias(k@, b@),
            ElementBinding::Tag(k, b) => ElementBindingV::Tag(k@, b@),
            ElementBinding::Attribute(k, t) => ElementBindingV::Attribute(k@, t@),
            ElementBinding::Repeat(k, n, b) => ElementBindingV::Repeat(k@, *n, b@),
            ElementBinding::Callback(k, a) => ElementBindingV::Callback(
                k@,
                views(a@),
            ),
            ElementBinding::Visibility(v, b) => ElementBindingV::Visibility(*v, b@),
        }
    }
}

pub open spec fn bindings_view(b: Seq<ElementBinding>) -> Seq<ElementBindingV> {
    views(b)
}

/// A node of the document: an element with its bindings and children, or a text.
#[derive(Debug, PartialEq)]
pub struct Html {
    /// The position (in characters) where the node starts in its source.
    pub index: usize,
    pub tag: String,
    pub bindings: Vec<ElementBinding>,
    pub text: Option<TextBinding>,
    pub children: Vec<Html>,
}

pub struct HtmlV {
    pub index: nat,
    pub tag: Seq<char>,
    pub bindings: Seq<ElementBindingV>,
    pub text: Option<Seq<TextSpanV>>,
    pub children: Seq<HtmlV>,
}

#[verifier::opaque]
pub open spec fn html_view(h: Html) -> HtmlV
    decreases h,
{
    HtmlV {
        index: h.index as nat,
        tag: h.tag@,
        bindings: bindings_view(h.bindings@),
        text: match h.text {
            Some(t) => Some(t@),
            None => None,
        },
        children: Seq::new(
            h.children@.len(),
            |i: int|
                if 0 <= i < h.children@.len() {
                    html_view(h.children@[i])
                } else {
                    arbitrary()
                },
        ),
    }
}

impl View for Html {
    type V = HtmlV;

    open spec fn view(&self) -> HtmlV {
        html_view(*self)
    }
}


impl Clone for TextSpan {
    fn clone(&self) -> (r: Self)
        ensures
            r@ == self@,
    {
        match self {
            TextSpan::String(t) => TextSpan::String(t.clone()),
            TextSpan::Binder(b) => TextSpan::Binder(b.clone()),
        }
    }
}

/// A copy of a list of items, each copied by its `clone`.
pub fn clone_spans(v: &Vec<TextSpan>) -> (r: Vec<TextSpan>)
    ensures
        views(r@) == views(v@),
{
    let mut r: Vec<TextSpan> = Vec::new();
    let mut k: usize = 0;
    while k < v.len()
        invariant
            k <= v@.len(),
            r@.len() == k,
            forall|j: int| 0 <= j < k ==> #[trigger] r@[j]@ == v@[j]@,
        decreases v@.len() - k,
    {
        r.push(v[k].clone());
        k = k + 1;
    }
    assert(views(r@) =~= views(v@));
    r
}

impl Clone for TextBinding {
    fn clone(&self) -> (r: Self)
        ensures
            r@ == self@,
    {
        TextBinding { spans: clone_spans(&self.spans) }
    }
}

impl Clone for CallbackArgument {
    fn clone(&self) -> (r: Self)
        ensures
            r@ == self@,
    {
        match self {
            CallbackArgument::Keyword(k) => CallbackArgument::Keyword(k.clone()),
            CallbackArgument::Event => CallbackArgument::Event,
            CallbackArgument::Binder(b) => CallbackArgument::Binder(b.clone()),
        }
    }
}

pub fn clone_arguments(v: &Vec<CallbackArgument>) -> (r: Vec<CallbackArgument>)
    ensures
        views(r@) == views(v@),
{
    let mut r: Vec<CallbackArgument> = Vec::new();
    let mut k: usize = 0;
    while k < v.len()
        invariant
            k <= v@.len(),
            r@.len() == k,
            forall|j: int| 0 <= j < k ==> #[trigger] r@[j]@ == v@[j]@,
        decreases v@.len() - k,
    {
        r.push(v[k].clone());
        k = k + 1;
    }
    assert(views(r@) =~= views(v@));
    r
}

impl Clone for ElementBinding {
    fn clone(&self) -> (r: Self)
        ensures
            r@ == self@,
    {
        match self {
            ElementBinding::Plain(k, v) => ElementBinding::Plain(k.clone(), v.clone()),
            ElementBinding::Alias(k, b) => ElementBinding::Alias(k.clone(), b.clone()),
            ElementBinding::Tag(k, b) => ElementBinding::Tag(k.clone(), b.clone()),
            ElementBinding::Attribute(k, t) => ElementBinding::Attribute(k.clone(), t.clone()),
            ElementBinding::Repeat(k, n, b) => ElementBinding::Repeat(k.clone(), *n, b.clone()),
            ElementBinding::Callback(k, a) => ElementBinding::Callback(
                k.clone(),
                clone_arguments(a),
            ),
            ElementBinding::Visibility(v, b) => ElementBinding::Visibility(*v, b.clone()),
        }
    }
}

pub open spec fn href_name() -> Seq<char> {
    seq!['h', 'r', 'e', 'f']
}

pub open spec fn link_tag() -> Seq<char> {
    seq!['l', 'i', 'n', 'k']
}

/// Whether a binding is the plain `href` attribute.
pub open spec fn is_href(b: ElementBindingV) -> bool {
    b matches ElementBindingV::Plain(name, _) && name == href_name()
}

/// The value of the last plain `href` attribute among `bs`.
pub open spec fn last_href(bs: Seq<ElementBindingV>) -> Option<Seq<char>>
    decreases bs.len(),
{
    if bs.len() == 0 {
        None
    } else if is_href(bs.last()) {
        match bs.last() {
            ElementBindingV::Plain(_, value) => Some(value),
            _ => None,
        }
    } else {
        last_href(bs.drop_last())
    }
}

/// The bindings `bs` without the plain `href` attributes, in their order.
pub open spec fn without_href(bs: Seq<ElementBindingV>) -> Seq<ElementBindingV>
    decreases bs.len(),
{
    if bs.len() == 0 {
        Seq::empty()
    } else if is_href(bs.last()) {
        without_href(bs.drop_last())
    } else {
        without_href(bs.drop_last()).push(bs.last())
    }
}

/// The first visibility binding among `bs`.
pub open spec fn first_visibility(bs: Seq<ElementBindingV>) -> Option<(bool, BinderV)>
    decreases bs.len(),
{
    if bs.len() == 0 {
        None
    } else {
        match bs[0] {
            ElementBindingV::Visibility(visible, binder) => Some((visible, binder)),
            _ => first_visibility(bs.drop_first()),
        }
    }
}

/// The first repeat binding among `bs`.
pub open spec fn first_repeat(bs: Seq<ElementBindingV>) -> Option<(Seq<char>, usize, BinderV)>
    decreases bs.len(),
{
    if bs.len() == 0 {
        None
    } else {
        match bs[0] {
            ElementBindingV::Repeat(name, count, binder) => Some((name, count, binder)),
            _ => first_repeat(bs.drop_first()),
        }
    }
}

fn is_href_name(name: &String) -> (b: bool)
    ensures
        b == (name@ == href_name()),
{
    let chars = crate::text::chars_of(name.as_str());
    let href = ['h', 'r', 'e', 'f'];
    assert(href@ =~= href_name());
    if chars.len() != 4 {
        assert(chars@.len() != href_name().len());
        return false;
    }
    let b = crate::lexer::matches_at(chars.as_slice(), 0, &href);
    assert(chars@.subrange(0, 4) =~= chars@);
    b
}

impl Html {
    /// An element with no tag, bindings, text or children.
    pub fn empty() -> (h: Self)
        ensures
            h.index == 0,
            h.tag@ == Seq::<char>::empty(),
            h.bindings@ == Seq::<ElementBinding>::empty(),
            h.text is None,
            h.children@ == Seq::<Html>::empty(),
    {
        Html { index: 0, tag: String::new(), bindings: Vec::new(), text: None, children: Vec::new() }
    }

    /// A `<link href="...">` element names a template: the value of its `href` and its
    /// other bindings.
    pub fn as_template_link(&self) -> (r: Option<(String, Vec<ElementBinding>)>)
        ensures
            self.tag@ != link_tag() ==> r is None,
            self.tag@ == link_tag() ==> match last_href(views(self.bindings@)) {
                Some(id) => r matches Some((rid, rb)) && rid@ == id && views(rb@) == without_href(
                    views(self.bindings@),
                ),
                None => r is None,
            },
    {
        let tag = crate::text::chars_of(self.tag.as_str());
        let link = ['l', 'i', 'n', 'k'];
        assert(link@ =~= link_tag());
        if !(tag.len() == 4 && crate::lexer::matches_at(tag.as_slice(), 0, &link)) {
            proof {
                if self.tag@ == link_tag() {
                    assert(tag@.subrange(0, 4) =~= tag@);
                }
            }
            return None;
        }
        proof {
            assert(tag@.subrange(0, 4) =~= tag@);
        }
        let ghost bs = views(self.bindings@);
        let mut bindings: Vec<ElementBinding> = Vec::new();
        let mut id: Option<String> = None;
        let mut k: usize = 0;
        while k < self.bindings.len()
            invariant
                bs == views(self.bindings@),
                k <= bs.len(),
                views(bindings@) == without_href(bs.subrange(0, k as int)),
                match last_href(bs.subrange(0, k as int)) {
                    Some(v) => id matches Some(i) && i@ == v,
                    None => id is None,
                },
            decreases bs.len() - k,
        {
            let b = &self.bindings[k];
            assert(bs.subrange(0, k + 1).drop_last() =~= bs.subrange(0, k as int));
            assert(bs.subrange(0, k + 1).last() == b@);
            let mut href = false;
            if let ElementBinding::Plain(name, value) = b {
                if is_href_name(name) {
                    id = Some(value.clone());
                    href = true;
                }
            }
            if !href {
                let c = b.clone();
                proof {
                    crate::lexer::lemma_views_push(bindings@, c);
                }
                bindings.push(c);
            }
            k = k + 1;
        }
        assert(bs.subrange(0, bs.len() as int) =~= bs);
        match id {
            Some(id) => Some((id, bindings)),
            None => None,
        }
    }

    /// The first visibility binding of the element.
    pub fn as_visibility(&self) -> (r: Option<(bool, &Binder)>)
        ensures
            match r {
                Some((v, b)) => first_visibility(views(self.bindings@)) == Some((v, b@)),
                None => first_visibility(views(self.bindings@)) is None,
            },
    {
        let ghost bs = views(self.bindings@);
        let mut k: usize = 0;
        assert(bs.subrange(0, bs.len() as int) =~= bs);
        while k < self.bindings.len()
            invariant
                bs == views(self.bindings@),
                k <= bs.len(),
                first_visibility(bs) == first_visibility(bs.subrange(k as int, bs.len() as int)),
            decreases bs.len() - k,
        {
            assert(bs.subrange(k as int, bs.len() as int).drop_first() =~= bs.subrange(
                k + 1,
                bs.len() as int,
            ));
            assert(bs.subrange(k as int, bs.len() as int)[0] == self.bindings@[k as int]@);
            if let ElementBinding::Visibility(visible, binder) = &self.bindings[k] {
                return Some((*visible, binder));
            }
            k = k + 1;
        }
        None
    }

    /// The first repeat binding of the element.
    pub fn as_repeat(&self) -> (r: Option<(&str, usize, &Binder)>)
        ensures
            match r {
                Some((n, c, b)) => first_repeat(views(self.bindings@)) == Some((n@, c, b@)),
                None => first_repeat(views(self.bindings@)) is None,
            },
    {
        let ghost bs = views(self.bindings@);
        let mut k: usize = 0;
        assert(bs.subrange(0, bs.len() as int) =~= bs);
        while k < self.bindings.len()
            invariant
                bs == views(self.bindings@),
                k <= bs.len(),
                first_repeat(bs) == first_repeat(bs.subrange(k as int, bs.len() as int)),
            decreases bs.len() - k,
        {
            assert(bs.subrange(k as int, bs.len() as int).drop_first() =~= bs.subrange(
                k + 1,
                bs.len() as int,
            ));
            assert(bs.subrange(k as int, bs.len() as int)[0] == self.bindings@[k as int]@);
            if let ElementBinding::Repeat(name, count, binder) = &self.bindings[k] {
                return Some((name.as_str(), *count, binder));
            }
            k = k + 1;
        }
        None
    }
}

impl TextBinding {
    /// The text where it is one plain span and nothing else.
    pub fn as_simple_text(&self) -> (r: Option<String>)
        ensures
            match r {
                Some(t) => self.spans@.len() == 1 && self.spans@[0]@ == TextSpanV::Str(t@),
                None => !(self.spans@.len() == 1 && self.spans@[0] is String),
            },
    {
        if self.spans.len() == 1 {
            if let TextSpan::String(text) = &self.spans[0] {
                return Some(text.clone());
            }
        }
        None
    }
}

} // verus!
