//! What a changed value does to a bound element: the reaction of each kind of binding.
use vstd::prelude::*;
use crate::lexer::{lemma_views_push, views};
use crate::css::Declaration;
use crate::css::reader::{read_inline_css, sp_declarations};
use crate::element::TextContent;
use crate::text::{joined, trim};
use crate::text::{push_all, push_char};
use crate::view::model::{decimal_text, lemma_json_view, push_decimal, Json, JsonNumber, JsonNumberV, JsonV};

verus! {

/// Where a binding puts a value: a text span of an element, the visibility of a child
/// (shown where the value's truth is `visible`), a span of an attribute, the presence of
/// an attribute, or the items of a repetition (`size` children from `start`).
#[derive(Debug, Clone, PartialEq)]
pub enum BindingParams {
    Text(usize, usize),
    Visibility(usize, usize, bool),
    Attribute(usize, String, usize),
    Tag(usize, String),
    Repeat(usize, usize, usize),
}

/// A binding of a view to a path of the view model, with the transformers that the value
/// goes through first.
#[derive(Debug, Clone, PartialEq)]
pub struct Binding {
    pub params: BindingParams,
    pub pipe: Vec<String>,
}

pub enum BindingParamsV {
    Text(usize, usize),
    Visibility(usize, usize, bool),
    Attribute(usize, Seq<char>, usize),
    Tag(usize, Seq<char>),
    Repeat(usize, usize, usize),
}

impl View for BindingParams {
    type V = BindingParamsV;

    open spec fn view(&self) -> BindingParamsV {
        match self {
            BindingParams::Text(n, s) => BindingParamsV::Text(*n, *s),
            BindingParams::Visibility(p, n, v) => BindingParamsV::Visibility(*p, *n, *v),
            BindingParams::Attribute(n, k, s) => BindingParamsV::Attribute(*n, k@, *s),
            BindingParams::Tag(n, k) => BindingParamsV::Tag(*n, k@),
            BindingParams::Repeat(p, s, c) => BindingParamsV::Repeat(*p, *s, *c),
        }
    }
}

pub struct BindingV {
    pub params: BindingParamsV,
    pub pipe: Seq<Seq<char>>,
}

impl View for Binding {
    type V = BindingV;

    open spec fn view(&self) -> BindingV {
        BindingV { params: self.params@, pipe: views(self.pipe@) }
    }
}

/// What the view does for a changed value.
#[derive(Debug, PartialEq)]
pub enum Reaction {
    Type { node: usize, span: usize, text: String },
    Reattach { parent: usize, node: usize, visible: bool },
    Repeat { parent: usize, start: usize, cursor: usize, end: usize },
    Tag { node: usize, key: String, tag: bool },
    Bind { node: usize, key: String, span: usize, text: String },
}

pub enum ReactionV {
    Type { node: usize, span: usize, text: Seq<char> },
    Reattach { parent: usize, node: usize, visible: bool },
    Repeat { parent: usize, start: usize, cursor: usize, end: usize },
    Tag { node: usize, key: Seq<char>, tag: bool },
    Bind { node: usize, key: Seq<char>, span: usize, text: Seq<char> },
}

impl View for Reaction {
    type V = ReactionV;

    open spec fn view(&self) -> ReactionV {
        match self {
            Reaction::Type { node, span, text } => ReactionV::Type { node: *node, span: *span, text: text@ },
            Reaction::Reattach { parent, node, visible } => ReactionV::Reattach { parent: *parent, node: *node, visible: *visible },
            Reaction::Repeat { parent, start, cursor, end } => ReactionV::Repeat { parent: *parent, start: *start, cursor: *cursor, end: *end },
            Reaction::Tag { node, key, tag } => ReactionV::Tag { node: *node, key: key@, tag: *tag },
            Reaction::Bind { node, key, span, text } => ReactionV::Bind { node: *node, key: key@, span: *span, text: text@ },
        }
    }
}

/// The text of a value: nothing for null, `true` or `false`, a number as JSON writes it,
/// a string itself, `[array]` and `{object}` for the others.
pub open spec fn value_text(v: JsonV) -> Seq<char> {
    match v {
        JsonV::Null => Seq::empty(),
        JsonV::Bool(b) => if b { seq!['t', 'r', 'u', 'e'] } else { seq!['f', 'a', 'l', 's', 'e'] },
        JsonV::Number(n) => match n {
            JsonNumberV::PosInt(u) => decimal_text(u as nat),
            JsonNumberV::NegInt(i) => if i < 0 { seq!['-'] + decimal_text((-i) as nat) } else { decimal_text(i as nat) },
            JsonNumberV::Float(t) => t,
        },
        JsonV::Str(s) => s,
        JsonV::Array(_) => seq!['[', 'a', 'r', 'r', 'a', 'y', ']'],
        JsonV::Object(_) => seq!['{', 'o', 'b', 'j', 'e', 'c', 't', '}'],
    }
}

/// The text that JSON writes for a float zero.
pub open spec fn zero_float_text() -> Seq<char> {
    seq!['0', '.', '0']
}

/// The truth of a value: null is false, a number is true where it is not zero, a string
/// or an array where it is not empty, an object always.
pub open spec fn truthy(v: JsonV) -> bool {
    match v {
        JsonV::Null => false,
        JsonV::Bool(b) => b,
        JsonV::Number(n) => match n {
            JsonNumberV::PosInt(u) => u != 0,
            JsonNumberV::NegInt(i) => i != 0,
            JsonNumberV::Float(t) => t != zero_float_text(),
        },
        JsonV::Str(s) => s.len() > 0,
        JsonV::Array(items) => items.len() > 0,
        JsonV::Object(_) => true,
    }
}

/// The reaction of a binding to the value `v`; a repetition shows as many items as the
/// array has, `size` at most, and none where the value is no array.
pub open spec fn reaction_of(params: BindingParams, v: JsonV) -> ReactionV {
    match params {
        BindingParams::Visibility(parent, node, visible) => ReactionV::Reattach { parent, node, visible: truthy(v) == visible },
        BindingParams::Tag(node, key) => ReactionV::Tag { node, key: key@, tag: truthy(v) },
        BindingParams::Attribute(node, key, span) => ReactionV::Bind { node, key: key@, span, text: value_text(v) },
        BindingParams::Text(node, span) => ReactionV::Type { node, span, text: value_text(v) },
        BindingParams::Repeat(parent, start, size) => {
            let count = match v {
                JsonV::Array(items) => if items.len() > size { size as int } else { items.len() as int },
                _ => 0,
            };
            ReactionV::Repeat { parent, start, cursor: (start + count) as usize, end: (start + size) as usize }
        },
    }
}

/// Whether a binding can react at all: a repetition ends within `usize`.
pub open spec fn reacts(params: BindingParams) -> bool {
    match params {
        BindingParams::Repeat(_, start, size) => start + size <= usize::MAX,
        _ => true,
    }
}

/// The text of a value, see [`value_text`].
pub fn eval_string(value: &Json) -> (r: String)
    ensures
        r@ == value_text(value@),
{
    proof {
        lemma_json_view(*value);
    }
    let mut r = String::new();
    match value {
        Json::Null => {},
        Json::Bool(b) => {
            if *b {
                let t = "true";
                proof {
                    reveal_strlit("true");
                }
                push_all(&mut r, t);
            } else {
                let t = "false";
                proof {
                    reveal_strlit("false");
                }
                push_all(&mut r, t);
            }
        },
        Json::Number(n) => match n {
            JsonNumber::PosInt(u) => {
                push_decimal(&mut r, *u);
            },
            JsonNumber::NegInt(i) => {
                if *i < 0 {
                    push_char(&mut r, '-');
                    let m: u64 = if *i == i64::MIN { 9223372036854775808u64 } else { (-*i) as u64 };
                    push_decimal(&mut r, m);
                } else {
                    push_decimal(&mut r, *i as u64);
                }
            },
            JsonNumber::Float(t) => {
                push_all(&mut r, t.as_str());
            },
        },
        Json::Str(s) => {
            push_all(&mut r, s.as_str());
        },
        Json::Array(_) => {
            let t = "[array]";
            proof {
                reveal_strlit("[array]");
            }
            push_all(&mut r, t);
        },
        Json::Object(_) => {
            let t = "{object}";
            proof {
                reveal_strlit("{object}");
            }
            push_all(&mut r, t);
        },
    }
    proof {
        assert(r@ =~= value_text(value@));
    }
    r
}

/// The truth of a value, see [`truthy`].
pub fn eval_boolean(value: &Json) -> (r: bool)
    ensures
        r == truthy(value@),
{
    proof {
        lemma_json_view(*value);
    }
    match value {
        Json::Null => false,
        Json::Bool(b) => *b,
        Json::Number(n) => match n {
            JsonNumber::PosInt(u) => *u != 0,
            JsonNumber::NegInt(i) => *i != 0,
            JsonNumber::Float(t) => {
                let zero = "0.0";
                proof {
                    reveal_strlit("0.0");
                    assert(zero@ =~= zero_float_text());
                }
                !crate::text::str_eq(t.as_str(), zero)
            },
        },
        Json::Str(s) => {
            let cs = crate::text::chars_of(s.as_str());
            cs.len() > 0
        },
        Json::Array(items) => {
            proof {
                assert(views(items@).len() == items@.len());
            }
            items.len() > 0
        },
        Json::Object(_) => true,
    }
}

impl Binding {
    /// The reaction of this binding to the value `value`, see [`reaction_of`].
    pub fn react_value_change(&self, value: &Json) -> (r: Reaction)
        requires
            reacts(self.params),
        ensures
            r@ == reaction_of(self.params, value@),
    {
        proof {
            lemma_json_view(*value);
        }
        match &self.params {
            BindingParams::Visibility(parent, node, visible) => {
                Reaction::Reattach { parent: *parent, node: *node, visible: eval_boolean(value) == *visible }
            },
            BindingParams::Tag(node, key) => Reaction::Tag { node: *node, key: key.clone(), tag: eval_boolean(value) },
            BindingParams::Attribute(node, key, span) => {
                Reaction::Bind { node: *node, key: key.clone(), span: *span, text: eval_string(value) }
            },
            BindingParams::Text(node, span) => Reaction::Type { node: *node, span: *span, text: eval_string(value) },
            BindingParams::Repeat(parent, start, size) => {
                let count: usize = match value {
                    Json::Array(items) => {
                        proof {
                            assert(views(items@).len() == items@.len());
                        }
                        if items.len() > *size {
                            *size
                        } else {
                            items.len()
                        }
                    },
                    _ => 0,
                };
                Reaction::Repeat { parent: *parent, start: *start, cursor: *start + count, end: *start + *size }
            },
        }
    }
}

/// The values of a handler's arguments, `None` for one that could not be had.
pub open spec fn argument_views(args: Seq<Option<Json>>) -> Seq<Option<JsonV>> {
    Seq::new(args.len(), |i: int| match args[i] {
        Some(v) => Some(v@),
        None => None,
    })
}

/// The arguments after the first that could be had, in order.
pub open spec fn message_arguments(args: Seq<Option<JsonV>>) -> Seq<JsonV>
    decreases args.len(),
{
    if args.len() <= 1 {
        Seq::empty()
    } else {
        let rest = message_arguments(args.drop_last());
        match args.last() {
            Some(v) => rest.push(v),
            None => rest,
        }
    }
}

pub open spec fn undefined_key() -> Seq<char> {
    seq!['U', 'n', 'd', 'e', 'f', 'i', 'n', 'e', 'd']
}

/// The message of a handler call: its key is the text of the first argument (`Undefined`
/// where it could not be had); with no further argument the message is the key, with one
/// an object of the key and that argument, with more an object of the key and the array
/// of them.
pub open spec fn message_of(args: Seq<Option<JsonV>>) -> JsonV {
    let key = if args.len() > 0 && args[0] is Some { value_text(args[0].unwrap()) } else { undefined_key() };
    let rest = message_arguments(args);
    if rest.len() == 0 {
        JsonV::Str(key)
    } else if rest.len() == 1 {
        JsonV::Object(seq![(key, rest[0])])
    } else {
        JsonV::Object(seq![(key, JsonV::Array(rest))])
    }
}

/// The message of a handler call from the values of its arguments, see [`message_of`].
pub fn handler_message(arguments: &Vec<Option<Json>>) -> (r: Json)
    ensures
        r@ == message_of(argument_views(arguments@)),
{
    let ghost args = argument_views(arguments@);
    let mut key = String::new();
    let mut found = false;
    if arguments.len() > 0 {
        match &arguments[0] {
            Some(v) => {
                key = eval_string(v);
                found = true;
            },
            None => {},
        }
    }
    if !found {
        let t = "Undefined";
        proof {
            reveal_strlit("Undefined");
        }
        push_all(&mut key, t);
    }
    let mut rest: Vec<Json> = Vec::new();
    let mut k: usize = 1;
    proof {
        if arguments@.len() > 0 {
            assert(views(rest@) =~= message_arguments(args.subrange(0, 1)));
        }
    }
    while k < arguments.len()
        invariant
            args == argument_views(arguments@),
            1 <= k <= arguments@.len() || arguments@.len() == 0,
            arguments@.len() > 0 ==> views(rest@) == message_arguments(args.subrange(0, k as int)),
            arguments@.len() == 0 ==> rest@.len() == 0,
        decreases arguments@.len() - k,
    {
        let ghost before = rest@;
        match &arguments[k] {
            Some(v) => {
                let c = crate::view::model::json_clone(v);
                rest.push(c);
                proof {
                    lemma_views_push(before, c);
                }
            },
            None => {},
        }
        proof {
            assert(args.subrange(0, k + 1).drop_last() =~= args.subrange(0, k as int));
        }
        k = k + 1;
    }
    proof {
        if arguments@.len() > 0 {
            assert(args.subrange(0, arguments@.len() as int) =~= args);
        } else {
            assert(views(rest@) =~= message_arguments(args));
        }
        assert(views(rest@) == message_arguments(args));
        assert(key@ == (if args.len() > 0 && args[0] is Some { value_text(args[0].unwrap()) } else { undefined_key() }));
    }
    if rest.len() == 0 {
        let r = Json::Str(key);
        proof {
            lemma_json_view(r);
        }
        r
    } else if rest.len() == 1 {
        let v = rest.pop().unwrap();
        let mut fields: Vec<(String, Json)> = Vec::new();
        fields.push((key, v));
        let r = Json::Object(fields);
        proof {
            lemma_json_view(r);
            assert(crate::view::model::entries_view(fields@) =~= seq![(key@, v@)]);
        }
        r
    } else {
        let items = Json::Array(rest);
        proof {
            lemma_json_view(items);
        }
        let mut fields: Vec<(String, Json)> = Vec::new();
        fields.push((key, items));
        let r = Json::Object(fields);
        proof {
            lemma_json_view(r);
            assert(crate::view::model::entries_view(fields@) =~= seq![(key@, items@)]);
        }
        r
    }
}

pub open spec fn style_name() -> Seq<char> {
    seq!['s', 't', 'y', 'l', 'e']
}

/// A bound attribute whose value changed: the span `span` of its text takes `text` (a
/// span past the last changes nothing); its value is the text of all its spans; a `style`
/// attribute's declarations are read again from that value. The result is the value.
pub fn rebind_attribute(key: &str, content: &mut TextContent, span: usize, text: String, style: &mut Vec<Declaration>) -> (value: String)
    ensures
        final(content)@ == (if span < old(content)@.len() { old(content)@.update(span as int, text@) } else { old(content)@ }),
        value@ == trim(joined(final(content)@, Seq::empty())),
        key@ == style_name() ==> views(final(style)@) == sp_declarations(value@, 0).0,
        key@ != style_name() ==> final(style)@ == old(style)@,
{
    content.set(span, text);
    let value = content.to_string();
    let name = "style";
    proof {
        reveal_strlit("style");
        assert(name@ =~= style_name());
    }
    if crate::text::str_eq(key, name) {
        match read_inline_css(value.as_str()) {
            Ok(declarations) => {
                *style = declarations;
            },
            Err(_) => {},
        }
    }
    value
}

} // verus!
