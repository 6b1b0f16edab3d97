//! What a listener sends when its event happens: the value of each of its arguments
//! (read from the model by pointer where it is bound) and the message made of them.
use vstd::prelude::*;
use crate::html::{unescape_token, unescaped};
use crate::lexer::{digits_usize, digits_value, in_class, views, CharClass};
use crate::text::{ascii_digit, chars_of, str_eq};
use crate::view::binding::{argument_views, handler_message, message_of};
use crate::view::model::{entries_view, find_entry, first_entry, json_clone, lemma_json_view, Json, JsonV};
use crate::view::parts::{pairs, Listener, ListenerArgument};
use crate::view::schema::{all_digits, digits_value_fits, pointer_pieces, split_slashes};

verus! {

/// The array index that a reference token writes: decimal digits, one at least, with no
/// leading zero but in `0` itself, of a value that fits `usize`.
pub open spec fn array_index(t: Seq<char>) -> Option<nat> {
    if t.len() > 0 && all_digits(t) && !(t[0] == '0' && t.len() > 1) && digits_value_fits(t) {
        Some(digits_value(t))
    } else {
        None
    }
}

/// The value below `v` that the reference tokens lead to: a member of an object by the
/// name that the token writes, an item of an array by its index.
pub open spec fn value_at(v: JsonV, tokens: Seq<Seq<char>>) -> Option<JsonV>
    decreases tokens.len(),
{
    if tokens.len() == 0 {
        Some(v)
    } else {
        let rest = tokens.subrange(1, tokens.len() as int);
        match v {
            JsonV::Object(fields) => match first_entry(fields, unescaped(tokens[0]), 0) {
                Some(j) => if 0 <= j < fields.len() {
                    value_at(fields[j].1, rest)
                } else {
                    None
                },
                None => None,
            },
            JsonV::Array(items) => match array_index(tokens[0]) {
                Some(i) => if i < items.len() {
                    value_at(items[i as int], rest)
                } else {
                    None
                },
                None => None,
            },
            _ => None,
        }
    }
}

/// The value of `v` at a JSON pointer: `v` itself for the empty pointer; none for a
/// pointer that does not start with `/` or leads nowhere.
pub open spec fn pointer_value(v: JsonV, pointer: Seq<char>) -> Option<JsonV> {
    if pointer.len() == 0 {
        Some(v)
    } else if pointer[0] != '/' {
        None
    } else {
        value_at(v, pointer_pieces(pointer))
    }
}

fn array_index_of(t: &str) -> (r: Option<usize>)
    ensures
        match array_index(t@) {
            Some(i) => r matches Some(k) && k as nat == i,
            None => r is None,
        },
{
    let cs = chars_of(t);
    if cs.len() == 0 || (cs[0] == '0' && cs.len() > 1) {
        return None;
    }
    let mut k: usize = 0;
    while k < cs.len()
        invariant
            cs@ == t@,
            k <= cs@.len(),
            forall|j: int| 0 <= j < k ==> in_class(#[trigger] cs@[j], CharClass::Digit),
        decreases cs@.len() - k,
    {
        if !ascii_digit(cs[k]) {
            return None;
        }
        k = k + 1;
    }
    assert(cs@.subrange(0, cs@.len() as int) =~= cs@);
    digits_usize(cs.as_slice(), 0, cs.len())
}

/// The value of `model` at `pointer`, see [`pointer_value`].
pub fn value_at_pointer(model: &Json, pointer: &str) -> (r: Option<Json>)
    ensures
        match pointer_value(model@, pointer@) {
            Some(v) => r matches Some(x) && x@ == v,
            None => r is None,
        },
{
    let cs = chars_of(pointer);
    if cs.len() == 0 {
        return Some(json_clone(model));
    }
    if cs[0] != '/' {
        return None;
    }
    assert(pointer@[0] == cs@[0]);
    assert(pointer_value(model@, pointer@) == value_at(model@, pointer_pieces(pointer@)));
    let pieces = split_slashes(pointer);
    let ghost tokens = pointer_pieces(pointer@);
    proof {
        crate::view::schema::lemma_slash_pieces_len(pointer@);
        assert(views(pieces@).subrange(1, pieces@.len() as int) =~= tokens);
    }
    let mut cur: &Json = model;
    let mut k: usize = 1;
    while k < pieces.len()
        invariant
            1 <= k <= pieces@.len(),
            tokens == views(pieces@).subrange(1, pieces@.len() as int),
            pointer_value(model@, pointer@) == value_at(model@, tokens),
            value_at(model@, tokens) == value_at(cur@, views(pieces@).subrange(k as int, pieces@.len() as int)),
        decreases pieces@.len() - k,
    {
        let ghost here = views(pieces@).subrange(k as int, pieces@.len() as int);
        proof {
            lemma_json_view(*cur);
            assert(views(pieces@).len() == pieces@.len());
            assert(here.len() > 0);
            assert(here[0] == pieces@[k as int]@);
            assert(here.subrange(1, here.len() as int) =~= views(pieces@).subrange(k + 1, pieces@.len() as int));
        }
        let t = pieces[k].as_str();
        match cur {
            Json::Object(fields) => {
                let name = unescape_token(t);
                match find_entry(fields, name.as_str()) {
                    Some(j) => {
                        proof {
                            assert(entries_view(fields@)[j as int].1 == fields@[j as int].1@);
                        }
                        cur = &fields[j].1;
                    },
                    None => {
                        proof {
                            assert(cur@ == JsonV::Object(entries_view(fields@)));
                            assert(name@ == unescaped(here[0]));
                            assert(value_at(cur@, here) is None);
                        }
                        return None;
                    },
                }
            },
            Json::Array(items) => match array_index_of(t) {
                Some(i) => {
                    if i < items.len() {
                        proof {
                            assert(views(items@)[i as int] == items@[i as int]@);
                        }
                        cur = &items[i];
                    } else {
                        proof {
                            assert(views(items@).len() == items@.len());
                            assert(cur@ == JsonV::Array(views(items@)));
                            assert(value_at(cur@, here) is None);
                        }
                        return None;
                    }
                },
                None => return None,
            },
            _ => return None,
        }
        k = k + 1;
    }
    assert(views(pieces@).subrange(k as int, pieces@.len() as int) =~= Seq::<Seq<char>>::empty());
    Some(json_clone(cur))
}


/// The value `val` of a listener's argument, with `event` the value of the event (none
/// where it could not be had): a keyword is its text; the event is its value; a pointer
/// is the value of the model there (none where there is none), passed through `transform`
/// where the argument has a pipe.
pub open spec fn argument_evaluates<F: Fn(&Vec<String>, &Json) -> Json>(
    transform: F,
    a: ListenerArgument,
    model: JsonV,
    event: Option<JsonV>,
    val: Option<JsonV>,
) -> bool {
    match a {
        ListenerArgument::Keyword(k) => val == Some(JsonV::Str(k@)),
        ListenerArgument::Event => val == event,
        ListenerArgument::Pointer(p, pipe) => match pointer_value(model, p@) {
            None => val is None,
            Some(v) => if pipe@.len() == 0 {
                val == Some(v)
            } else {
                exists|x: Json, w: Json| x@ == v && #[trigger] call_ensures(transform, (&pipe, &x), w) && val == Some(w@)
            },
        },
    }
}

/// Whether `vals` are the values of the arguments `args`, one each, in order.
pub open spec fn arguments_evaluate<F: Fn(&Vec<String>, &Json) -> Json>(
    transform: F,
    args: Seq<ListenerArgument>,
    model: JsonV,
    event: Option<JsonV>,
    vals: Seq<Option<JsonV>>,
) -> bool {
    &&& vals.len() == args.len()
    &&& forall|i: int| 0 <= i < args.len() ==> argument_evaluates(transform, #[trigger] args[i], model, event, vals[i])
}

pub open spec fn option_view(o: Option<Json>) -> Option<JsonV> {
    match o {
        Some(v) => Some(v@),
        None => None,
    }
}

fn evaluate_argument<F: Fn(&Vec<String>, &Json) -> Json>(a: &ListenerArgument, model: &Json, event: &Option<Json>, transform: &F) -> (r: Option<Json>)
    requires
        forall|p: Vec<String>, v: Json| #[trigger] transform.requires((&p, &v)),
    ensures
        argument_evaluates(*transform, *a, model@, option_view(*event), option_view(r)),
{
    match a {
        ListenerArgument::Keyword(k) => {
            let r = Json::Str(k.clone());
            proof {
                lemma_json_view(r);
            }
            Some(r)
        },
        ListenerArgument::Event => match event {
            Some(e) => Some(json_clone(e)),
            None => None,
        },
        ListenerArgument::Pointer(p, pipe) => match value_at_pointer(model, p.as_str()) {
            None => None,
            Some(x) => {
                if pipe.len() == 0 {
                    Some(x)
                } else {
                    let w = transform(pipe, &x);
                    Some(w)
                }
            },
        },
    }
}

/// The message that the listener of `handler` sends, see [`message_of`]: none where the
/// element has no listener of that name. `transform` runs the transformers of a pipe.
pub fn emit<F: Fn(&Vec<String>, &Json) -> Json>(
    listeners: &Vec<(String, Listener)>,
    handler: &str,
    model: &Json,
    event: &Option<Json>,
    transform: &F,
) -> (r: Option<Json>)
    requires
        forall|p: Vec<String>, v: Json| #[trigger] transform.requires((&p, &v)),
    ensures
        match first_entry(pairs(listeners@), handler@, 0) {
            None => r is None,
            Some(j) => 0 <= j < listeners@.len() && (r matches Some(m) && exists|vals: Seq<Option<JsonV>>|
                arguments_evaluate(*transform, listeners@[j].1.arguments@, model@, option_view(*event), vals)
                && m@ == message_of(vals)),
        },
{
    let ghost ps = pairs(listeners@);
    let mut k: usize = 0;
    while k < listeners.len()
        invariant
            k <= listeners@.len(),
            ps == pairs(listeners@),
            first_entry(ps, handler@, 0) == first_entry(ps, handler@, k as int),
            forall|p: Vec<String>, v: Json| #[trigger] transform.requires((&p, &v)),
        decreases listeners@.len() - k,
    {
        assert(ps[k as int].0 == listeners@[k as int].0@);
        if str_eq(listeners[k].0.as_str(), handler) {
            let args = &listeners[k].1.arguments;
            let mut values: Vec<Option<Json>> = Vec::new();
            let mut i: usize = 0;
            while i < args.len()
                invariant
                    i <= args@.len(),
                    values@.len() == i,
                    forall|p: Vec<String>, v: Json| #[trigger] transform.requires((&p, &v)),
                    forall|m: int| 0 <= m < i ==> argument_evaluates(*transform, #[trigger] args@[m], model@, option_view(*event), argument_views(values@)[m]),
                decreases args@.len() - i,
            {
                let v = evaluate_argument(&args[i], model, event, transform);
                let ghost before = values@;
                values.push(v);
                proof {
                    assert forall|m: int| 0 <= m < i + 1 implies argument_evaluates(*transform, #[trigger] args@[m], model@, option_view(*event), argument_views(values@)[m]) by {
                        if m < i {
                            assert(values@[m] == before[m]);
                        } else {
                            assert(values@[m] == v);
                        }
                    }
                }
                i = i + 1;
            }
            let m = handler_message(&values);
            proof {
                assert(arguments_evaluate(*transform, args@, model@, option_view(*event), argument_views(values@)));
            }
            return Some(m);
        }
        k = k + 1;
    }
    None
}

} // verus!
