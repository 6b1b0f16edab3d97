//! The schema of a view model: the JSON value that holds a place for every value that a
//! view binds, built while the view is rendered.
use vstd::prelude::*;
use crate::html::{json_pointer, locals_view, unescape_token, unescaped, Binder};
use crate::lexer::{digits_usize, in_class, lemma_views_push, views, CharClass};
use crate::text::{ascii_digit, chars_of, push_all, push_char, str_eq};
use crate::view::model::{
    child_path, decimal_text, entries_view, first_entry, json_clone, lemma_json_view, push_decimal,
    resized, Json, JsonV,
};

verus! {

/// The pieces of `s` between its slashes, in order (`str::split('/')`).
pub open spec fn slash_pieces(s: Seq<char>) -> Seq<Seq<char>>
    decreases s.len(),
{
    if s.len() == 0 {
        seq![Seq::<char>::empty()]
    } else {
        let p = slash_pieces(s.drop_last());
        if s.last() == '/' {
            p.push(Seq::<char>::empty())
        } else {
            p.update(p.len() - 1, p.last().push(s.last()))
        }
    }
}

/// The reference tokens of a pointer: the pieces after the first.
pub open spec fn pointer_pieces(pointer: Seq<char>) -> Seq<Seq<char>> {
    slash_pieces(pointer).subrange(1, slash_pieces(pointer).len() as int)
}

/// The index that a token writes (`usize::from_str`): an optional `+`, then decimal
/// digits, one at least, of a value that fits `usize`.
pub open spec fn parse_index(t: Seq<char>) -> Option<nat> {
    let d = index_digits(t);
    if d.len() > 0 && all_digits(d) && digits_value_fits(d) {
        Some(crate::lexer::digits_value(d))
    } else {
        None
    }
}

/// A token without its leading `+`, if it has one.
pub open spec fn index_digits(t: Seq<char>) -> Seq<char> {
    if t.len() > 0 && t[0] == '+' { t.subrange(1, t.len() as int) } else { t }
}

pub open spec fn all_digits(d: Seq<char>) -> bool {
    forall|i: int| 0 <= i < d.len() ==> in_class(#[trigger] d[i], CharClass::Digit)
}

pub open spec fn digits_value_fits(d: Seq<char>) -> bool {
    crate::lexer::digits_value(d) <= usize::MAX
}

/// The value with a place made for the value at `tokens`: where a token writes an index
/// the value becomes an array (if it is none) long enough to have it, filled up with
/// nulls; otherwise an object (if it is none) with the member of the name that the token
/// writes (see [`unescaped`]), null where it was missing; then the same below.
pub open spec fn defined(v: JsonV, tokens: Seq<Seq<char>>) -> JsonV
    decreases tokens.len(),
{
    if tokens.len() == 0 {
        v
    } else {
        let t = tokens[0];
        let rest = tokens.subrange(1, tokens.len() as int);
        match parse_index(t) {
            Some(i) => {
                let items = match v {
                    JsonV::Array(items) => items,
                    _ => Seq::<JsonV>::empty(),
                };
                let items2 = if items.len() <= i { resized(items, i + 1, JsonV::Null) } else { items };
                JsonV::Array(items2.update(i as int, defined(items2[i as int], rest)))
            },
            None => {
                let fields = match v {
                    JsonV::Object(fields) => fields,
                    _ => Seq::<(Seq<char>, JsonV)>::empty(),
                };
                let name = unescaped(t);
                let fields2 = if first_entry(fields, name, 0) is Some { fields } else { fields.push((name, JsonV::Null)) };
                match first_entry(fields2, name, 0) {
                    Some(j) => if 0 <= j < fields2.len() {
                        JsonV::Object(fields2.update(j, (name, defined(fields2[j].1, rest))))
                    } else {
                        JsonV::Object(fields2)
                    },
                    None => JsonV::Object(fields2),
                }
            },
        }
    }
}

/// The pointer of the value itself, which needs no place.
pub open spec fn this_pointer() -> Seq<char> {
    seq!['/', 't', 'h', 'i', 's']
}

/// The schema value after a place was made for the value at `pointer`.
pub open spec fn with_place(v: JsonV, pointer: Seq<char>) -> JsonV {
    if pointer == this_pointer() {
        v
    } else {
        defined(v, pointer_pieces(pointer))
    }
}

/// Whether no token of a pointer writes the largest index, which has no place after it.
pub open spec fn indexes_fit(pointer: Seq<char>) -> bool {
    forall|i: int| 0 <= i < pointer_pieces(pointer).len() ==> parse_index(#[trigger] pointer_pieces(pointer)[i]) != Some(usize::MAX as nat)
}

pub(crate) proof fn lemma_slash_pieces_len(s: Seq<char>)
    ensures
        slash_pieces(s).len() >= 1,
    decreases s.len(),
{
    if s.len() > 0 {
        lemma_slash_pieces_len(s.drop_last());
    }
}

pub(crate) fn split_slashes(s: &str) -> (r: Vec<String>)
    ensures
        views(r@) == slash_pieces(s@),
{
    let cs = chars_of(s);
    let mut pieces: Vec<String> = Vec::new();
    let mut cur = String::new();
    let mut k: usize = 0;
    proof {
        assert(cs@.subrange(0, 0) =~= Seq::<char>::empty());
        assert(views(pieces@).push(cur@) =~= slash_pieces(Seq::<char>::empty()));
    }
    while k < cs.len()
        invariant
            cs@ == s@,
            k <= cs@.len(),
            views(pieces@).push(cur@) == slash_pieces(cs@.subrange(0, k as int)),
        decreases cs@.len() - k,
    {
        let c = cs[k];
        let ghost before = views(pieces@).push(cur@);
        proof {
            assert(cs@.subrange(0, k + 1).drop_last() =~= cs@.subrange(0, k as int));
        }
        if c == '/' {
            let done = cur;
            let ghost old_pieces = pieces@;
            pieces.push(done);
            cur = String::new();
            proof {
                lemma_views_push(old_pieces, done);
                assert(views(pieces@).push(cur@) =~= before.push(Seq::<char>::empty()));
            }
        } else {
            push_char(&mut cur, c);
            proof {
                assert(views(pieces@).push(cur@) =~= before.update(before.len() - 1, before.last().push(c)));
            }
        }
        k = k + 1;
    }
    let ghost old_pieces = pieces@;
    pieces.push(cur);
    proof {
        lemma_views_push(old_pieces, cur);
        assert(cs@.subrange(0, cs@.len() as int) =~= cs@);
    }
    pieces
}

fn parse_token(t: &str) -> (r: Option<usize>)
    ensures
        match parse_index(t@) {
            Some(i) => r matches Some(k) && k as nat == i,
            None => r is None,
        },
{
    let cs = chars_of(t);
    let start: usize = if cs.len() > 0 && cs[0] == '+' { 1 } else { 0 };
    let ghost d = index_digits(t@);
    proof {
        assert(d =~= cs@.subrange(start as int, cs@.len() as int));
    }
    if start >= cs.len() {
        return None;
    }
    let mut k = start;
    while k < cs.len()
        invariant
            cs@ == t@,
            d == cs@.subrange(start as int, cs@.len() as int),
            d == index_digits(t@),
            start <= k <= cs@.len(),
            forall|j: int| start <= j < k ==> in_class(#[trigger] cs@[j], CharClass::Digit),
        decreases cs@.len() - k,
    {
        if !ascii_digit(cs[k]) {
            proof {
                assert(d[k - start] == cs@[k as int]);
                assert(!in_class(d[k - start], CharClass::Digit));
            }
            return None;
        }
        k = k + 1;
    }
    proof {
        assert forall|i: int| 0 <= i < d.len() implies in_class(#[trigger] d[i], CharClass::Digit) by {
            assert(d[i] == cs@[start + i]);
        }
    }
    digits_usize(cs.as_slice(), start, cs.len())
}

/// Makes a place in `v` for the value at `tokens[i..]`, see [`defined`].
fn define_owned(v: Json, tokens: &Vec<String>, i: usize) -> (r: Json)
    requires
        i <= tokens@.len(),
        forall|j: int| i <= j < tokens@.len() ==> parse_index(#[trigger] tokens@[j]@) != Some(usize::MAX as nat),
    ensures
        r@ == defined(v@, views(tokens@).subrange(i as int, tokens@.len() as int)),
    decreases tokens@.len() - i,
{
    let ghost toks = views(tokens@).subrange(i as int, tokens@.len() as int);
    if i >= tokens.len() {
        return v;
    }
    proof {
        lemma_json_view(v);
        assert(toks[0] == tokens@[i as int]@);
        assert(toks.subrange(1, toks.len() as int) =~= views(tokens@).subrange(i + 1, tokens@.len() as int));
    }
    let t = tokens[i].as_str();
    match parse_token(t) {
        Some(index) => {
            let mut items: Vec<Json> = match v {
                Json::Array(items) => items,
                _ => Vec::new(),
            };
            let ghost before = views(items@);
            proof {
                assert(views(Seq::<Json>::empty()) =~= Seq::<JsonV>::empty());
            }
            if items.len() <= index {
                while items.len() <= index
                    invariant
                        before.len() <= items@.len() <= index + 1,
                        views(items@) =~= resized(before, items@.len(), JsonV::Null),
                    decreases index + 1 - items@.len(),
                {
                    let ghost prev = items@;
                    items.push(Json::Null);
                    proof {
                        lemma_views_push(prev, Json::Null);
                        lemma_json_view(Json::Null);
                        assert(views(items@) =~= resized(before, items@.len(), JsonV::Null));
                    }
                }
            }
            let ghost items2 = views(items@);
            let item = json_clone(&items[index]);
            let placed = define_owned(item, tokens, i + 1);
            let ghost prev = items@;
            items.set(index, placed);
            proof {
                assert(views(items@) =~= items2.update(index as int, placed@));
            }
            let r = Json::Array(items);
            proof {
                lemma_json_view(r);
            }
            r
        },
        None => {
            let mut fields: Vec<(String, Json)> = match v {
                Json::Object(fields) => fields,
                _ => Vec::new(),
            };
            proof {
                assert(entries_view(Seq::<(String, Json)>::empty()) =~= Seq::<(Seq<char>, JsonV)>::empty());
            }
            let ghost f1 = entries_view(fields@);
            let name = unescape_token(t);
            if crate::view::model::find_entry(&fields, name.as_str()).is_none() {
                let mut key = String::new();
                push_all(&mut key, name.as_str());
                fields.push((key, Json::Null));
                proof {
                    lemma_json_view(Json::Null);
                    assert(entries_view(fields@) =~= f1.push((name@, JsonV::Null)));
                }
            }
            let ghost f2 = entries_view(fields@);
            match crate::view::model::find_entry(&fields, name.as_str()) {
                Some(j) => {
                    let item = json_clone(&fields[j].1);
                    let placed = define_owned(item, tokens, i + 1);
                    let mut key = String::new();
                    push_all(&mut key, name.as_str());
                    fields.set(j, (key, placed));
                    proof {
                        assert(entries_view(fields@) =~= f2.update(j as int, (name@, placed@)));
                    }
                },
                None => {},
            }
            let r = Json::Object(fields);
            proof {
                lemma_json_view(r);
            }
            r
        },
    }
}

/// Makes a place in `target` for the value at `pointer`, see [`with_place`].
pub fn define_value(target: &mut Json, pointer: &str)
    requires
        indexes_fit(pointer@),
    ensures
        final(target)@ == with_place(old(target)@, pointer@),
{
    let this = "/this";
    proof {
        reveal_strlit("/this");
        assert(this@ =~= this_pointer());
    }
    if str_eq(pointer, this) {
        return;
    }
    let pieces = split_slashes(pointer);
    proof {
        lemma_slash_pieces_len(pointer@);
    }
    let mut taken = Json::Null;
    std::mem::swap(&mut taken, target);
    proof {
        assert(views(pieces@).subrange(1, pieces@.len() as int) =~= pointer_pieces(pointer@));
        assert forall|j: int| 1 <= j < pieces@.len() implies parse_index(#[trigger] pieces@[j]@) != Some(usize::MAX as nat) by {
            assert(pieces@[j]@ == pointer_pieces(pointer@)[j - 1]);
        }
    }
    if pieces.len() == 0 {
        *target = taken;
        return;
    }
    *target = define_owned(taken, &pieces, 1);
}

/// The schema of a view model, built while the view is rendered.
pub struct Schema {
    pub value: Json,
}

impl Schema {
    /// An empty object.
    pub fn new() -> (s: Self)
        ensures
            s.value@ == JsonV::Object(Seq::empty()),
    {
        let fields: Vec<(String, Json)> = Vec::new();
        let value = Json::Object(fields);
        proof {
            lemma_json_view(value);
            assert(entries_view(fields@) =~= Seq::<(Seq<char>, JsonV)>::empty());
        }
        Schema { value }
    }

    /// The pointer of the value that the binder names, after a place was made for it.
    pub fn field(&mut self, binder: &Binder, locals: &Vec<(String, String)>) -> (r: String)
        requires
            binder@.path.len() > 0,
            indexes_fit(json_pointer(binder@.path, locals_view(locals@))),
        ensures
            r@ == json_pointer(binder@.path, locals_view(locals@)),
            final(self).value@ == with_place(old(self).value@, r@),
    {
        let pointer = binder.to_json_pointer(locals);
        define_value(&mut self.value, pointer.as_str());
        pointer
    }

    /// The pointer of item `i` of the array that the binder names, after a place was made
    /// for it.
    pub fn index(&mut self, binder: &Binder, i: usize, locals: &Vec<(String, String)>) -> (r: String)
        requires
            binder@.path.len() > 0,
            indexes_fit(child_path(json_pointer(binder@.path, locals_view(locals@)), decimal_text(i as nat))),
        ensures
            r@ == child_path(json_pointer(binder@.path, locals_view(locals@)), decimal_text(i as nat)),
            final(self).value@ == with_place(old(self).value@, r@),
    {
        let mut pointer = binder.to_json_pointer(locals);
        let ghost base = pointer@;
        push_char(&mut pointer, '/');
        push_decimal(&mut pointer, i as u64);
        proof {
            assert(pointer@ =~= child_path(base, decimal_text(i as nat)));
        }
        define_value(&mut self.value, pointer.as_str());
        pointer
    }
}

} // verus!
