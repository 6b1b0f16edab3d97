//! The view model: the JSON value that a view is bound to, and what binding a new value
//! onto it changes and which bound paths react to it.
use vstd::prelude::*;
use crate::html::{escaped, push_escaped};
use crate::lexer::{lemma_views_push, views};
use crate::text::{push_all, push_char, str_eq};

verus! {

/// A JSON number as the view model keeps it: a non-negative or negative integer, or a
/// finite float by the text that JSON writes for it, the shortest that reads back as
/// the same float (negative zero is written as zero). Two floats are equal exactly when
/// their texts are.
#[derive(Debug, PartialEq)]
pub enum JsonNumber {
    PosInt(u64),
    NegInt(i64),
    Float(String),
}

/// The mathematical value of a [`JsonNumber`].
pub enum JsonNumberV {
    PosInt(u64),
    NegInt(i64),
    Float(Seq<char>),
}

impl View for JsonNumber {
    type V = JsonNumberV;

    open spec fn view(&self) -> JsonNumberV {
        match self {
            JsonNumber::PosInt(u) => JsonNumberV::PosInt(*u),
            JsonNumber::NegInt(i) => JsonNumberV::NegInt(*i),
            JsonNumber::Float(t) => JsonNumberV::Float(t@),
        }
    }
}

fn number_clone(n: &JsonNumber) -> (r: JsonNumber)
    ensures
        r@ == n@,
{
    match n {
        JsonNumber::PosInt(u) => JsonNumber::PosInt(*u),
        JsonNumber::NegInt(i) => JsonNumber::NegInt(*i),
        JsonNumber::Float(t) => JsonNumber::Float(t.clone()),
    }
}

fn number_equal(a: &JsonNumber, b: &JsonNumber) -> (r: bool)
    ensures
        r == (a@ == b@),
{
    match (a, b) {
        (JsonNumber::PosInt(x), JsonNumber::PosInt(y)) => *x == *y,
        (JsonNumber::NegInt(x), JsonNumber::NegInt(y)) => *x == *y,
        (JsonNumber::Float(x), JsonNumber::Float(y)) => str_eq(x.as_str(), y.as_str()),
        _ => false,
    }
}

/// A JSON value; an object keeps its members in the order in which they are walked.
#[derive(Debug, PartialEq)]
pub enum Json {
    Null,
    Bool(bool),
    Number(JsonNumber),
    Str(String),
    Array(Vec<Json>),
    Object(Vec<(String, Json)>),
}

/// The mathematical value of a [`Json`].
pub enum JsonV {
    Null,
    Bool(bool),
    Number(JsonNumberV),
    Str(Seq<char>),
    Array(Seq<JsonV>),
    Object(Seq<(Seq<char>, JsonV)>),
}

#[verifier::opaque]
pub open spec fn json_view(j: Json) -> JsonV
    decreases j,
{
    match j {
        Json::Null => JsonV::Null,
        Json::Bool(b) => JsonV::Bool(b),
        Json::Number(n) => JsonV::Number(n@),
        Json::Str(s) => JsonV::Str(s@),
        Json::Array(items) => JsonV::Array(
            Seq::new(
                items@.len(),
                |i: int|
                    if 0 <= i < items@.len() {
                        json_view(items@[i])
                    } else {
                        arbitrary()
                    },
            ),
        ),
        Json::Object(fields) => JsonV::Object(
            Seq::new(
                fields@.len(),
                |i: int|
                    if 0 <= i < fields@.len() {
                        (fields@[i].0@, json_view(fields@[i].1))
                    } else {
                        arbitrary()
                    },
            ),
        ),
    }
}

impl View for Json {
    type V = JsonV;

    open spec fn view(&self) -> JsonV {
        json_view(*self)
    }
}

/// Path and value of each entry, as plain values.
pub open spec fn entries_view(s: Seq<(String, Json)>) -> Seq<(Seq<char>, JsonV)> {
    Seq::new(s.len(), |i: int| (s[i].0@, s[i].1@))
}

pub proof fn lemma_json_view(j: Json)
    ensures
        match j {
            Json::Null => j@ == JsonV::Null,
            Json::Bool(b) => j@ == JsonV::Bool(b),
            Json::Number(n) => j@ == JsonV::Number(n@),
            Json::Str(s) => j@ == JsonV::Str(s@),
            Json::Array(items) => j@ == JsonV::Array(views(items@)),
            Json::Object(fields) => j@ == JsonV::Object(entries_view(fields@)),
        },
{
    reveal(json_view);
    match j {
        Json::Array(items) => {
            assert(json_view(j)->Array_0 =~= views(items@));
        },
        Json::Object(fields) => {
            assert(json_view(j)->Object_0 =~= entries_view(fields@));
        },
        _ => {},
    }
}

/// A copy of a JSON value.
pub fn json_clone(j: &Json) -> (r: Json)
    ensures
        r@ == j@,
    decreases j@,
{
    proof {
        lemma_json_view(*j);
    }
    match j {
        Json::Null => {
            proof {
                lemma_json_view(Json::Null);
            }
            Json::Null
        },
        Json::Bool(b) => {
            proof {
                lemma_json_view(Json::Bool(*b));
            }
            Json::Bool(*b)
        },
        Json::Number(n) => {
            let r = Json::Number(number_clone(n));
            proof {
                lemma_json_view(r);
            }
            r
        },
        Json::Str(s) => {
            let r = Json::Str(s.clone());
            proof {
                lemma_json_view(r);
            }
            r
        },
        Json::Array(items) => {
            let mut out: Vec<Json> = Vec::new();
            let mut k: usize = 0;
            while k < items.len()
                invariant
                    k <= items@.len(),
                    j@ == JsonV::Array(views(items@)),
                    out@.len() == k,
                    forall|i: int| 0 <= i < k ==> #[trigger] out@[i]@ == items@[i]@,
                decreases items@.len() - k,
            {
                proof {
                    assert(decreases_to!(j@ => j@->Array_0[k as int]));
                }
                let c = json_clone(&items[k]);
                out.push(c);
                k = k + 1;
            }
            proof {
                let r = Json::Array(out);
                lemma_json_view(r);
                assert(views(out@) =~= views(items@));
            }
            Json::Array(out)
        },
        Json::Object(fields) => {
            let mut out: Vec<(String, Json)> = Vec::new();
            let mut k: usize = 0;
            while k < fields.len()
                invariant
                    k <= fields@.len(),
                    j@ == JsonV::Object(entries_view(fields@)),
                    out@.len() == k,
                    forall|i: int|
                        0 <= i < k ==> (#[trigger] out@[i]).0@ == fields@[i].0@ && out@[i].1@
                            == fields@[i].1@,
                decreases fields@.len() - k,
            {
                proof {
                    assert(decreases_to!(j@ => j@->Object_0[k as int].1));
                }
                let key = fields[k].0.clone();
                let c = json_clone(&fields[k].1);
                out.push((key, c));
                k = k + 1;
            }
            proof {
                let r = Json::Object(out);
                lemma_json_view(r);
                assert(entries_view(out@) =~= entries_view(fields@));
            }
            Json::Object(out)
        },
    }
}

impl Clone for Json {
    fn clone(&self) -> (r: Json)
        ensures
            r@ == self@,
    {
        json_clone(self)
    }
}

/// Whether a value is neither an array nor an object.
pub open spec fn is_scalar(j: JsonV) -> bool {
    !(j is Array) && !(j is Object)
}

/// Whether a value that is neither array nor object equals another value.
fn scalar_equal(a: &Json, b: &Json) -> (r: bool)
    requires
        is_scalar(a@),
    ensures
        r == (a@ == b@),
{
    proof {
        lemma_json_view(*a);
        lemma_json_view(*b);
    }
    match (a, b) {
        (Json::Null, Json::Null) => true,
        (Json::Bool(x), Json::Bool(y)) => *x == *y,
        (Json::Number(x), Json::Number(y)) => number_equal(x, y),
        (Json::Str(x), Json::Str(y)) => str_eq(x.as_str(), y.as_str()),
        _ => false,
    }
}

/// The decimal digit `d`.
pub open spec fn digit_char(d: int) -> char {
    if d == 0 { '0' } else if d == 1 { '1' } else if d == 2 { '2' } else if d == 3 { '3' }
    else if d == 4 { '4' } else if d == 5 { '5' } else if d == 6 { '6' } else if d == 7 { '7' }
    else if d == 8 { '8' } else { '9' }
}

/// `n` written in decimal, without leading zeros.
pub open spec fn decimal_text(n: nat) -> Seq<char>
    decreases n,
{
    if n < 10 {
        seq![digit_char(n as int)]
    } else {
        decimal_text(n / 10).push(digit_char((n % 10) as int))
    }
}

/// The path of a member or an item below `path`: `path`, a slash and `token`.
pub open spec fn child_path(path: Seq<char>, token: Seq<char>) -> Seq<char> {
    path + seq!['/'] + token
}

/// The path of the member `key` below `path`: `path`, a slash and the member's name as
/// a JSON pointer writes it, with `~` as `~0` and `/` as `~1`.
pub open spec fn member_path(path: Seq<char>, key: Seq<char>) -> Seq<char> {
    child_path(path, escaped(key))
}

/// The first entry from `k` on whose path is `key`.
pub open spec fn first_entry<T>(entries: Seq<(Seq<char>, T)>, key: Seq<char>, k: int) -> Option<int>
    decreases entries.len() - k,
{
    if 0 <= k < entries.len() {
        if entries[k].0 == key {
            Some(k)
        } else {
            first_entry(entries, key, k + 1)
        }
    } else {
        None
    }
}

/// A change of the value at `path` reaches the bindings of `path`, if there are any.
pub open spec fn react(path: Seq<char>, value: JsonV, keys: Seq<Seq<char>>, rs: Seq<(Seq<char>, JsonV)>) -> Seq<(Seq<char>, JsonV)> {
    if keys.contains(path) {
        rs.push((path, value))
    } else {
        rs
    }
}

/// `items` made `n` long: cut, or filled up with `fill` (`Vec::resize`).
pub open spec fn resized(items: Seq<JsonV>, n: nat, fill: JsonV) -> Seq<JsonV> {
    Seq::new(n, |i: int| if i < items.len() { items[i] } else { fill })
}

/// The items of an array value after the length of the bound array was taken over, where
/// the array path has a default item; the items as they are where it has none.
pub open spec fn adjusted_items(current: Seq<JsonV>, next: Seq<JsonV>, apath: Seq<char>, defaults: Seq<(Seq<char>, JsonV)>) -> Seq<JsonV> {
    match first_entry(defaults, apath, 0) {
        Some(k) => if current.len() != next.len() && 0 <= k < defaults.len() {
            resized(current, next.len(), defaults[k].1)
        } else {
            current
        },
        None => current,
    }
}

/// Whether binding onto an array changes its length.
pub open spec fn resizes(current: Seq<JsonV>, next: Seq<JsonV>, apath: Seq<char>, defaults: Seq<(Seq<char>, JsonV)>) -> bool {
    current.len() != next.len() && first_entry(defaults, apath, 0) is Some
}

/// Binding "nothing" onto `dst` at `path`: arrays are emptied, the members of objects are
/// bound to nothing one by one, other values become null. The result is whether anything
/// changed, the new value, and the reactions with those of this binding appended.
pub open spec fn bound_null(dst: JsonV, path: Seq<char>, keys: Seq<Seq<char>>, rs: Seq<(Seq<char>, JsonV)>) -> (bool, JsonV, Seq<(Seq<char>, JsonV)>)
    decreases dst, 0int,
{
    match dst {
        JsonV::Array(items) => if items.len() != 0 {
            (true, JsonV::Array(seq![]), react(path, JsonV::Array(seq![]), keys, rs))
        } else {
            (false, dst, rs)
        },
        JsonV::Object(fields) => {
            let r = null_fields(fields, path, keys, rs);
            if r.0 {
                (true, JsonV::Object(r.1), react(path, JsonV::Null, keys, r.2))
            } else {
                (false, JsonV::Object(r.1), r.2)
            }
        },
        JsonV::Null => (false, dst, rs),
        _ => (true, JsonV::Null, react(path, JsonV::Null, keys, rs)),
    }
}

/// The members of an object bound to nothing one by one, see [`bound_null`].
pub open spec fn null_fields(fields: Seq<(Seq<char>, JsonV)>, path: Seq<char>, keys: Seq<Seq<char>>, rs: Seq<(Seq<char>, JsonV)>) -> (bool, Seq<(Seq<char>, JsonV)>, Seq<(Seq<char>, JsonV)>)
    decreases fields, 1int,
{
    if fields.len() > 0 {
        let r = bound_null(fields[0].1, member_path(path, fields[0].0), keys, rs);
        let rest = null_fields(fields.subrange(1, fields.len() as int), path, keys, r.2);
        (r.0 || rest.0, seq![(fields[0].0, r.1)] + rest.1, rest.2)
    } else {
        (false, fields, rs)
    }
}

/// Binding the value `src` onto the model value `dst` at `path`, `apath` being the path
/// without array indexes under which default array items are kept:
/// - onto an array, an array: where the lengths differ and the array path has a default
///   item, the array takes the new length (filled up with the default) and the path
///   reacts with `src`; then each item is bound onto its counterpart at `path/index`;
/// - onto an array, another value: nothing changes;
/// - onto an object, an object: each member is bound onto the member of the same name,
///   or onto nothing where there is none; where anything changed, the path reacts with
///   an empty object;
/// - nothing (null) onto any value: see [`bound_null`];
/// - otherwise: where the values differ, `src` takes the place of `dst` and the path
///   reacts with it.
/// The result is whether anything changed, the new value, and the reactions with those
/// of this binding appended.
pub open spec fn bound(dst: JsonV, src: JsonV, path: Seq<char>, apath: Seq<char>, keys: Seq<Seq<char>>, defaults: Seq<(Seq<char>, JsonV)>, rs: Seq<(Seq<char>, JsonV)>) -> (bool, JsonV, Seq<(Seq<char>, JsonV)>)
    decreases src, 0int,
{
    match src {
        JsonV::Null => bound_null(dst, path, keys, rs),
        JsonV::Array(next) => match dst {
            JsonV::Array(current) => {
                let grow = resizes(current, next, apath, defaults);
                let items = adjusted_items(current, next, apath, defaults);
                let rs0 = if grow { react(path, src, keys, rs) } else { rs };
                let r = bound_items(items, next, 0, path, apath, keys, defaults, rs0);
                (grow || r.0, JsonV::Array(r.1), r.2)
            },
            JsonV::Object(_) => (true, src, react(path, src, keys, rs)),
            _ => if dst == src { (false, dst, rs) } else { (true, src, react(path, src, keys, rs)) },
        },
        JsonV::Object(sfields) => match dst {
            JsonV::Array(_) => (false, dst, rs),
            JsonV::Object(fields) => {
                let r = bound_fields(fields, sfields, path, apath, keys, defaults, rs);
                (r.0, JsonV::Object(r.1), if r.0 { react(path, JsonV::Object(seq![]), keys, r.2) } else { r.2 })
            },
            _ => if dst == src { (false, dst, rs) } else { (true, src, react(path, src, keys, rs)) },
        },
        _ => match dst {
            JsonV::Array(_) => (false, dst, rs),
            _ => if dst == src { (false, dst, rs) } else { (true, src, react(path, src, keys, rs)) },
        },
    }
}

/// The items of an array bound onto their counterparts one by one, the first one being
/// the item at index `i`, see [`bound`].
pub open spec fn bound_items(items: Seq<JsonV>, next: Seq<JsonV>, i: nat, path: Seq<char>, apath: Seq<char>, keys: Seq<Seq<char>>, defaults: Seq<(Seq<char>, JsonV)>, rs: Seq<(Seq<char>, JsonV)>) -> (bool, Seq<JsonV>, Seq<(Seq<char>, JsonV)>)
    decreases next, 1int,
{
    if items.len() > 0 && next.len() > 0 {
        let r = bound(items[0], next[0], child_path(path, decimal_text(i)), apath, keys, defaults, rs);
        let rest = bound_items(items.subrange(1, items.len() as int), next.subrange(1, next.len() as int), i + 1, path, apath, keys, defaults, r.2);
        (r.0 || rest.0, seq![r.1] + rest.1, rest.2)
    } else {
        (false, items, rs)
    }
}

/// The members of an object bound one by one onto the first member of `sfields` of the
/// same name, or onto nothing where there is none, see [`bound`].
pub open spec fn bound_fields(fields: Seq<(Seq<char>, JsonV)>, sfields: Seq<(Seq<char>, JsonV)>, path: Seq<char>, apath: Seq<char>, keys: Seq<Seq<char>>, defaults: Seq<(Seq<char>, JsonV)>, rs: Seq<(Seq<char>, JsonV)>) -> (bool, Seq<(Seq<char>, JsonV)>, Seq<(Seq<char>, JsonV)>)
    decreases sfields, fields.len(),
{
    if fields.len() > 0 {
        let key = fields[0].0;
        let r = match first_entry(sfields, key, 0) {
            Some(j) => if 0 <= j < sfields.len() {
                bound(fields[0].1, sfields[j].1, member_path(path, key), member_path(apath, key), keys, defaults, rs)
            } else {
                bound_null(fields[0].1, member_path(path, key), keys, rs)
            },
            None => bound_null(fields[0].1, member_path(path, key), keys, rs),
        };
        let rest = bound_fields(fields.subrange(1, fields.len() as int), sfields, path, apath, keys, defaults, r.2);
        (r.0 || rest.0, seq![(key, r.1)] + rest.1, rest.2)
    } else {
        (false, fields, rs)
    }
}

/// Whether binding `src` onto `dst` goes through: it does not where an array of the model
/// stays longer than the array bound onto it, there or below.
pub open spec fn bindable(dst: JsonV, src: JsonV, apath: Seq<char>, defaults: Seq<(Seq<char>, JsonV)>) -> bool
    decreases src, 0int,
{
    match src {
        JsonV::Array(next) => match dst {
            JsonV::Array(current) => {
                let items = adjusted_items(current, next, apath, defaults);
                items.len() <= next.len() && items_bindable(items, next, apath, defaults)
            },
            _ => true,
        },
        JsonV::Object(sfields) => match dst {
            JsonV::Object(fields) => fields_bindable(fields, sfields, apath, defaults),
            _ => true,
        },
        _ => true,
    }
}

/// Whether each item binds onto its counterpart, see [`bindable`].
pub open spec fn items_bindable(items: Seq<JsonV>, next: Seq<JsonV>, apath: Seq<char>, defaults: Seq<(Seq<char>, JsonV)>) -> bool
    decreases next, 1int,
{
    if items.len() > 0 && next.len() > 0 {
        bindable(items[0], next[0], apath, defaults) && items_bindable(
            items.subrange(1, items.len() as int),
            next.subrange(1, next.len() as int),
            apath,
            defaults,
        )
    } else {
        true
    }
}

/// Whether each member binds onto the member of the same name, see [`bindable`].
pub open spec fn fields_bindable(fields: Seq<(Seq<char>, JsonV)>, sfields: Seq<(Seq<char>, JsonV)>, apath: Seq<char>, defaults: Seq<(Seq<char>, JsonV)>) -> bool
    decreases sfields, fields.len(),
{
    if fields.len() > 0 {
        let key = fields[0].0;
        let here = match first_entry(sfields, key, 0) {
            Some(j) => if 0 <= j < sfields.len() {
                bindable(fields[0].1, sfields[j].1, member_path(apath, key), defaults)
            } else {
                true
            },
            None => true,
        };
        here && fields_bindable(fields.subrange(1, fields.len() as int), sfields, apath, defaults)
    } else {
        true
    }
}

/// No two members have the same name.
pub open spec fn distinct_names(fields: Seq<(Seq<char>, JsonV)>) -> bool {
    forall|i: int, j: int| 0 <= i < j < fields.len() ==> fields[i].0 != fields[j].0
}

/// A value as JSON has it: no object has two members of the same name, at any depth.
pub open spec fn well_formed(v: JsonV) -> bool
    decreases v, 0int,
{
    match v {
        JsonV::Array(items) => items_well_formed(items),
        JsonV::Object(fields) => distinct_names(fields) && fields_well_formed(fields),
        _ => true,
    }
}

/// Each item is well formed, see [`well_formed`].
pub open spec fn items_well_formed(items: Seq<JsonV>) -> bool
    decreases items, 1int,
{
    if items.len() > 0 {
        well_formed(items[0]) && items_well_formed(items.subrange(1, items.len() as int))
    } else {
        true
    }
}

/// Each member's value is well formed, see [`well_formed`].
pub open spec fn fields_well_formed(fields: Seq<(Seq<char>, JsonV)>) -> bool
    decreases fields, 1int,
{
    if fields.len() > 0 {
        well_formed(fields[0].1) && fields_well_formed(fields.subrange(1, fields.len() as int))
    } else {
        true
    }
}

/// What binding nothing leaves: empty arrays, objects of such values, and null.
pub open spec fn is_nulled(v: JsonV) -> bool
    decreases v, 0int,
{
    match v {
        JsonV::Array(items) => items.len() == 0,
        JsonV::Object(fields) => fields_nulled(fields),
        JsonV::Null => true,
        _ => false,
    }
}

/// Each member's value is what binding nothing leaves, see [`is_nulled`].
pub open spec fn fields_nulled(fields: Seq<(Seq<char>, JsonV)>) -> bool
    decreases fields, 1int,
{
    if fields.len() > 0 {
        is_nulled(fields[0].1) && fields_nulled(fields.subrange(1, fields.len() as int))
    } else {
        true
    }
}

proof fn lemma_null_result(x: JsonV, path: Seq<char>, keys: Seq<Seq<char>>, rs: Seq<(Seq<char>, JsonV)>)
    ensures
        is_nulled(bound_null(x, path, keys, rs).1),
    decreases x, 0int,
{
    if let JsonV::Object(fields) = x {
        lemma_null_fields_result(fields, path, keys, rs);
    }
}

proof fn lemma_null_fields_result(fields: Seq<(Seq<char>, JsonV)>, path: Seq<char>, keys: Seq<Seq<char>>, rs: Seq<(Seq<char>, JsonV)>)
    ensures
        fields_nulled(null_fields(fields, path, keys, rs).1),
    decreases fields, 1int,
{
    if fields.len() > 0 {
        let r = bound_null(fields[0].1, member_path(path, fields[0].0), keys, rs);
        lemma_null_result(fields[0].1, member_path(path, fields[0].0), keys, rs);
        let rest = fields.subrange(1, fields.len() as int);
        lemma_null_fields_result(rest, path, keys, r.2);
        let t = null_fields(rest, path, keys, r.2);
        let all = seq![(fields[0].0, r.1)] + t.1;
        assert(all.subrange(1, all.len() as int) =~= t.1);
    }
}

proof fn lemma_null_fixed(y: JsonV, path: Seq<char>, keys: Seq<Seq<char>>, rs: Seq<(Seq<char>, JsonV)>)
    requires
        is_nulled(y),
    ensures
        bound_null(y, path, keys, rs) == (false, y, rs),
    decreases y, 0int,
{
    if let JsonV::Object(fields) = y {
        lemma_null_fields_fixed(fields, path, keys, rs);
    }
}

proof fn lemma_null_fields_fixed(fields: Seq<(Seq<char>, JsonV)>, path: Seq<char>, keys: Seq<Seq<char>>, rs: Seq<(Seq<char>, JsonV)>)
    requires
        fields_nulled(fields),
    ensures
        null_fields(fields, path, keys, rs) == (false, fields, rs),
    decreases fields, 1int,
{
    if fields.len() > 0 {
        lemma_null_fixed(fields[0].1, member_path(path, fields[0].0), keys, rs);
        let rest = fields.subrange(1, fields.len() as int);
        lemma_null_fields_fixed(rest, path, keys, rs);
        assert(seq![(fields[0].0, fields[0].1)] + rest =~= fields);
    }
}

proof fn lemma_first_entry_distinct<T>(entries: Seq<(Seq<char>, T)>, m: int, k: int)
    requires
        0 <= k <= m < entries.len(),
        forall|i: int, j: int| 0 <= i < j < entries.len() ==> entries[i].0 != entries[j].0,
    ensures
        first_entry(entries, entries[m].0, k) == Some(m),
    decreases m - k,
{
    if k < m {
        assert(entries[k].0 != entries[m].0);
        lemma_first_entry_distinct(entries, m, k + 1);
    }
}

/// A well-formed value bound onto itself changes nothing.
/// A model bound onto itself goes through and changes nothing: no reactions, whatever
/// the bindings and the array defaults.
pub proof fn law_model_binds_onto_itself(model: JsonV, keys: Seq<Seq<char>>, defaults: Seq<(Seq<char>, JsonV)>)
    requires
        well_formed(model),
    ensures
        bindable(model, model, Seq::empty(), defaults),
        bound(model, model, Seq::empty(), Seq::empty(), keys, defaults, Seq::empty()) == (false, model, Seq::<(Seq<char>, JsonV)>::empty()),
{
    lemma_self_bound(model, Seq::empty(), Seq::empty(), keys, defaults, Seq::empty());
}

proof fn lemma_self_bound(v: JsonV, path: Seq<char>, apath: Seq<char>, keys: Seq<Seq<char>>, defaults: Seq<(Seq<char>, JsonV)>, rs: Seq<(Seq<char>, JsonV)>)
    requires
        well_formed(v),
    ensures
        bindable(v, v, apath, defaults),
        bound(v, v, path, apath, keys, defaults, rs) == (false, v, rs),
    decreases v, 0int,
{
    match v {
        JsonV::Array(items) => {
            lemma_self_items(items, 0, path, apath, keys, defaults, rs);
        },
        JsonV::Object(fields) => {
            assert(fields.subrange(0, fields.len() as int) =~= fields);
            lemma_self_fields(fields, fields, 0, path, apath, keys, defaults, rs);
        },
        _ => {},
    }
}

proof fn lemma_self_items(items: Seq<JsonV>, i: nat, path: Seq<char>, apath: Seq<char>, keys: Seq<Seq<char>>, defaults: Seq<(Seq<char>, JsonV)>, rs: Seq<(Seq<char>, JsonV)>)
    requires
        items_well_formed(items),
    ensures
        items_bindable(items, items, apath, defaults),
        bound_items(items, items, i, path, apath, keys, defaults, rs) == (false, items, rs),
    decreases items, 1int,
{
    if items.len() > 0 {
        lemma_self_bound(items[0], child_path(path, decimal_text(i)), apath, keys, defaults, rs);
        let rest = items.subrange(1, items.len() as int);
        lemma_self_items(rest, i + 1, path, apath, keys, defaults, rs);
        assert(seq![items[0]] + rest =~= items);
    }
}

proof fn lemma_self_fields(fields: Seq<(Seq<char>, JsonV)>, sfields: Seq<(Seq<char>, JsonV)>, m: int, path: Seq<char>, apath: Seq<char>, keys: Seq<Seq<char>>, defaults: Seq<(Seq<char>, JsonV)>, rs: Seq<(Seq<char>, JsonV)>)
    requires
        0 <= m <= sfields.len(),
        fields == sfields.subrange(m, sfields.len() as int),
        distinct_names(sfields),
        fields_well_formed(fields),
    ensures
        fields_bindable(fields, sfields, apath, defaults),
        bound_fields(fields, sfields, path, apath, keys, defaults, rs) == (false, fields, rs),
    decreases sfields, fields.len(),
{
    if fields.len() > 0 {
        let key = fields[0].0;
        assert(fields[0] == sfields[m]);
        lemma_first_entry_distinct(sfields, m, 0);
        assert(decreases_to!(sfields => sfields[m].1));
        lemma_self_bound(sfields[m].1, member_path(path, key), member_path(apath, key), keys, defaults, rs);
        let rest = fields.subrange(1, fields.len() as int);
        assert(rest =~= sfields.subrange(m + 1, sfields.len() as int));
        lemma_self_fields(rest, sfields, m + 1, path, apath, keys, defaults, rs);
        assert(seq![(key, fields[0].1)] + rest =~= fields);
    }
}

proof fn lemma_first_entry_range<T>(entries: Seq<(Seq<char>, T)>, key: Seq<char>, k: int)
    requires
        0 <= k,
    ensures
        first_entry(entries, key, k) matches Some(p) ==> k <= p < entries.len(),
    decreases entries.len() - k,
{
    if k < entries.len() && entries[k].0 != key {
        lemma_first_entry_range(entries, key, k + 1);
    }
}

proof fn lemma_fields_well_formed_at(fields: Seq<(Seq<char>, JsonV)>, j: int)
    requires
        fields_well_formed(fields),
        0 <= j < fields.len(),
    ensures
        well_formed(fields[j].1),
    decreases j,
{
    if j > 0 {
        let rest = fields.subrange(1, fields.len() as int);
        lemma_fields_well_formed_at(rest, j - 1);
        assert(rest[j - 1] == fields[j]);
    }
}

/// Binding a value a second time onto what binding it once left changes nothing and
/// reaches no binding, whatever the reactions so far: for every value as JSON has it
/// (see [`well_formed`]) whose first binding goes through; the second goes through too.
pub proof fn law_binding_twice_changes_nothing(dst: JsonV, src: JsonV, path: Seq<char>, apath: Seq<char>, keys: Seq<Seq<char>>, defaults: Seq<(Seq<char>, JsonV)>, rs: Seq<(Seq<char>, JsonV)>, rs2: Seq<(Seq<char>, JsonV)>)
    requires
        well_formed(src),
        bindable(dst, src, apath, defaults),
    ensures
        ({
            let f = bound(dst, src, path, apath, keys, defaults, rs);
            bindable(f.1, src, apath, defaults) && bound(f.1, src, path, apath, keys, defaults, rs2) == (false, f.1, rs2)
        }),
    decreases src, 0int,
{
    let f = bound(dst, src, path, apath, keys, defaults, rs);
    match src {
        JsonV::Null => {
            lemma_null_result(dst, path, keys, rs);
            lemma_null_fixed(f.1, path, keys, rs2);
        },
        JsonV::Array(next) => match dst {
            JsonV::Array(current) => {
                let grow = resizes(current, next, apath, defaults);
                let items = adjusted_items(current, next, apath, defaults);
                let rs0 = if grow { react(path, src, keys, rs) } else { rs };
                lemma_first_entry_range(defaults, apath, 0);
                lemma_items_twice(items, next, 0, path, apath, keys, defaults, rs0, rs2);
                let r = bound_items(items, next, 0, path, apath, keys, defaults, rs0);
                assert(adjusted_items(r.1, next, apath, defaults) == r.1);
                assert(!resizes(r.1, next, apath, defaults));
            },
            _ => {
                lemma_self_bound(src, path, apath, keys, defaults, rs2);
            },
        },
        JsonV::Object(sfields) => match dst {
            JsonV::Array(_) => {},
            JsonV::Object(fields) => {
                lemma_fields_twice(fields, sfields, path, apath, keys, defaults, rs, rs2);
            },
            _ => {
                lemma_self_bound(src, path, apath, keys, defaults, rs2);
            },
        },
        _ => match dst {
            JsonV::Array(_) => {},
            _ => {
                lemma_self_bound(src, path, apath, keys, defaults, rs2);
            },
        },
    }
}

proof fn lemma_items_twice(items: Seq<JsonV>, next: Seq<JsonV>, i: nat, path: Seq<char>, apath: Seq<char>, keys: Seq<Seq<char>>, defaults: Seq<(Seq<char>, JsonV)>, rs: Seq<(Seq<char>, JsonV)>, rs2: Seq<(Seq<char>, JsonV)>)
    requires
        items_well_formed(next),
        items_bindable(items, next, apath, defaults),
    ensures
        ({
            let r = bound_items(items, next, i, path, apath, keys, defaults, rs);
            r.1.len() == items.len() && items_bindable(r.1, next, apath, defaults)
                && bound_items(r.1, next, i, path, apath, keys, defaults, rs2) == (false, r.1, rs2)
        }),
    decreases next, 1int,
{
    if items.len() > 0 && next.len() > 0 {
        let p = child_path(path, decimal_text(i));
        let r0 = bound(items[0], next[0], p, apath, keys, defaults, rs);
        law_binding_twice_changes_nothing(items[0], next[0], p, apath, keys, defaults, rs, rs2);
        let ri = items.subrange(1, items.len() as int);
        let rn = next.subrange(1, next.len() as int);
        lemma_items_twice(ri, rn, i + 1, path, apath, keys, defaults, r0.2, rs2);
        let t = bound_items(ri, rn, i + 1, path, apath, keys, defaults, r0.2);
        let out = seq![r0.1] + t.1;
        assert(out[0] == r0.1);
        assert(out.subrange(1, out.len() as int) =~= t.1);
    }
}

proof fn lemma_fields_twice(fields: Seq<(Seq<char>, JsonV)>, sfields: Seq<(Seq<char>, JsonV)>, path: Seq<char>, apath: Seq<char>, keys: Seq<Seq<char>>, defaults: Seq<(Seq<char>, JsonV)>, rs: Seq<(Seq<char>, JsonV)>, rs2: Seq<(Seq<char>, JsonV)>)
    requires
        fields_well_formed(sfields),
        fields_bindable(fields, sfields, apath, defaults),
    ensures
        ({
            let r = bound_fields(fields, sfields, path, apath, keys, defaults, rs);
            fields_bindable(r.1, sfields, apath, defaults)
                && bound_fields(r.1, sfields, path, apath, keys, defaults, rs2) == (false, r.1, rs2)
        }),
    decreases sfields, fields.len(),
{
    if fields.len() > 0 {
        let key = fields[0].0;
        let cp = member_path(path, key);
        let r0 = match first_entry(sfields, key, 0) {
            Some(j) => if 0 <= j < sfields.len() {
                bound(fields[0].1, sfields[j].1, cp, member_path(apath, key), keys, defaults, rs)
            } else {
                bound_null(fields[0].1, cp, keys, rs)
            },
            None => bound_null(fields[0].1, cp, keys, rs),
        };
        match first_entry(sfields, key, 0) {
            Some(j) => if 0 <= j < sfields.len() {
                lemma_fields_well_formed_at(sfields, j);
                assert(decreases_to!(sfields => sfields[j].1));
                law_binding_twice_changes_nothing(fields[0].1, sfields[j].1, cp, member_path(apath, key), keys, defaults, rs, rs2);
            } else {
                lemma_null_result(fields[0].1, cp, keys, rs);
                lemma_null_fixed(r0.1, cp, keys, rs2);
            },
            None => {
                lemma_null_result(fields[0].1, cp, keys, rs);
                lemma_null_fixed(r0.1, cp, keys, rs2);
            },
        }
        let rest = fields.subrange(1, fields.len() as int);
        lemma_fields_twice(rest, sfields, path, apath, keys, defaults, r0.2, rs2);
        let t = bound_fields(rest, sfields, path, apath, keys, defaults, r0.2);
        let out = seq![(key, r0.1)] + t.1;
        assert(out[0] == (key, r0.1));
        assert(out.subrange(1, out.len() as int) =~= t.1);
    }
}

/// `later` is `earlier` with reactions appended, each at a bound path.
pub open spec fn appended_at_bound(earlier: Seq<(Seq<char>, JsonV)>, later: Seq<(Seq<char>, JsonV)>, keys: Seq<Seq<char>>) -> bool {
    &&& earlier.len() <= later.len()
    &&& later.subrange(0, earlier.len() as int) == earlier
    &&& forall|i: int| earlier.len() <= i < later.len() ==> keys.contains(#[trigger] later[i].0)
}

proof fn lemma_appended_trans(a: Seq<(Seq<char>, JsonV)>, b: Seq<(Seq<char>, JsonV)>, c: Seq<(Seq<char>, JsonV)>, keys: Seq<Seq<char>>)
    requires
        appended_at_bound(a, b, keys),
        appended_at_bound(b, c, keys),
    ensures
        appended_at_bound(a, c, keys),
{
    assert(c.subrange(0, a.len() as int) =~= b.subrange(0, a.len() as int)) by {
        assert forall|i: int| 0 <= i < a.len() implies c.subrange(0, a.len() as int)[i] == b.subrange(0, a.len() as int)[i] by {
            assert(c.subrange(0, b.len() as int)[i] == b[i]);
        }
    }
    assert forall|i: int| a.len() <= i < c.len() implies keys.contains(#[trigger] c[i].0) by {
        if i < b.len() {
            assert(c.subrange(0, b.len() as int)[i] == b[i]);
        }
    }
}

proof fn lemma_react_appended(path: Seq<char>, v: JsonV, keys: Seq<Seq<char>>, rs: Seq<(Seq<char>, JsonV)>)
    ensures
        appended_at_bound(rs, react(path, v, keys, rs), keys),
{
    assert(react(path, v, keys, rs).subrange(0, rs.len() as int) =~= rs);
}

proof fn lemma_appended_refl(rs: Seq<(Seq<char>, JsonV)>, keys: Seq<Seq<char>>)
    ensures
        appended_at_bound(rs, rs, keys),
{
    assert(rs.subrange(0, rs.len() as int) =~= rs);
}

proof fn lemma_null_appended(x: JsonV, path: Seq<char>, keys: Seq<Seq<char>>, rs: Seq<(Seq<char>, JsonV)>)
    ensures
        appended_at_bound(rs, bound_null(x, path, keys, rs).2, keys),
    decreases x, 0int,
{
    lemma_appended_refl(rs, keys);
    match x {
        JsonV::Array(items) => {
            lemma_react_appended(path, JsonV::Array(seq![]), keys, rs);
        },
        JsonV::Object(fields) => {
            let r = null_fields(fields, path, keys, rs);
            lemma_null_fields_appended(fields, path, keys, rs);
            lemma_react_appended(path, JsonV::Null, keys, r.2);
            if r.0 {
                lemma_appended_trans(rs, r.2, react(path, JsonV::Null, keys, r.2), keys);
            }
        },
        JsonV::Null => {},
        _ => {
            lemma_react_appended(path, JsonV::Null, keys, rs);
        },
    }
}

proof fn lemma_null_fields_appended(fields: Seq<(Seq<char>, JsonV)>, path: Seq<char>, keys: Seq<Seq<char>>, rs: Seq<(Seq<char>, JsonV)>)
    ensures
        appended_at_bound(rs, null_fields(fields, path, keys, rs).2, keys),
    decreases fields, 1int,
{
    lemma_appended_refl(rs, keys);
    if fields.len() > 0 {
        let r = bound_null(fields[0].1, member_path(path, fields[0].0), keys, rs);
        lemma_null_appended(fields[0].1, member_path(path, fields[0].0), keys, rs);
        let rest = fields.subrange(1, fields.len() as int);
        lemma_null_fields_appended(rest, path, keys, r.2);
        lemma_appended_trans(rs, r.2, null_fields(rest, path, keys, r.2).2, keys);
    }
}

/// Binding reaches bound paths only: the reactions after it are those before, with
/// reactions appended at paths that have bindings.
pub proof fn law_reactions_only_at_bound_paths(dst: JsonV, src: JsonV, path: Seq<char>, apath: Seq<char>, keys: Seq<Seq<char>>, defaults: Seq<(Seq<char>, JsonV)>, rs: Seq<(Seq<char>, JsonV)>)
    ensures
        appended_at_bound(rs, bound(dst, src, path, apath, keys, defaults, rs).2, keys),
    decreases src, 0int,
{
    lemma_appended_refl(rs, keys);
    lemma_react_appended(path, src, keys, rs);
    match src {
        JsonV::Null => {
            lemma_null_appended(dst, path, keys, rs);
        },
        JsonV::Array(next) => match dst {
            JsonV::Array(current) => {
                let grow = resizes(current, next, apath, defaults);
                let items = adjusted_items(current, next, apath, defaults);
                let rs0 = if grow { react(path, src, keys, rs) } else { rs };
                lemma_items_appended(items, next, 0, path, apath, keys, defaults, rs0);
                lemma_appended_trans(rs, rs0, bound_items(items, next, 0, path, apath, keys, defaults, rs0).2, keys);
            },
            _ => {},
        },
        JsonV::Object(sfields) => match dst {
            JsonV::Object(fields) => {
                let r = bound_fields(fields, sfields, path, apath, keys, defaults, rs);
                lemma_fields_appended(fields, sfields, path, apath, keys, defaults, rs);
                lemma_react_appended(path, JsonV::Object(seq![]), keys, r.2);
                if r.0 {
                    lemma_appended_trans(rs, r.2, react(path, JsonV::Object(seq![]), keys, r.2), keys);
                }
            },
            _ => {},
        },
        _ => {},
    }
}

proof fn lemma_items_appended(items: Seq<JsonV>, next: Seq<JsonV>, i: nat, path: Seq<char>, apath: Seq<char>, keys: Seq<Seq<char>>, defaults: Seq<(Seq<char>, JsonV)>, rs: Seq<(Seq<char>, JsonV)>)
    ensures
        appended_at_bound(rs, bound_items(items, next, i, path, apath, keys, defaults, rs).2, keys),
    decreases next, 1int,
{
    lemma_appended_refl(rs, keys);
    if items.len() > 0 && next.len() > 0 {
        let p = child_path(path, decimal_text(i));
        let r = bound(items[0], next[0], p, apath, keys, defaults, rs);
        law_reactions_only_at_bound_paths(items[0], next[0], p, apath, keys, defaults, rs);
        let ri = items.subrange(1, items.len() as int);
        let rn = next.subrange(1, next.len() as int);
        lemma_items_appended(ri, rn, i + 1, path, apath, keys, defaults, r.2);
        lemma_appended_trans(rs, r.2, bound_items(ri, rn, i + 1, path, apath, keys, defaults, r.2).2, keys);
    }
}

proof fn lemma_fields_appended(fields: Seq<(Seq<char>, JsonV)>, sfields: Seq<(Seq<char>, JsonV)>, path: Seq<char>, apath: Seq<char>, keys: Seq<Seq<char>>, defaults: Seq<(Seq<char>, JsonV)>, rs: Seq<(Seq<char>, JsonV)>)
    ensures
        appended_at_bound(rs, bound_fields(fields, sfields, path, apath, keys, defaults, rs).2, keys),
    decreases sfields, fields.len(),
{
    lemma_appended_refl(rs, keys);
    if fields.len() > 0 {
        let key = fields[0].0;
        let cp = member_path(path, key);
        let r = match first_entry(sfields, key, 0) {
            Some(j) => if 0 <= j < sfields.len() {
                bound(fields[0].1, sfields[j].1, cp, member_path(apath, key), keys, defaults, rs)
            } else {
                bound_null(fields[0].1, cp, keys, rs)
            },
            None => bound_null(fields[0].1, cp, keys, rs),
        };
        match first_entry(sfields, key, 0) {
            Some(j) => if 0 <= j < sfields.len() {
                assert(decreases_to!(sfields => sfields[j].1));
                law_reactions_only_at_bound_paths(fields[0].1, sfields[j].1, cp, member_path(apath, key), keys, defaults, rs);
            } else {
                lemma_null_appended(fields[0].1, cp, keys, rs);
            },
            None => {
                lemma_null_appended(fields[0].1, cp, keys, rs);
            },
        }
        let rest = fields.subrange(1, fields.len() as int);
        lemma_fields_appended(rest, sfields, path, apath, keys, defaults, r.2);
        lemma_appended_trans(rs, r.2, bound_fields(rest, sfields, path, apath, keys, defaults, r.2).2, keys);
    }
}

/// A binding that changes nothing reacts with nothing: the reactions stay as they were.
pub proof fn law_unchanged_binding_reacts_with_nothing(dst: JsonV, src: JsonV, path: Seq<char>, apath: Seq<char>, keys: Seq<Seq<char>>, defaults: Seq<(Seq<char>, JsonV)>, rs: Seq<(Seq<char>, JsonV)>)
    ensures
        !bound(dst, src, path, apath, keys, defaults, rs).0 ==> bound(dst, src, path, apath, keys, defaults, rs).2 == rs,
    decreases src, 0int,
{
    match src {
        JsonV::Null => lemma_null_quiet(dst, path, keys, rs),
        JsonV::Array(next) => match dst {
            JsonV::Array(current) => {
                let grow = resizes(current, next, apath, defaults);
                let items = adjusted_items(current, next, apath, defaults);
                let rs0 = if grow { react(path, src, keys, rs) } else { rs };
                lemma_items_quiet(items, next, 0, path, apath, keys, defaults, rs0);
            },
            _ => {},
        },
        JsonV::Object(sfields) => match dst {
            JsonV::Object(fields) => {
                lemma_fields_quiet(fields, sfields, path, apath, keys, defaults, rs);
            },
            _ => {},
        },
        _ => {},
    }
}

proof fn lemma_items_quiet(items: Seq<JsonV>, next: Seq<JsonV>, i: nat, path: Seq<char>, apath: Seq<char>, keys: Seq<Seq<char>>, defaults: Seq<(Seq<char>, JsonV)>, rs: Seq<(Seq<char>, JsonV)>)
    ensures
        !bound_items(items, next, i, path, apath, keys, defaults, rs).0 ==> bound_items(items, next, i, path, apath, keys, defaults, rs).2 == rs,
    decreases next, 1int,
{
    if items.len() > 0 && next.len() > 0 {
        let p = child_path(path, decimal_text(i));
        let r = bound(items[0], next[0], p, apath, keys, defaults, rs);
        law_unchanged_binding_reacts_with_nothing(items[0], next[0], p, apath, keys, defaults, rs);
        lemma_items_quiet(items.subrange(1, items.len() as int), next.subrange(1, next.len() as int), i + 1, path, apath, keys, defaults, r.2);
    }
}

proof fn lemma_fields_quiet(fields: Seq<(Seq<char>, JsonV)>, sfields: Seq<(Seq<char>, JsonV)>, path: Seq<char>, apath: Seq<char>, keys: Seq<Seq<char>>, defaults: Seq<(Seq<char>, JsonV)>, rs: Seq<(Seq<char>, JsonV)>)
    ensures
        !bound_fields(fields, sfields, path, apath, keys, defaults, rs).0 ==> bound_fields(fields, sfields, path, apath, keys, defaults, rs).2 == rs,
    decreases sfields, fields.len(),
{
    if fields.len() > 0 {
        let key = fields[0].0;
        let cp = member_path(path, key);
        let r = match first_entry(sfields, key, 0) {
            Some(j) => if 0 <= j < sfields.len() {
                bound(fields[0].1, sfields[j].1, cp, member_path(apath, key), keys, defaults, rs)
            } else {
                bound_null(fields[0].1, cp, keys, rs)
            },
            None => bound_null(fields[0].1, cp, keys, rs),
        };
        match first_entry(sfields, key, 0) {
            Some(j) => if 0 <= j < sfields.len() {
                assert(decreases_to!(sfields => sfields[j].1));
                law_unchanged_binding_reacts_with_nothing(fields[0].1, sfields[j].1, cp, member_path(apath, key), keys, defaults, rs);
            } else {
                lemma_null_quiet(fields[0].1, cp, keys, rs);
            },
            None => {
                lemma_null_quiet(fields[0].1, cp, keys, rs);
            },
        }
        lemma_fields_quiet(fields.subrange(1, fields.len() as int), sfields, path, apath, keys, defaults, r.2);
    }
}

proof fn lemma_null_quiet(x: JsonV, path: Seq<char>, keys: Seq<Seq<char>>, rs: Seq<(Seq<char>, JsonV)>)
    ensures
        !bound_null(x, path, keys, rs).0 ==> bound_null(x, path, keys, rs).2 == rs,
    decreases x, 0int,
{
    match x {
        JsonV::Object(fields) => {
            lemma_null_fields_quiet(fields, path, keys, rs);
        },
        _ => {},
    }
}

proof fn lemma_null_fields_quiet(fields: Seq<(Seq<char>, JsonV)>, path: Seq<char>, keys: Seq<Seq<char>>, rs: Seq<(Seq<char>, JsonV)>)
    ensures
        !null_fields(fields, path, keys, rs).0 ==> null_fields(fields, path, keys, rs).2 == rs,
    decreases fields, 1int,
{
    if fields.len() > 0 {
        let r = bound_null(fields[0].1, member_path(path, fields[0].0), keys, rs);
        lemma_null_quiet(fields[0].1, member_path(path, fields[0].0), keys, rs);
        lemma_null_fields_quiet(fields.subrange(1, fields.len() as int), path, keys, r.2);
    }
}

proof fn lemma_null_changed(x: JsonV, path: Seq<char>, keys: Seq<Seq<char>>, rs: Seq<(Seq<char>, JsonV)>)
    ensures
        bound_null(x, path, keys, rs).0 == (bound_null(x, path, keys, rs).1 != x),
    decreases x, 0int,
{
    match x {
        JsonV::Array(items) => {
            if items.len() != 0 {
                assert(JsonV::Array(seq![]) != x) by {
                    assert(Seq::<JsonV>::empty().len() != items.len());
                }
            }
        },
        JsonV::Object(fields) => {
            lemma_null_fields_changed(fields, path, keys, rs);
        },
        _ => {},
    }
}

proof fn lemma_null_fields_changed(fields: Seq<(Seq<char>, JsonV)>, path: Seq<char>, keys: Seq<Seq<char>>, rs: Seq<(Seq<char>, JsonV)>)
    ensures
        null_fields(fields, path, keys, rs).0 == (null_fields(fields, path, keys, rs).1 != fields),
    decreases fields, 1int,
{
    if fields.len() > 0 {
        let r = bound_null(fields[0].1, member_path(path, fields[0].0), keys, rs);
        lemma_null_changed(fields[0].1, member_path(path, fields[0].0), keys, rs);
        let rest = fields.subrange(1, fields.len() as int);
        lemma_null_fields_changed(rest, path, keys, r.2);
        let t = null_fields(rest, path, keys, r.2);
        let all = seq![(fields[0].0, r.1)] + t.1;
        assert(fields =~= seq![fields[0]] + rest);
        if all == fields {
            assert(all[0] == fields[0]);
            assert(all.subrange(1, all.len() as int) =~= t.1);
            assert(fields.subrange(1, fields.len() as int) =~= rest);
        }
        if !r.0 && !t.0 {
            assert(all =~= fields);
        }
    }
}

/// Binding tells whether it changed the value: it gives `true` exactly when the value after
/// it differs from the value before.
pub proof fn law_changed_exactly_when_value_differs(dst: JsonV, src: JsonV, path: Seq<char>, apath: Seq<char>, keys: Seq<Seq<char>>, defaults: Seq<(Seq<char>, JsonV)>, rs: Seq<(Seq<char>, JsonV)>)
    ensures
        bound(dst, src, path, apath, keys, defaults, rs).0 == (bound(dst, src, path, apath, keys, defaults, rs).1 != dst),
    decreases src, 0int,
{
    match src {
        JsonV::Null => lemma_null_changed(dst, path, keys, rs),
        JsonV::Array(next) => match dst {
            JsonV::Array(current) => {
                let grow = resizes(current, next, apath, defaults);
                let items = adjusted_items(current, next, apath, defaults);
                let rs0 = if grow { react(path, src, keys, rs) } else { rs };
                lemma_items_changed(items, next, 0, path, apath, keys, defaults, rs0);
                let r = bound_items(items, next, 0, path, apath, keys, defaults, rs0);
                lemma_first_entry_range(defaults, apath, 0);
                if grow {
                    assert(items.len() == next.len());
                    assert(r.1.len() == items.len());
                    assert(JsonV::Array(r.1) != dst) by {
                        assert(r.1.len() != current.len());
                    }
                } else {
                    assert(items == current);
                }
            },
            _ => {},
        },
        JsonV::Object(sfields) => match dst {
            JsonV::Object(fields) => {
                lemma_fields_changed(fields, sfields, path, apath, keys, defaults, rs);
            },
            _ => {},
        },
        _ => {},
    }
}

proof fn lemma_items_changed(items: Seq<JsonV>, next: Seq<JsonV>, i: nat, path: Seq<char>, apath: Seq<char>, keys: Seq<Seq<char>>, defaults: Seq<(Seq<char>, JsonV)>, rs: Seq<(Seq<char>, JsonV)>)
    ensures
        bound_items(items, next, i, path, apath, keys, defaults, rs).0 == (bound_items(items, next, i, path, apath, keys, defaults, rs).1 != items),
        bound_items(items, next, i, path, apath, keys, defaults, rs).1.len() == items.len(),
    decreases next, 1int,
{
    if items.len() > 0 && next.len() > 0 {
        let p = child_path(path, decimal_text(i));
        let r = bound(items[0], next[0], p, apath, keys, defaults, rs);
        law_changed_exactly_when_value_differs(items[0], next[0], p, apath, keys, defaults, rs);
        let ri = items.subrange(1, items.len() as int);
        let rn = next.subrange(1, next.len() as int);
        lemma_items_changed(ri, rn, i + 1, path, apath, keys, defaults, r.2);
        let t = bound_items(ri, rn, i + 1, path, apath, keys, defaults, r.2);
        let all = seq![r.1] + t.1;
        assert(items =~= seq![items[0]] + ri);
        if all == items {
            assert(all[0] == items[0]);
            assert(all.subrange(1, all.len() as int) =~= t.1);
        }
        if !r.0 && !t.0 {
            assert(all =~= items);
        }
    }
}

proof fn lemma_fields_changed(fields: Seq<(Seq<char>, JsonV)>, sfields: Seq<(Seq<char>, JsonV)>, path: Seq<char>, apath: Seq<char>, keys: Seq<Seq<char>>, defaults: Seq<(Seq<char>, JsonV)>, rs: Seq<(Seq<char>, JsonV)>)
    ensures
        bound_fields(fields, sfields, path, apath, keys, defaults, rs).0 == (bound_fields(fields, sfields, path, apath, keys, defaults, rs).1 != fields),
    decreases sfields, fields.len(),
{
    if fields.len() > 0 {
        let key = fields[0].0;
        let cp = member_path(path, key);
        let r = match first_entry(sfields, key, 0) {
            Some(j) => if 0 <= j < sfields.len() {
                bound(fields[0].1, sfields[j].1, cp, member_path(apath, key), keys, defaults, rs)
            } else {
                bound_null(fields[0].1, cp, keys, rs)
            },
            None => bound_null(fields[0].1, cp, keys, rs),
        };
        match first_entry(sfields, key, 0) {
            Some(j) => if 0 <= j < sfields.len() {
                assert(decreases_to!(sfields => sfields[j].1));
                law_changed_exactly_when_value_differs(fields[0].1, sfields[j].1, cp, member_path(apath, key), keys, defaults, rs);
            } else {
                lemma_null_changed(fields[0].1, cp, keys, rs);
            },
            None => {
                lemma_null_changed(fields[0].1, cp, keys, rs);
            },
        }
        let rest = fields.subrange(1, fields.len() as int);
        lemma_fields_changed(rest, sfields, path, apath, keys, defaults, r.2);
        let t = bound_fields(rest, sfields, path, apath, keys, defaults, r.2);
        let all = seq![(key, r.1)] + t.1;
        assert(fields =~= seq![fields[0]] + rest);
        if all == fields {
            assert(all[0] == fields[0]);
            assert(all.subrange(1, all.len() as int) =~= t.1);
        }
        if !r.0 && !t.0 {
            assert(all =~= fields);
        }
    }
}

/// The paths that have bindings.
pub struct Bindings {
    pub paths: Vec<String>,
}

impl View for Bindings {
    type V = Seq<Seq<char>>;

    open spec fn view(&self) -> Seq<Seq<char>> {
        views(self.paths@)
    }
}

/// The default item of each array of the model, by the array's path without indexes.
pub struct ArrayDefaults {
    pub entries: Vec<(String, Json)>,
}

impl View for ArrayDefaults {
    type V = Seq<(Seq<char>, JsonV)>;

    open spec fn view(&self) -> Seq<(Seq<char>, JsonV)> {
        entries_view(self.entries@)
    }
}

fn digit(d: u64) -> (c: char)
    requires
        d < 10,
    ensures
        c == digit_char(d as int),
{
    if d == 0 { '0' } else if d == 1 { '1' } else if d == 2 { '2' } else if d == 3 { '3' }
    else if d == 4 { '4' } else if d == 5 { '5' } else if d == 6 { '6' } else if d == 7 { '7' }
    else if d == 8 { '8' } else { '9' }
}

/// Appends `n` in decimal.
pub fn push_decimal(s: &mut String, n: u64)
    ensures
        final(s)@ == old(s)@ + decimal_text(n as nat),
    decreases n,
{
    if n >= 10 {
        push_decimal(s, n / 10);
    }
    let c = digit(n % 10);
    push_char(s, c);
    proof {
        if n >= 10 {
            assert(s@ =~= old(s)@ + decimal_text(n as nat));
        } else {
            assert(s@ =~= old(s)@ + decimal_text(n as nat));
        }
    }
}

/// The path of the member `key` below `path`, see [`member_path`].
fn child_of(path: &str, key: &str) -> (r: String)
    ensures
        r@ == member_path(path@, key@),
{
    let mut r = String::new();
    push_all(&mut r, path);
    push_char(&mut r, '/');
    push_escaped(&mut r, key);
    proof {
        assert(r@ =~= member_path(path@, key@));
    }
    r
}

/// `path`, a slash and `k` in decimal.
fn index_of(path: &str, k: usize) -> (r: String)
    ensures
        r@ == child_path(path@, decimal_text(k as nat)),
{
    let mut r = String::new();
    push_all(&mut r, path);
    push_char(&mut r, '/');
    push_decimal(&mut r, k as u64);
    proof {
        assert(r@ =~= child_path(path@, decimal_text(k as nat)));
    }
    r
}

/// The first entry whose path is `key`.
pub(crate) fn find_entry(entries: &Vec<(String, Json)>, key: &str) -> (r: Option<usize>)
    ensures
        match first_entry(entries_view(entries@), key@, 0) {
            Some(p) => 0 <= p < entries@.len() && (r matches Some(k) && k as int == p),
            None => r is None,
        },
{
    let ghost ev = entries_view(entries@);
    let mut k: usize = 0;
    while k < entries.len()
        invariant
            ev == entries_view(entries@),
            k <= entries@.len(),
            first_entry(ev, key@, 0) == first_entry(ev, key@, k as int),
        decreases entries@.len() - k,
    {
        if str_eq(entries[k].0.as_str(), key) {
            return Some(k);
        }
        k = k + 1;
    }
    None
}

/// Appends the reaction of `path` to `value`, where `path` has bindings.
fn react_to(path: &str, value: &Json, bindings: &Bindings, reactions: &mut Vec<(String, Json)>)
    ensures
        entries_view(final(reactions)@) == react(path@, value@, bindings@, entries_view(old(reactions)@)),
{
    let mut found = false;
    let mut k: usize = 0;
    while k < bindings.paths.len()
        invariant
            k <= bindings.paths@.len(),
            found == exists|j: int| 0 <= j < k && (#[trigger] bindings.paths@[j])@ == path@,
        decreases bindings.paths@.len() - k,
    {
        if str_eq(bindings.paths[k].as_str(), path) {
            found = true;
        }
        k = k + 1;
    }
    proof {
        if found {
            let j = choose|j: int| 0 <= j < k && (#[trigger] bindings.paths@[j])@ == path@;
            assert(bindings@[j] == path@);
        } else {
            assert forall|j: int| 0 <= j < bindings@.len() implies bindings@[j] != path@ by {
                assert(bindings@[j] == bindings.paths@[j]@);
            }
        }
    }
    if found {
        let mut p = String::new();
        push_all(&mut p, path);
        let v = json_clone(value);
        reactions.push((p, v));
        proof {
            assert(p@ =~= path@);
            assert(entries_view(reactions@) =~= entries_view(old(reactions)@).push((path@, value@)));
        }
    }
}

/// Makes `items` `n` long: cuts it, or fills it up with copies of `fill`.
fn resize(items: &mut Vec<Json>, n: usize, fill: &Json)
    ensures
        views(final(items)@) == resized(views(old(items)@), n as nat, fill@),
{
    if items.len() > n {
        items.truncate(n);
        proof {
            assert(views(items@) =~= resized(views(old(items)@), n as nat, fill@));
        }
    } else {
        while items.len() < n
            invariant
                old(items)@.len() <= items@.len() <= n,
                views(items@) =~= resized(views(old(items)@), items@.len(), fill@),
            decreases n - items@.len(),
        {
            let c = json_clone(fill);
            let ghost before = items@;
            items.push(c);
            proof {
                lemma_views_push(before, c);
                assert(views(items@) =~= resized(views(old(items)@), items@.len(), fill@));
            }
        }
    }
}

/// Binds nothing onto `dst`, see [`bound_null`]; gives whether anything changed and the
/// new value.
#[verifier::loop_isolation(false)]
fn bind_null_owned(dst: Json, path: &str, bindings: &Bindings, reactions: &mut Vec<(String, Json)>) -> (r: (bool, Json))
    ensures
        (r.0, r.1@, entries_view(final(reactions)@)) == bound_null(dst@, path@, bindings@, entries_view(old(reactions)@)),
    decreases dst@,
{
    proof {
        lemma_json_view(dst);
    }
    let ghost d = dst@;
    match dst {
        Json::Array(items) => {
            if items.len() != 0 {
                let none: Vec<Json> = Vec::new();
                proof {
                    assert(views(none@) =~= Seq::<JsonV>::empty());
                }
                let empty = Json::Array(none);
                proof {
                    lemma_json_view(empty);
                    assert(empty@ == JsonV::Array(seq![]));
                }
                react_to(path, &empty, bindings, reactions);
                (true, empty)
            } else {
                let same = Json::Array(items);
                proof {
                    lemma_json_view(same);
                }
                (false, same)
            }
        },
        Json::Object(fields) => {
            let ghost f0 = entries_view(fields@);
            let ghost rs0 = entries_view(reactions@);
            let mut rem = fields;
            let mut out: Vec<(String, Json)> = Vec::new();
            let mut changed = false;
            let ghost mut k: int = 0;
            while rem.len() > 0
                invariant
                    d == JsonV::Object(f0),
                    0 <= k <= f0.len(),
                    entries_view(rem@) == f0.subrange(k, f0.len() as int),
                    null_fields(f0, path@, bindings@, rs0) == {
                        let t = null_fields(entries_view(rem@), path@, bindings@, entries_view(reactions@));
                        (changed || t.0, entries_view(out@) + t.1, t.2)
                    },
                decreases rem@.len(),
            {
                let ghost e = entries_view(rem@);
                let ghost o = entries_view(out@);
                let ghost rs1 = entries_view(reactions@);
                let (key, value) = rem.remove(0);
                proof {
                    assert(e[0] == (key@, value@));
                    assert(entries_view(rem@) =~= e.subrange(1, e.len() as int));
                    assert(f0[k] == e[0]);
                    assert(d->Object_0[k].1 == value@);
                    assert(decreases_to!(d => d->Object_0[k].1));
                    assert(decreases_to!(d => value@));
                }
                let child = child_of(path, key.as_str());
                let (c, nv) = bind_null_owned(value, child.as_str(), bindings, reactions);
                proof {
                    let r = bound_null(e[0].1, member_path(path@, e[0].0), bindings@, rs1);
                    let rest = null_fields(e.subrange(1, e.len() as int), path@, bindings@, r.2);
                    assert(null_fields(e, path@, bindings@, rs1) == (r.0 || rest.0, seq![(e[0].0, r.1)] + rest.1, rest.2));
                    assert(o.push((key@, nv@)) + rest.1 =~= o + (seq![(e[0].0, r.1)] + rest.1));
                }
                out.push((key, nv));
                proof {
                    assert(entries_view(out@) =~= o.push((out@.last().0@, nv@)));
                    assert(entries_view(rem@) =~= f0.subrange(k + 1, f0.len() as int));
                    k = k + 1;
                }
                changed = changed || c;
            }
            proof {
                assert(entries_view(rem@) =~= Seq::<(Seq<char>, JsonV)>::empty());
                assert(entries_view(out@) + Seq::<(Seq<char>, JsonV)>::empty() =~= entries_view(out@));
            }
            let result = Json::Object(out);
            proof {
                lemma_json_view(result);
            }
            if changed {
                let null = Json::Null;
                proof {
                    lemma_json_view(null);
                }
                react_to(path, &null, bindings, reactions);
            }
            (changed, result)
        },
        Json::Null => {
            proof {
                lemma_json_view(Json::Null);
            }
            (false, Json::Null)
        },
        _ => {
            let null = Json::Null;
            proof {
                lemma_json_view(null);
            }
            react_to(path, &null, bindings, reactions);
            (true, null)
        },
    }
}

/// Binds `src` onto `dst`, see [`bound`]; gives whether anything changed and the new
/// value.
#[verifier::loop_isolation(false)]
fn bind_owned(dst: Json, src: &Json, path: &str, apath: &str, bindings: &Bindings, defaults: &ArrayDefaults, reactions: &mut Vec<(String, Json)>) -> (r: (bool, Json))
    requires
        bindable(dst@, src@, apath@, defaults@),
    ensures
        (r.0, r.1@, entries_view(final(reactions)@)) == bound(dst@, src@, path@, apath@, bindings@, defaults@, entries_view(old(reactions)@)),
    decreases src@,
{
    proof {
        lemma_json_view(dst);
        lemma_json_view(*src);
    }
    let ghost d = dst@;
    let ghost rs0 = entries_view(reactions@);
    match src {
        Json::Null => bind_null_owned(dst, path, bindings, reactions),
        Json::Array(next) => match dst {
            Json::Array(current) => {
                let ghost cv = views(current@);
                let ghost nv = views(next@);
                let mut items = current;
                let mut grew = false;
                proof {
                    assert(cv.len() == current@.len());
                    assert(nv.len() == next@.len());
                }
                if items.len() != next.len() {
                    match find_entry(&defaults.entries, apath) {
                        Some(k) => {
                            let fill = json_clone(&defaults.entries[k].1);
                            resize(&mut items, next.len(), &fill);
                            grew = true;
                            react_to(path, src, bindings, reactions);
                            proof {
                                assert(defaults@[k as int].1 == fill@);
                                assert(first_entry(defaults@, apath@, 0) == Some(k as int));
                                assert(views(items@) == resized(cv, nv.len(), fill@));
                                assert(views(items@) == adjusted_items(cv, nv, apath@, defaults@));
                            }
                        },
                        None => {},
                    }
                }
                let ghost i0 = views(items@);
                let ghost rs_a = entries_view(reactions@);
                proof {
                    assert(i0 == adjusted_items(cv, nv, apath@, defaults@));
                    assert(grew == resizes(cv, nv, apath@, defaults@));
                    assert(i0.subrange(0, i0.len() as int) =~= i0);
                    assert(nv.subrange(0, nv.len() as int) =~= nv);
                    assert(views(Seq::<Json>::empty()) + bound_items(i0, nv, 0, path@, apath@, bindings@, defaults@, rs_a).1 =~= bound_items(i0, nv, 0, path@, apath@, bindings@, defaults@, rs_a).1);
                }
                let mut rem = items;
                let mut out: Vec<Json> = Vec::new();
                let mut changed = false;
                let mut k: usize = 0;
                while rem.len() > 0
                    invariant
                        d == JsonV::Array(cv),
                        src@ == JsonV::Array(nv),
                        nv == views(next@),
                        k + rem@.len() == i0.len(),
                        i0.len() <= nv.len(),
                        views(rem@) == i0.subrange(k as int, i0.len() as int),
                        items_bindable(views(rem@), nv.subrange(k as int, nv.len() as int), apath@, defaults@),
                        bound_items(i0, nv, 0, path@, apath@, bindings@, defaults@, rs_a) == {
                            let t = bound_items(views(rem@), nv.subrange(k as int, nv.len() as int), k as nat, path@, apath@, bindings@, defaults@, entries_view(reactions@));
                            (changed || t.0, views(out@) + t.1, t.2)
                        },
                    decreases rem@.len(),
                {
                    let ghost e = views(rem@);
                    let ghost ns = nv.subrange(k as int, nv.len() as int);
                    let ghost o = views(out@);
                    let ghost rs1 = entries_view(reactions@);
                    let item = rem.remove(0);
                    proof {
                        assert(e[0] == item@);
                        assert(views(rem@) =~= e.subrange(1, e.len() as int));
                        assert(ns[0] == next@[k as int]@);
                        assert(src@->Array_0[k as int] == next@[k as int]@);
                        assert(decreases_to!(src@ => src@->Array_0[k as int]));
                        assert(decreases_to!(src@ => next@[k as int]@));
                    }
                    let p = index_of(path, k);
                    let (c, ni) = bind_owned(item, &next[k], p.as_str(), apath, bindings, defaults, reactions);
                    proof {
                        let r = bound(e[0], ns[0], child_path(path@, decimal_text(k as nat)), apath@, bindings@, defaults@, rs1);
                        let rest = bound_items(e.subrange(1, e.len() as int), ns.subrange(1, ns.len() as int), (k + 1) as nat, path@, apath@, bindings@, defaults@, r.2);
                        assert(bound_items(e, ns, k as nat, path@, apath@, bindings@, defaults@, rs1) == (r.0 || rest.0, seq![r.1] + rest.1, rest.2));
                        assert(ns.subrange(1, ns.len() as int) =~= nv.subrange(k + 1, nv.len() as int));
                        assert(o.push(ni@) + rest.1 =~= o + (seq![r.1] + rest.1));
                        lemma_views_push(out@, ni);
                    }
                    out.push(ni);
                    changed = changed || c;
                    k = k + 1;
                    proof {
                        assert(views(rem@) =~= i0.subrange(k as int, i0.len() as int));
                    }
                }
                proof {
                    assert(views(rem@) =~= Seq::<JsonV>::empty());
                    assert(views(out@) + Seq::<JsonV>::empty() =~= views(out@));
                }
                let result = Json::Array(out);
                proof {
                    lemma_json_view(result);
                }
                (grew || changed, result)
            },
            Json::Object(_) => {
                react_to(path, src, bindings, reactions);
                (true, json_clone(src))
            },
            other => {
                if scalar_equal(&other, src) {
                    (false, other)
                } else {
                    react_to(path, src, bindings, reactions);
                    (true, json_clone(src))
                }
            },
        },
        Json::Object(sfields) => match dst {
            Json::Array(items) => {
                let same = Json::Array(items);
                proof {
                    lemma_json_view(same);
                }
                (false, same)
            },
            Json::Object(fields) => {
                let ghost f0 = entries_view(fields@);
                let ghost sv = entries_view(sfields@);
                let mut rem = fields;
                let mut out: Vec<(String, Json)> = Vec::new();
                let mut changed = false;
                proof {
                    assert(entries_view(Seq::<(String, Json)>::empty()) + bound_fields(f0, sv, path@, apath@, bindings@, defaults@, rs0).1 =~= bound_fields(f0, sv, path@, apath@, bindings@, defaults@, rs0).1);
                }
                while rem.len() > 0
                    invariant
                        src@ == JsonV::Object(sv),
                        sv == entries_view(sfields@),
                        fields_bindable(entries_view(rem@), sv, apath@, defaults@),
                        bound_fields(f0, sv, path@, apath@, bindings@, defaults@, rs0) == {
                            let t = bound_fields(entries_view(rem@), sv, path@, apath@, bindings@, defaults@, entries_view(reactions@));
                            (changed || t.0, entries_view(out@) + t.1, t.2)
                        },
                    decreases rem@.len(),
                {
                    let ghost e = entries_view(rem@);
                    let ghost o = entries_view(out@);
                    let ghost rs1 = entries_view(reactions@);
                    let (key, value) = rem.remove(0);
                    proof {
                        assert(e[0] == (key@, value@));
                        assert(entries_view(rem@) =~= e.subrange(1, e.len() as int));
                    }
                    let child = child_of(path, key.as_str());
                    let (c, nv) = match find_entry(sfields, key.as_str()) {
                        Some(j) => {
                            let capath = child_of(apath, key.as_str());
                            proof {
                                assert(sv[j as int].1 == sfields@[j as int].1@);
                                assert(value@ == e[0].1);
                                assert(first_entry(sv, e[0].0, 0) == Some(j as int));
                                assert(capath@ == member_path(apath@, e[0].0));
                                assert(fields_bindable(e, sv, apath@, defaults@));
                                assert(bindable(value@, sfields@[j as int].1@, capath@, defaults@));
                                assert(src@->Object_0[j as int].1 == sfields@[j as int].1@);
                                assert(decreases_to!(src@ => src@->Object_0[j as int].1));
                                assert(decreases_to!(src@ => sfields@[j as int].1@));
                            }
                            bind_owned(value, &sfields[j].1, child.as_str(), capath.as_str(), bindings, defaults, reactions)
                        },
                        None => bind_null_owned(value, child.as_str(), bindings, reactions),
                    };
                    proof {
                        let r = match first_entry(sv, e[0].0, 0) {
                            Some(j) => if 0 <= j < sv.len() {
                                bound(e[0].1, sv[j].1, member_path(path@, e[0].0), member_path(apath@, e[0].0), bindings@, defaults@, rs1)
                            } else {
                                bound_null(e[0].1, member_path(path@, e[0].0), bindings@, rs1)
                            },
                            None => bound_null(e[0].1, member_path(path@, e[0].0), bindings@, rs1),
                        };
                        let rest = bound_fields(e.subrange(1, e.len() as int), sv, path@, apath@, bindings@, defaults@, r.2);
                        assert(bound_fields(e, sv, path@, apath@, bindings@, defaults@, rs1) == (r.0 || rest.0, seq![(e[0].0, r.1)] + rest.1, rest.2));
                        assert(c == r.0 && nv@ == r.1 && entries_view(reactions@) == r.2);
                        assert(o.push((key@, nv@)) + rest.1 =~= o + (seq![(e[0].0, r.1)] + rest.1));
                    }
                    out.push((key, nv));
                    proof {
                        assert(entries_view(out@) =~= o.push((out@.last().0@, out@.last().1@)));
                    }
                    changed = changed || c;
                }
                proof {
                    assert(entries_view(rem@) =~= Seq::<(Seq<char>, JsonV)>::empty());
                    assert(entries_view(out@) + Seq::<(Seq<char>, JsonV)>::empty() =~= entries_view(out@));
                }
                let result = Json::Object(out);
                proof {
                    lemma_json_view(result);
                }
                if changed {
                    let none: Vec<(String, Json)> = Vec::new();
                    let empty = Json::Object(none);
                    proof {
                        lemma_json_view(empty);
                        assert(entries_view(none@) =~= Seq::<(Seq<char>, JsonV)>::empty());
                    }
                    react_to(path, &empty, bindings, reactions);
                }
                (changed, result)
            },
            other => {
                if scalar_equal(&other, src) {
                    (false, other)
                } else {
                    react_to(path, src, bindings, reactions);
                    (true, json_clone(src))
                }
            },
        },
        _ => match dst {
            Json::Array(items) => {
                let same = Json::Array(items);
                proof {
                    lemma_json_view(same);
                }
                (false, same)
            },
            other => {
                if scalar_equal(src, &other) {
                    (false, other)
                } else {
                    react_to(path, src, bindings, reactions);
                    (true, json_clone(src))
                }
            },
        },
    }
}

/// Whether binding `src` onto `dst` goes through, see [`bindable`].
#[verifier::loop_isolation(false)]
pub fn is_bindable(dst: &Json, src: &Json, apath: &str, defaults: &ArrayDefaults) -> (r: bool)
    ensures
        r == bindable(dst@, src@, apath@, defaults@),
    decreases src@,
{
    proof {
        lemma_json_view(*dst);
        lemma_json_view(*src);
    }
    match src {
        Json::Array(next) => match dst {
            Json::Array(current) => {
                let ghost cv = views(current@);
                let ghost nv = views(next@);
                let ghost items = adjusted_items(cv, nv, apath@, defaults@);
                let mut fill: Option<usize> = None;
                if current.len() != next.len() {
                    fill = find_entry(&defaults.entries, apath);
                }
                let count = match fill {
                    Some(_) => next.len(),
                    None => current.len(),
                };
                proof {
                    assert(cv.len() == current@.len() && nv.len() == next@.len());
                    assert(items.len() == count);
                    assert(forall|k: int| 0 <= k < count ==> #[trigger] items[k] == match fill {
                        Some(j) => if k < cv.len() { cv[k] } else { defaults@[j as int].1 },
                        None => cv[k],
                    });
                }
                if count > next.len() {
                    return false;
                }
                let mut k: usize = 0;
                proof {
                    assert(items.subrange(0, items.len() as int) =~= items);
                    assert(nv.subrange(0, nv.len() as int) =~= nv);
                }
                while k < count
                    invariant
                        k <= count <= next@.len(),
                        items.len() == count,
                        bindable(dst@, src@, apath@, defaults@) == items_bindable(items.subrange(k as int, count as int), nv.subrange(k as int, nv.len() as int), apath@, defaults@),
                    decreases count - k,
                {
                    let ghost ri = items.subrange(k as int, count as int);
                    let ghost rn = nv.subrange(k as int, nv.len() as int);
                    proof {
                        assert(ri.subrange(1, ri.len() as int) =~= items.subrange(k + 1, count as int));
                        assert(rn.subrange(1, rn.len() as int) =~= nv.subrange(k + 1, nv.len() as int));
                        assert(decreases_to!(src@ => src@->Array_0[k as int]));
                    }
                    let ok = match fill {
                        Some(j) => if k < current.len() {
                            is_bindable(&current[k], &next[k], apath, defaults)
                        } else {
                            is_bindable(&defaults.entries[j].1, &next[k], apath, defaults)
                        },
                        None => is_bindable(&current[k], &next[k], apath, defaults),
                    };
                    if !ok {
                        return false;
                    }
                    k = k + 1;
                }
                true
            },
            _ => true,
        },
        Json::Object(sfields) => match dst {
            Json::Object(fields) => {
                let ghost f0 = entries_view(fields@);
                let ghost sv = entries_view(sfields@);
                let mut k: usize = 0;
                proof {
                    assert(f0.subrange(0, f0.len() as int) =~= f0);
                }
                while k < fields.len()
                    invariant
                        k <= fields@.len(),
                        f0 == entries_view(fields@),
                        bindable(dst@, src@, apath@, defaults@) == fields_bindable(f0.subrange(k as int, f0.len() as int), sv, apath@, defaults@),
                    decreases fields@.len() - k,
                {
                    let ghost rest = f0.subrange(k as int, f0.len() as int);
                    proof {
                        assert(rest.subrange(1, rest.len() as int) =~= f0.subrange(k + 1, f0.len() as int));
                        assert(rest[0] == (fields@[k as int].0@, fields@[k as int].1@));
                    }
                    match find_entry(sfields, fields[k].0.as_str()) {
                        Some(j) => {
                            let capath = child_of(apath, fields[k].0.as_str());
                            proof {
                                assert(decreases_to!(src@ => src@->Object_0[j as int].1));
                            }
                            if !is_bindable(&fields[k].1, &sfields[j].1, capath.as_str(), defaults) {
                                return false;
                            }
                        },
                        None => {},
                    }
                    k = k + 1;
                }
                true
            },
            _ => true,
        },
        _ => true,
    }
}

/// The view model: the paths that have bindings, the model value, and the default item of
/// each array of the model.
pub struct ViewModel {
    pub bindings: Bindings,
    pub model: Json,
    pub model_array_default: ArrayDefaults,
}

impl ViewModel {
    /// Binds `src` onto the model value `dst` at `path` (`arrays_path` being the same path
    /// without array indexes), appends to `reactions` the path and the value of each bound
    /// path that the binding changes, and gives whether anything changed: see [`bound`].
    pub fn bind_value(dst: &mut Json, src: &Json, path: &str, arrays_path: &str, bindings: &Bindings, defaults: &ArrayDefaults, reactions: &mut Vec<(String, Json)>) -> (changed: bool)
        requires
            bindable(old(dst)@, src@, arrays_path@, defaults@),
        ensures
            (changed, final(dst)@, entries_view(final(reactions)@)) == bound(old(dst)@, src@, path@, arrays_path@, bindings@, defaults@, entries_view(old(reactions)@)),
            changed == (final(dst)@ != old(dst)@),
            appended_at_bound(entries_view(old(reactions)@), entries_view(final(reactions)@), bindings@),
            is_scalar(old(dst)@) ==> final(dst)@ == src@,
            !changed ==> entries_view(final(reactions)@) == entries_view(old(reactions)@),
    {
        proof {
            law_changed_exactly_when_value_differs(old(dst)@, src@, path@, arrays_path@, bindings@, defaults@, entries_view(old(reactions)@));
            law_unchanged_binding_reacts_with_nothing(old(dst)@, src@, path@, arrays_path@, bindings@, defaults@, entries_view(old(reactions)@));
            law_reactions_only_at_bound_paths(old(dst)@, src@, path@, arrays_path@, bindings@, defaults@, entries_view(old(reactions)@));
        }
        let mut taken = Json::Null;
        std::mem::swap(&mut taken, dst);
        let (changed, value) = bind_owned(taken, src, path, arrays_path, bindings, defaults, reactions);
        *dst = value;
        changed
    }

    /// Binds `value` onto the whole model and gives the reactions, see [`bound`].
    pub fn bind(&mut self, value: &Json) -> (reactions: Vec<(String, Json)>)
        requires
            bindable(old(self).model@, value@, Seq::empty(), old(self).model_array_default@),
        ensures
            ({
                let r = bound(old(self).model@, value@, Seq::empty(), Seq::empty(), old(self).bindings@, old(self).model_array_default@, Seq::empty());
                final(self).model@ == r.1 && entries_view(reactions@) == r.2
            }),
            final(self).bindings == old(self).bindings,
            final(self).model_array_default == old(self).model_array_default,
            well_formed(value@) ==> bindable(final(self).model@, value@, Seq::empty(), final(self).model_array_default@)
                && bound(final(self).model@, value@, Seq::empty(), Seq::empty(), final(self).bindings@, final(self).model_array_default@, Seq::empty())
                == (false, final(self).model@, Seq::<(Seq<char>, JsonV)>::empty()),
    {
        proof {
            if well_formed(value@) {
                law_binding_twice_changes_nothing(old(self).model@, value@, Seq::empty(), Seq::empty(), old(self).bindings@, old(self).model_array_default@, Seq::empty(), Seq::empty());
            }
        }
        let mut reactions: Vec<(String, Json)> = Vec::new();
        let mut model = Json::Null;
        std::mem::swap(&mut model, &mut self.model);
        let root = "";
        proof {
            reveal_strlit("");
            assert(root@ =~= Seq::<char>::empty());
            assert(entries_view(reactions@) =~= Seq::<(Seq<char>, JsonV)>::empty());
        }
        Self::bind_value(&mut model, value, root, root, &self.bindings, &self.model_array_default, &mut reactions);
        self.model = model;
        reactions
    }
}

/// `entries` with the entry of `key` holding `v`: replaced where there is one, appended
/// where there is none (`HashMap::insert`).
pub open spec fn inserted(entries: Seq<(Seq<char>, JsonV)>, key: Seq<char>, v: JsonV) -> Seq<(Seq<char>, JsonV)> {
    match first_entry(entries, key, 0) {
        Some(k) => entries.update(k, (key, v)),
        None => entries.push((key, v)),
    }
}

/// Whether no array of a value is empty, at any depth.
pub open spec fn arrays_filled(v: JsonV) -> bool
    decreases v, 0int,
{
    match v {
        JsonV::Array(items) => items.len() > 0 && arrays_filled(items[0]),
        JsonV::Object(fields) => fields_filled(fields),
        _ => true,
    }
}

/// Whether no array of a member's value is empty, see [`arrays_filled`].
pub open spec fn fields_filled(fields: Seq<(Seq<char>, JsonV)>) -> bool
    decreases fields, 1int,
{
    if fields.len() > 0 {
        arrays_filled(fields[0].1) && fields_filled(fields.subrange(1, fields.len() as int))
    } else {
        true
    }
}

/// The default items that a model value gives: the first item of each array, under the
/// array's path without indexes (the first item of an array is the path of arrays in
/// it too, so an inner array's default replaces the outer one's), for the members of
/// an object under `path/name`, in order.
pub open spec fn memorized(path: Seq<char>, v: JsonV, entries: Seq<(Seq<char>, JsonV)>) -> Seq<(Seq<char>, JsonV)>
    decreases v, 0int,
{
    match v {
        JsonV::Array(items) => if items.len() > 0 {
            memorized(path, items[0], inserted(entries, path, items[0]))
        } else {
            entries
        },
        JsonV::Object(fields) => memorized_fields(path, fields, entries),
        _ => entries,
    }
}

/// [`memorized`] for each member in order.
pub open spec fn memorized_fields(path: Seq<char>, fields: Seq<(Seq<char>, JsonV)>, entries: Seq<(Seq<char>, JsonV)>) -> Seq<(Seq<char>, JsonV)>
    decreases fields, 1int,
{
    if fields.len() > 0 {
        memorized_fields(path, fields.subrange(1, fields.len() as int), memorized(member_path(path, fields[0].0), fields[0].1, entries))
    } else {
        entries
    }
}

/// Whether no array of the value is empty, see [`arrays_filled`].
pub fn is_filled(value: &Json) -> (r: bool)
    ensures
        r == arrays_filled(value@),
    decreases value@,
{
    proof {
        lemma_json_view(*value);
    }
    match value {
        Json::Array(items) => {
            if items.len() == 0 {
                return false;
            }
            proof {
                assert(decreases_to!(value@ => value@->Array_0[0]));
            }
            is_filled(&items[0])
        },
        Json::Object(fields) => {
            let ghost f0 = entries_view(fields@);
            let mut k: usize = 0;
            proof {
                assert(f0.subrange(0, f0.len() as int) =~= f0);
            }
            while k < fields.len()
                invariant
                    k <= fields@.len(),
                    f0 == entries_view(fields@),
                    value@ == JsonV::Object(f0),
                    arrays_filled(value@) == fields_filled(f0.subrange(k as int, f0.len() as int)),
                decreases fields@.len() - k,
            {
                let ghost rest = f0.subrange(k as int, f0.len() as int);
                proof {
                    assert(rest.subrange(1, rest.len() as int) =~= f0.subrange(k + 1, f0.len() as int));
                    assert(rest[0].1 == fields@[k as int].1@);
                    assert(decreases_to!(value@ => value@->Object_0[k as int].1));
                }
                if !is_filled(&fields[k].1) {
                    return false;
                }
                k = k + 1;
            }
            true
        },
        _ => true,
    }
}

/// Whether no two members of `fields` have the same name, see [`distinct_names`].
fn names_distinct(fields: &Vec<(String, Json)>) -> (r: bool)
    ensures
        r == distinct_names(entries_view(fields@)),
{
    let ghost f = entries_view(fields@);
    let mut i: usize = 0;
    while i < fields.len()
        invariant
            i <= fields@.len(),
            f == entries_view(fields@),
            forall|a: int, b: int| 0 <= a < b < f.len() && a < i ==> f[a].0 != f[b].0,
        decreases fields@.len() - i,
    {
        let mut j: usize = i + 1;
        while j < fields.len()
            invariant
                i < j <= fields@.len(),
                f == entries_view(fields@),
                forall|a: int, b: int| 0 <= a < b < f.len() && a < i ==> f[a].0 != f[b].0,
                forall|b: int| i < b < j ==> f[i as int].0 != f[b].0,
            decreases fields@.len() - j,
        {
            assert(f[i as int].0 == fields@[i as int].0@ && f[j as int].0 == fields@[j as int].0@);
            if str_eq(fields[i].0.as_str(), fields[j].0.as_str()) {
                return false;
            }
            j = j + 1;
        }
        i = i + 1;
    }
    true
}

/// Whether the value is as JSON has it, see [`well_formed`].
pub fn is_well_formed(value: &Json) -> (r: bool)
    ensures
        r == well_formed(value@),
    decreases value@,
{
    proof {
        lemma_json_view(*value);
    }
    match value {
        Json::Array(items) => {
            let ghost f0 = views(items@);
            let mut k: usize = 0;
            proof {
                assert(f0.subrange(0, f0.len() as int) =~= f0);
            }
            while k < items.len()
                invariant
                    k <= items@.len(),
                    f0 == views(items@),
                    value@ == JsonV::Array(f0),
                    well_formed(value@) == items_well_formed(f0.subrange(k as int, f0.len() as int)),
                decreases items@.len() - k,
            {
                let ghost rest = f0.subrange(k as int, f0.len() as int);
                proof {
                    assert(rest.subrange(1, rest.len() as int) =~= f0.subrange(k + 1, f0.len() as int));
                    assert(rest[0] == items@[k as int]@);
                    assert(decreases_to!(value@ => value@->Array_0[k as int]));
                }
                if !is_well_formed(&items[k]) {
                    return false;
                }
                k = k + 1;
            }
            true
        },
        Json::Object(fields) => {
            if !names_distinct(fields) {
                return false;
            }
            let ghost f0 = entries_view(fields@);
            let mut k: usize = 0;
            proof {
                assert(f0.subrange(0, f0.len() as int) =~= f0);
            }
            while k < fields.len()
                invariant
                    k <= fields@.len(),
                    f0 == entries_view(fields@),
                    value@ == JsonV::Object(f0),
                    distinct_names(f0),
                    well_formed(value@) == fields_well_formed(f0.subrange(k as int, f0.len() as int)),
                decreases fields@.len() - k,
            {
                let ghost rest = f0.subrange(k as int, f0.len() as int);
                proof {
                    assert(rest.subrange(1, rest.len() as int) =~= f0.subrange(k + 1, f0.len() as int));
                    assert(rest[0].1 == fields@[k as int].1@);
                    assert(decreases_to!(value@ => value@->Object_0[k as int].1));
                }
                if !is_well_formed(&fields[k].1) {
                    return false;
                }
                k = k + 1;
            }
            true
        },
        _ => true,
    }
}

fn insert_default(defaults: &mut ArrayDefaults, key: &str, v: &Json)
    ensures
        final(defaults)@ == inserted(old(defaults)@, key@, v@),
{
    let c = json_clone(v);
    match find_entry(&defaults.entries, key) {
        Some(k) => {
            let mut p = String::new();
            push_all(&mut p, key);
            defaults.entries.set(k, (p, c));
            proof {
                assert(defaults@ =~= inserted(old(defaults)@, key@, v@));
            }
        },
        None => {
            let mut p = String::new();
            push_all(&mut p, key);
            defaults.entries.push((p, c));
            proof {
                assert(defaults@ =~= inserted(old(defaults)@, key@, v@));
            }
        },
    }
}

fn memorize_array_default(type_path: &str, value: &Json, defaults: &mut ArrayDefaults)
    requires
        arrays_filled(value@),
    ensures
        final(defaults)@ == memorized(type_path@, value@, old(defaults)@),
    decreases value@,
{
    proof {
        lemma_json_view(*value);
    }
    match value {
        Json::Array(items) => {
            proof {
                assert(decreases_to!(value@ => value@->Array_0[0]));
            }
            insert_default(defaults, type_path, &items[0]);
            memorize_array_default(type_path, &items[0], defaults);
        },
        Json::Object(fields) => {
            let ghost f0 = entries_view(fields@);
            let ghost start = defaults@;
            let mut k: usize = 0;
            proof {
                assert(f0.subrange(0, f0.len() as int) =~= f0);
            }
            while k < fields.len()
                invariant
                    value@ == JsonV::Object(f0),
                    f0 == entries_view(fields@),
                    fields_filled(f0.subrange(k as int, f0.len() as int)),
                    k <= fields@.len(),
                    memorized_fields(type_path@, f0, start) == memorized_fields(type_path@, f0.subrange(k as int, f0.len() as int), defaults@),
                decreases fields@.len() - k,
            {
                let ghost rest = f0.subrange(k as int, f0.len() as int);
                proof {
                    assert(rest[0] == f0[k as int]);
                    assert(rest.subrange(1, rest.len() as int) =~= f0.subrange(k + 1, f0.len() as int));
                    assert(decreases_to!(value@ => value@->Object_0[k as int].1));
                }
                let child = child_of(type_path, fields[k].0.as_str());
                memorize_array_default(child.as_str(), &fields[k].1, defaults);
                k = k + 1;
            }
            proof {
                assert(f0.subrange(0, f0.len() as int) =~= f0);
            }
        },
        _ => {},
    }
}

impl ViewModel {
    /// A view model over `model`, with the first item of each of its arrays kept as that
    /// array's default, see [`memorized`].
    pub fn create(bindings: Bindings, model: Json) -> (r: ViewModel)
        requires
            arrays_filled(model@),
        ensures
            r.bindings == bindings,
            r.model == model,
            r.model_array_default@ == memorized(Seq::empty(), model@, Seq::empty()),
            well_formed(model@) ==> bindable(r.model@, r.model@, Seq::empty(), r.model_array_default@)
                && bound(r.model@, r.model@, Seq::empty(), Seq::empty(), r.bindings@, r.model_array_default@, Seq::empty())
                == (false, r.model@, Seq::<(Seq<char>, JsonV)>::empty()),
    {
        proof {
            if well_formed(model@) {
                law_model_binds_onto_itself(model@, bindings@, memorized(Seq::empty(), model@, Seq::empty()));
            }
        }
        let mut defaults = ArrayDefaults { entries: Vec::new() };
        let root = "";
        proof {
            reveal_strlit("");
            assert(root@ =~= Seq::<char>::empty());
            assert(defaults@ =~= Seq::<(Seq<char>, JsonV)>::empty());
        }
        memorize_array_default(root, &model, &mut defaults);
        ViewModel { bindings, model, model_array_default: defaults }
    }
}

} // verus!
