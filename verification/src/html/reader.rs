//! The markup reader: from the text of a document to its [`Html`] tree.
//!
//! The grammar, stated by the spec functions of this module over the characters of the
//! source:
//! - a document is one element (or a self-closing element, or a script) with only
//!   whitespace around it;
//! - an element is `<tag attributes>children</tag>`, a self-closing element is
//!   `<tag attributes/>`, and the content of `<script ...>...</script>` is skipped;
//! - children are separated by optional whitespace; a child is an element or a text;
//! - a text is a run of plain characters (anything but `<` and `{`) and binders;
//! - a binder is `{ path.to.value | transformer | ... }`;
//! - an attribute is `name`, `name=value`, `name="value"`, or one of the binding forms
//!   `?="{binder}"`, `!="{binder}"`, `+name="{binder}"`, `#name="{binder}"`,
//!   `*name="count {binder}"`, `@name="text {binder} text"`, `^name="Key $event {binder}"`.
use vstd::prelude::*;
use crate::lexer::{find_word, find_at, digits_value, digits_usize, views, prefixed, prefixed_total, lemma_prefixed_step, lemma_prefixed_empty, lemma_views_push, lemma_views_empty, lemma_has_at2, in_class, CharClass, run_end, skip_ws, has_at, lemma_run_end, run, skip_spaces, matches_at, same_slice};
use crate::text::{white_end, lemma_white_end, push_char, chars_of, line_end, lemma_line_end, trim_start, first_non_white, lemma_first_non_white, white_space, string_from, string_of};
use crate::html::{Binder, BinderV, TextSpan, TextSpanV, TextBinding, CallbackArgument, CallbackArgumentV, ElementBinding, ElementBindingV, Html, HtmlV, html_view, spans_view, bindings_view};

verus! {

broadcast use lemma_run_end, lemma_line_end;

// ---------------------------------------------------------------------------------------
// Binders

/// The keys of a binder path `key.key.key` that starts at `i`.
pub open spec fn sp_path(s: Seq<char>, i: int) -> Option<(Seq<Seq<char>>, int)>
    decreases s.len() - i,
{
    let e = run_end(s, i, CharClass::Key);
    if e == i {
        None
    } else if 0 <= e < s.len() && s[e] == '.' {
        match sp_path(s, e + 1) {
            Some((rest, end)) => Some((seq![s.subrange(i, e)] + rest, end)),
            None => None,
        }
    } else {
        Some((seq![s.subrange(i, e)], e))
    }
}

/// The transformers `| name | name }` that close a binder, from position `p`.
pub open spec fn sp_pipe(s: Seq<char>, p: int) -> Option<(Seq<Seq<char>>, int)>
    decreases s.len() - p,
{
    let j = skip_ws(s, p);
    if 0 <= j < s.len() && s[j] == '}' {
        Some((Seq::empty(), j + 1))
    } else if 0 <= j < s.len() && s[j] == '|' {
        let k = skip_ws(s, j + 1);
        let e = run_end(s, k, CharClass::Key);
        if e > k {
            match sp_pipe(s, e) {
                Some((rest, end)) => Some((seq![s.subrange(k, e)] + rest, end)),
                None => None,
            }
        } else {
            None
        }
    } else {
        None
    }
}

/// A binder `{ path | transformer }` that starts at `i`.
pub open spec fn sp_binder(s: Seq<char>, i: int) -> Option<(BinderV, int)> {
    if 0 <= i < s.len() && s[i] == '{' {
        match sp_path(s, skip_ws(s, i + 1)) {
            Some((path, e)) => match sp_pipe(s, e) {
                Some((pipe, end)) => Some((BinderV { path, pipe }, end)),
                None => None,
            },
            None => None,
        }
    } else {
        None
    }
}

// ---------------------------------------------------------------------------------------
// Texts

/// Plain runs of class `k` and binders, in the order they appear from `p`.
pub open spec fn sp_spans(s: Seq<char>, p: int, k: CharClass) -> (Seq<TextSpanV>, int)
    decreases s.len() - p,
{
    if 0 <= p < s.len() && s[p] == '{' {
        match sp_binder(s, p) {
            Some((b, e)) => if p < e <= s.len() {
                let (rest, end) = sp_spans(s, e, k);
                (seq![TextSpanV::Binder(b)] + rest, end)
            } else {
                (Seq::empty(), p)
            },
            None => (Seq::empty(), p),
        }
    } else {
        let e = run_end(s, p, k);
        if e > p {
            let (rest, end) = sp_spans(s, e, k);
            (seq![TextSpanV::Str(s.subrange(p, e))] + rest, end)
        } else {
            (Seq::empty(), p)
        }
    }
}

/// The lines after a line break, from position `i`: each without its leading whitespace,
/// after one space; a blank line of the last child is dropped.
pub open spec fn joined_lines(t: Seq<char>, i: int, last: bool) -> Seq<char>
    decreases t.len() - i,
{
    let e = line_end(t, i);
    let line = t.subrange(white_end(t, i, e), e);
    let piece = if line.len() > 0 || !last {
        seq![' '] + line
    } else {
        Seq::empty()
    };
    if 0 <= i && e < t.len() {
        piece + joined_lines(t, e + 1, last)
    } else {
        piece
    }
}

/// A plain run of markup text with its line breaks folded: the first line as it is,
/// the following ones as [`joined_lines`] says.
pub open spec fn fold_lines(t: Seq<char>, last: bool) -> Seq<char> {
    let e = line_end(t, 0);
    if e < t.len() {
        t.subrange(0, e) + joined_lines(t, e + 1, last)
    } else {
        t
    }
}

/// The spans of a text as the document holds them: plain runs folded, empty runs dropped.
pub open spec fn fold_spans(raw: Seq<TextSpanV>, last: bool) -> Seq<TextSpanV>
    decreases raw.len(),
{
    if raw.len() == 0 {
        Seq::empty()
    } else {
        let head = match raw[0] {
            TextSpanV::Str(t) => {
                let folded = fold_lines(t, last);
                if folded.len() > 0 {
                    seq![TextSpanV::Str(folded)]
                } else {
                    Seq::empty()
                }
            },
            TextSpanV::Binder(b) => seq![TextSpanV::Binder(b)],
        };
        head + fold_spans(raw.drop_first(), last)
    }
}

pub open spec fn text_node(index: int, spans: Seq<TextSpanV>) -> HtmlV {
    HtmlV {
        index: index as nat,
        tag: Seq::empty(),
        bindings: Seq::empty(),
        text: Some(spans),
        children: Seq::empty(),
    }
}

/// A text node that starts at `j`; it is the last child where the closing tag follows it.
pub open spec fn sp_text(s: Seq<char>, j: int) -> Option<(HtmlV, int)> {
    let (raw, e) = sp_spans(s, j, CharClass::Text);
    if raw.len() == 0 {
        None
    } else {
        let last = has_at(s, e, seq!['<', '/']);
        Some((text_node(j, fold_spans(raw, last)), e))
    }
}

// ---------------------------------------------------------------------------------------
// Attributes

/// A repeat count: the number that the digits write, or 0 where it does not fit `usize`.
pub open spec fn count_value(t: Seq<char>) -> usize {
    if digits_value(t) <= usize::MAX {
        digits_value(t) as usize
    } else {
        0
    }
}

/// `="`, with optional whitespace around `=`: the position after the opening quote.
pub open spec fn sp_open_quote(s: Seq<char>, p: int) -> Option<int> {
    let q = skip_ws(s, p);
    if 0 <= q < s.len() && s[q] == '=' {
        let r = skip_ws(s, q + 1);
        if 0 <= r < s.len() && s[r] == '"' {
            Some(r + 1)
        } else {
            None
        }
    } else {
        None
    }
}

/// `{binder}"` with optional whitespace around the binder.
pub open spec fn sp_quoted_binder(s: Seq<char>, v: int) -> Option<(BinderV, int)> {
    match sp_binder(s, skip_ws(s, v)) {
        Some((b, e)) => {
            let z = skip_ws(s, e);
            if 0 <= z < s.len() && s[z] == '"' {
                Some((b, z + 1))
            } else {
                None
            }
        },
        None => None,
    }
}

/// The arguments of a callback: keywords, `$event` and binders separated by whitespace.
pub open spec fn sp_arguments(s: Seq<char>, p: int) -> (Seq<CallbackArgumentV>, int)
    decreases s.len() - p,
{
    let j = skip_ws(s, p);
    if 0 <= j < s.len() && s[j] == '{' {
        match sp_binder(s, j) {
            Some((b, e)) => if p < e <= s.len() {
                let (rest, end) = sp_arguments(s, e);
                (seq![CallbackArgumentV::Binder(b)] + rest, end)
            } else {
                (Seq::empty(), p)
            },
            None => (Seq::empty(), p),
        }
    } else if has_at(s, j, seq!['$', 'e', 'v', 'e', 'n', 't']) {
        let (rest, end) = sp_arguments(s, j + 6);
        (seq![CallbackArgumentV::Event] + rest, end)
    } else {
        let e = run_end(s, j, CharClass::Key);
        if e > j && j >= p {
            let (rest, end) = sp_arguments(s, e);
            (seq![CallbackArgumentV::Keyword(s.subrange(j, e))] + rest, end)
        } else {
            (Seq::empty(), p)
        }
    }
}

/// The value of a binding attribute, after its opening quote at `v`, for the binding
/// kind `c` (one of `+ # * @ ^`) and the name `name`.
pub open spec fn sp_binding_value(s: Seq<char>, v: int, c: char, name: Seq<char>) -> Option<
    (ElementBindingV, int),
> {
    if c == '+' {
        match sp_quoted_binder(s, v) {
            Some((b, e)) => Some((ElementBindingV::Alias(name, b), e)),
            None => None,
        }
    } else if c == '#' {
        match sp_quoted_binder(s, v) {
            Some((b, e)) => Some((ElementBindingV::Tag(name, b), e)),
            None => None,
        }
    } else if c == '*' {
        let k = skip_ws(s, v);
        let d = run_end(s, k, CharClass::Digit);
        if d > k {
            match sp_quoted_binder(s, d) {
                Some((b, e)) => Some(
                    (ElementBindingV::Repeat(name, count_value(s.subrange(k, d)), b), e),
                ),
                None => None,
            }
        } else {
            None
        }
    } else if c == '@' {
        let (spans, e) = sp_spans(s, v, CharClass::AttrText);
        if 0 <= e < s.len() && s[e] == '"' {
            Some((ElementBindingV::Attribute(name, spans), e + 1))
        } else {
            None
        }
    } else {
        let (args, e) = sp_arguments(s, v);
        let z = skip_ws(s, e);
        if 0 <= z < s.len() && s[z] == '"' {
            Some((ElementBindingV::Callback(name, args), z + 1))
        } else {
            None
        }
    }
}

pub open spec fn is_binding_mark(c: char) -> bool {
    c == '+' || c == '#' || c == '*' || c == '@' || c == '^'
}

/// A plain attribute `name`, `name=value` or `name="value"` that starts at `j`.
pub open spec fn sp_plain_attribute(s: Seq<char>, j: int) -> Option<(ElementBindingV, int)> {
    let ne = run_end(s, j, CharClass::Name);
    let name = s.subrange(j, ne);
    let q = skip_ws(s, ne);
    if ne == j {
        None
    } else if 0 <= q < s.len() && s[q] == '=' {
        let r = skip_ws(s, q + 1);
        if 0 <= r < s.len() && s[r] == '"' {
            let e = run_end(s, r + 1, CharClass::Quoted);
            if e < s.len() {
                Some((ElementBindingV::Plain(name, s.subrange(r + 1, e)), e + 1))
            } else {
                None
            }
        } else {
            let ue = run_end(s, r, CharClass::Unquoted);
            if ue > r {
                Some((ElementBindingV::Plain(name, s.subrange(r, ue)), ue))
            } else {
                None
            }
        }
    } else {
        Some((ElementBindingV::Plain(name, Seq::empty()), ne))
    }
}

/// One attribute that starts at `j`.
pub open spec fn sp_attribute(s: Seq<char>, j: int) -> Option<(ElementBindingV, int)> {
    if !(0 <= j < s.len()) {
        None
    } else if s[j] == '?' || s[j] == '!' {
        match sp_open_quote(s, j + 1) {
            Some(v) => match sp_quoted_binder(s, v) {
                Some((b, e)) => Some((ElementBindingV::Visibility(s[j] == '?', b), e)),
                None => None,
            },
            None => None,
        }
    } else if is_binding_mark(s[j]) {
        let ne = run_end(s, j + 1, CharClass::Name);
        if ne == j + 1 {
            None
        } else {
            match sp_open_quote(s, ne) {
                Some(v) => sp_binding_value(s, v, s[j], s.subrange(j + 1, ne)),
                None => None,
            }
        }
    } else {
        sp_plain_attribute(s, j)
    }
}

/// The attributes that follow a tag name, from `p`.
pub open spec fn sp_attributes(s: Seq<char>, p: int) -> (Seq<ElementBindingV>, int)
    decreases s.len() - p,
{
    match sp_attribute(s, skip_ws(s, p)) {
        Some((b, e)) => if p < e <= s.len() {
            let (rest, end) = sp_attributes(s, e);
            (seq![b] + rest, end)
        } else {
            (Seq::empty(), p)
        },
        None => (Seq::empty(), p),
    }
}

// ---------------------------------------------------------------------------------------
// Elements

pub open spec fn script_close() -> Seq<char> {
    seq!['<', '/', 's', 'c', 'r', 'i', 'p', 't', '>']
}

pub open spec fn script_tag() -> Seq<char> {
    seq!['s', 'c', 'r', 'i', 'p', 't']
}

pub open spec fn element_node(
    index: int,
    tag: Seq<char>,
    bindings: Seq<ElementBindingV>,
    children: Seq<HtmlV>,
) -> HtmlV {
    HtmlV { index: index as nat, tag, bindings, text: None, children }
}

/// A script after its `>` at `q`: its content is skipped up to `</script>`.
pub open spec fn sp_script(s: Seq<char>, i: int, q: int) -> Option<(HtmlV, int)> {
    match find_word(s, q + 1, script_close()) {
        Some(r) => Some((element_node(i, script_tag(), Seq::empty(), Seq::empty()), r + 9)),
        None => None,
    }
}

/// The start of an element at `i`: `<`, the tag name ending at `te`, the attributes, and
/// the position `q` of the `/>` or `>` that follows them.
pub open spec fn sp_head(s: Seq<char>, i: int) -> Option<(int, Seq<ElementBindingV>, int)> {
    let te = run_end(s, i + 1, CharClass::Name);
    let (bindings, p) = sp_attributes(s, te);
    let q = skip_ws(s, p);
    if 0 <= i < s.len() && s[i] == '<' && te > i + 1 && i < q <= s.len() {
        Some((te, bindings, q))
    } else {
        None
    }
}

/// The closing tag at `r`, after the children of an element that starts at `i`.
pub open spec fn sp_close(
    s: Seq<char>,
    i: int,
    te: int,
    bindings: Seq<ElementBindingV>,
    children: Seq<HtmlV>,
    r: int,
) -> Option<(HtmlV, int)> {
    let tag = s.subrange(i + 1, te);
    let ce = run_end(s, r + 2, CharClass::Name);
    let z = skip_ws(s, ce);
    if has_at(s, r, seq!['<', '/']) && s.subrange(r + 2, ce) == tag && 0 <= z < s.len() && s[z]
        == '>' {
        Some((element_node(i, tag, bindings, children), z + 1))
    } else {
        None
    }
}

/// An element after its head: `/>`, or `>` with a script's content, or `>` with the
/// children and the closing tag.
pub open spec fn sp_tail(s: Seq<char>, i: int, te: int, bindings: Seq<ElementBindingV>, q: int) -> Option<(HtmlV, int)>
    decreases s.len() - q, 1int,
{
    let tag = s.subrange(i + 1, te);
    if has_at(s, q, seq!['/', '>']) {
        Some((element_node(i, tag, bindings, Seq::empty()), q + 2))
    } else if 0 <= q < s.len() && s[q] == '>' {
        if te == i + 7 && has_at(s, i + 1, script_tag()) {
            sp_script(s, i, q)
        } else {
            let (children, r) = sp_children(s, q + 1);
            sp_close(s, i, te, bindings, children, r)
        }
    } else {
        None
    }
}

/// An element that starts at `i` with `<`.
pub open spec fn sp_element(s: Seq<char>, i: int) -> Option<(HtmlV, int)>
    decreases s.len() - i, 2int,
{
    match sp_head(s, i) {
        Some((te, bindings, q)) => if i < q <= s.len() {
            sp_tail(s, i, te, bindings, q)
        } else {
            None
        },
        None => None,
    }
}

/// The children of an element, from `p`, and the position where they end. A child that
/// starts with `<` is an element, any other a text.
pub open spec fn sp_children(s: Seq<char>, p: int) -> (Seq<HtmlV>, int)
    decreases s.len() - p, 3int,
{
    let j = skip_ws(s, p);
    let node = if 0 <= j < s.len() && s[j] == '<' {
        sp_element(s, j)
    } else {
        sp_text(s, j)
    };
    match node {
        Some((n, e)) => if j < e <= s.len() {
            let (rest, r) = sp_children(s, e);
            (seq![n] + rest, r)
        } else {
            (Seq::empty(), j)
        },
        None => (Seq::empty(), j),
    }
}

/// One step of [`sp_children`].
pub proof fn lemma_children_step(s: Seq<char>, p: int)
    ensures
        ({
            let j = skip_ws(s, p);
            let node = if 0 <= j < s.len() && s[j] == '<' {
                sp_element(s, j)
            } else {
                sp_text(s, j)
            };
            sp_children(s, p) == match node {
                Some((n, e)) => if j < e <= s.len() {
                    (seq![n] + sp_children(s, e).0, sp_children(s, e).1)
                } else {
                    (Seq::empty(), j)
                },
                None => (Seq::empty(), j),
            }
        }),
{
}

/// The document that the characters `s` hold: one element with only whitespace around it.
pub open spec fn sp_document(s: Seq<char>) -> Option<HtmlV> {
    let j = skip_ws(s, 0);
    if 0 <= j < s.len() && s[j] == '<' {
        match sp_element(s, j) {
            Some((h, e)) => if skip_ws(s, e) == s.len() {
                Some(h)
            } else {
                None
            },
            None => None,
        }
    } else {
        None
    }
}


// ---------------------------------------------------------------------------------------
// Executable reader

/// Whether an executable parse result is the one that a spec parse names.
pub open spec fn same_result<T: View>(r: Option<(T, usize)>, sp: Option<(T::V, int)>) -> bool {
    match r {
        Some((x, e)) => sp == Some((x@, e as int)),
        None => sp is None,
    }
}

fn parse_path(s: &[char], i: usize) -> (r: Option<(Vec<String>, usize)>)
    requires
        i <= s@.len(),
    ensures
        r matches Some((v, e)) ==> sp_path(s@, i as int) == Some((views(v@), e as int)) && i < e
            <= s@.len(),
        r is None ==> sp_path(s@, i as int) is None,
{
    let mut acc: Vec<String> = Vec::new();
    let mut p = i;
    proof {
        lemma_views_empty::<String>();
        lemma_prefixed_empty(sp_path(s@, i as int), (Seq::empty(), 0));
    }
    loop
        invariant
            i <= p <= s@.len(),
            sp_path(s@, i as int) == prefixed(views(acc@), sp_path(s@, p as int)),
        decreases s@.len() - p,
    {
        let e = run(s, p, CharClass::Key);
        if e == p {
            return None;
        }
        let key = string_from(s, p, e);
        proof {
            lemma_views_push(acc@, key);
        }
        let ghost old_acc = acc@;
        acc.push(key);
        if e < s.len() && s[e] == '.' {
            proof {
                let rest = sp_path(s@, e + 1);
                if let Some((xs, end)) = rest {
                    lemma_prefixed_step(views(old_acc), key@, xs, end);
                }
            }
            p = e + 1;
        } else {
            proof {
                lemma_prefixed_step(views(old_acc), key@, Seq::empty(), e as int);
                assert(seq![key@] + Seq::<Seq<char>>::empty() =~= seq![key@]);
                assert(views(old_acc).push(key@) + Seq::<Seq<char>>::empty() =~= views(old_acc).push(key@));
            }
            return Some((acc, e));
        }
    }
}

fn parse_pipe(s: &[char], p0: usize) -> (r: Option<(Vec<String>, usize)>)
    requires
        p0 <= s@.len(),
    ensures
        r matches Some((v, e)) ==> sp_pipe(s@, p0 as int) == Some((views(v@), e as int)) && p0
            < e <= s@.len(),
        r is None ==> sp_pipe(s@, p0 as int) is None,
{
    let mut acc: Vec<String> = Vec::new();
    let mut p = p0;
    proof {
        lemma_views_empty::<String>();
        lemma_prefixed_empty(sp_pipe(s@, p0 as int), (Seq::empty(), 0));
    }
    loop
        invariant
            p0 <= p <= s@.len(),
            sp_pipe(s@, p0 as int) == prefixed(views(acc@), sp_pipe(s@, p as int)),
        decreases s@.len() - p,
    {
        let j = skip_spaces(s, p);
        if j < s.len() && s[j] == '}' {
            proof {
                assert(views(acc@) + Seq::<Seq<char>>::empty() =~= views(acc@));
            }
            return Some((acc, j + 1));
        }
        if j < s.len() && s[j] == '|' {
            let k = skip_spaces(s, j + 1);
            let e = run(s, k, CharClass::Key);
            if e > k {
                let key = string_from(s, k, e);
                proof {
                    lemma_views_push(acc@, key);
                    if let Some((xs, end)) = sp_pipe(s@, e as int) {
                        lemma_prefixed_step(views(acc@), key@, xs, end);
                    }
                }
                acc.push(key);
                p = e;
            } else {
                return None;
            }
        } else {
            return None;
        }
    }
}

fn parse_binder(s: &[char], i: usize) -> (r: Option<(Binder, usize)>)
    requires
        i <= s@.len(),
    ensures
        same_result(r, sp_binder(s@, i as int)),
        r matches Some((b, e)) ==> i < e <= s@.len(),
{
    if i < s.len() && s[i] == '{' {
        let j = skip_spaces(s, i + 1);
        match parse_path(s, j) {
            Some((path, e)) => match parse_pipe(s, e) {
                Some((pipe, end)) => Some((Binder { path, pipe }, end)),
                None => None,
            },
            None => None,
        }
    } else {
        None
    }
}

/// Plain runs of class `k` and binders from `p0`.
fn parse_spans(s: &[char], p0: usize, k: CharClass) -> (r: (Vec<TextSpan>, usize))
    requires
        p0 <= s@.len(),
    ensures
        sp_spans(s@, p0 as int, k) == (views(r.0@), r.1 as int),
        p0 <= r.1 <= s@.len(),
        r.0@.len() > 0 ==> p0 < r.1,
{
    let mut acc: Vec<TextSpan> = Vec::new();
    let mut p = p0;
    proof {
        lemma_views_empty::<TextSpan>();
        lemma_prefixed_empty(None, sp_spans(s@, p0 as int, k));
    }
    loop
        invariant
            p0 <= p <= s@.len(),
            acc@.len() > 0 ==> p0 < p,
            sp_spans(s@, p0 as int, k) == prefixed_total(views(acc@), sp_spans(s@, p as int, k)),
        decreases s@.len() - p,
    {
        if p < s.len() && s[p] == '{' {
            match parse_binder(s, p) {
                Some((b, e)) => {
                    let span = TextSpan::Binder(b);
                    proof {
                        lemma_views_push(acc@, span);
                        let (xs, end) = sp_spans(s@, e as int, k);
                        lemma_prefixed_step(views(acc@), span@, xs, end);
                    }
                    acc.push(span);
                    p = e;
                },
                None => {
                    proof {
                        assert(views(acc@) + Seq::<TextSpanV>::empty() =~= views(acc@));
                    }
                    return (acc, p);
                },
            }
        } else {
            let e = run(s, p, k);
            if e > p {
                let span = TextSpan::String(string_from(s, p, e));
                proof {
                    lemma_views_push(acc@, span);
                    let (xs, end) = sp_spans(s@, e as int, k);
                    lemma_prefixed_step(views(acc@), span@, xs, end);
                }
                acc.push(span);
                p = e;
            } else {
                proof {
                    assert(views(acc@) + Seq::<TextSpanV>::empty() =~= views(acc@));
                }
                return (acc, p);
            }
        }
    }
}

fn line_end_at(t: &[char], i: usize) -> (e: usize)
    requires
        i <= t@.len(),
    ensures
        e == line_end(t@, i as int),
        i <= e <= t@.len(),
{
    let mut e = i;
    while e < t.len() && t[e] != '\n'
        invariant
            i <= e <= t@.len(),
            line_end(t@, i as int) == line_end(t@, e as int),
        decreases t@.len() - e,
    {
        e = e + 1;
    }
    e
}

fn white_end_at(t: &[char], i: usize, e: usize) -> (a: usize)
    requires
        i <= e <= t@.len(),
    ensures
        a == white_end(t@, i as int, e as int),
        i <= a <= e,
{
    let mut a = i;
    while a < e && white_space(t[a])
        invariant
            i <= a <= e <= t@.len(),
            white_end(t@, i as int, e as int) == white_end(t@, a as int, e as int),
        decreases e - a,
    {
        a = a + 1;
    }
    a
}

fn push_range(out: &mut String, t: &[char], a: usize, b: usize)
    requires
        a <= b <= t@.len(),
    ensures
        final(out)@ == old(out)@ + t@.subrange(a as int, b as int),
{
    let mut k = a;
    assert(old(out)@ + t@.subrange(a as int, a as int) =~= old(out)@);
    while k < b
        invariant
            a <= k <= b <= t@.len(),
            out@ == old(out)@ + t@.subrange(a as int, k as int),
        decreases b - k,
    {
        push_char(out, t[k]);
        assert(old(out)@ + t@.subrange(a as int, k + 1) =~= old(out)@ + t@.subrange(
            a as int,
            k as int,
        ) + seq![t@[k as int]]);
        k = k + 1;
    }
}

/// Folds the line breaks of a plain run of markup text, see [`fold_lines`].
pub fn fold_text(t: &[char], last: bool) -> (r: String)
    ensures
        r@ == fold_lines(t@, last),
{
    let n = t.len();
    let e0 = line_end_at(t, 0);
    let mut out = String::new();
    push_range(&mut out, t, 0, e0);
    if e0 == n {
        assert(t@.subrange(0, n as int) =~= t@);
        return out;
    }
    let mut i = e0 + 1;
    loop
        invariant
            0 < i <= n == t@.len(),
            fold_lines(t@, last) == out@ + joined_lines(t@, i as int, last),
        decreases n - i,
    {
        let e = line_end_at(t, i);
        let a = white_end_at(t, i, e);
        let ghost before = out@;
        if a < e || !last {
            push_char(&mut out, ' ');
            push_range(&mut out, t, a, e);
        }
        proof {
            let line = t@.subrange(a as int, e as int);
            let piece = if line.len() > 0 || !last {
                seq![' '] + line
            } else {
                Seq::empty()
            };
            assert(out@ =~= before + piece);
            if e < n {
                assert(before + (piece + joined_lines(t@, e + 1, last)) =~= out@ + joined_lines(
                    t@,
                    e + 1,
                    last,
                ));
            }
        }
        if e < n {
            i = e + 1;
        } else {
            return out;
        }
    }
}

/// The spans of a text with their plain runs folded and the empty ones dropped.
fn fold_text_spans(raw: Vec<TextSpan>, last: bool) -> (r: Vec<TextSpan>)
    ensures
        views(r@) == fold_spans(views(raw@), last),
{
    let ghost rv = views(raw@);
    let n = raw.len();
    let mut acc: Vec<TextSpan> = Vec::new();
    let mut k: usize = 0;
    proof {
        lemma_views_empty::<TextSpan>();
        assert(rv.subrange(0, n as int) =~= rv);
        assert(Seq::<TextSpanV>::empty() + fold_spans(rv, last) =~= fold_spans(rv, last));
    }
    while k < n
        invariant
            n == raw@.len(),
            rv == views(raw@),
            k <= n,
            fold_spans(rv, last) == views(acc@) + fold_spans(rv.subrange(k as int, n as int), last),
        decreases n - k,
    {
        let ghost before = views(acc@);
        assert(rv.subrange(k as int, n as int).drop_first() =~= rv.subrange(k + 1, n as int));
        assert(rv.subrange(k as int, n as int)[0] == raw@[k as int]@);
        match &raw[k] {
            TextSpan::String(text) => {
                let chars = chars_of(text.as_str());
                let folded = fold_text(chars.as_slice(), last);
                if !folded.as_str().is_empty() {
                    let span = TextSpan::String(folded);
                    proof {
                        lemma_views_push(acc@, span);
                    }
                    acc.push(span);
                }
            },
            TextSpan::Binder(b) => {
                let span = TextSpan::Binder(b.clone());
                proof {
                    lemma_views_push(acc@, span);
                }
                acc.push(span);
            },
        }
        proof {
            let rest = fold_spans(rv.subrange(k + 1, n as int), last);
            let head = views(acc@).subrange(before.len() as int, views(acc@).len() as int);
            assert(views(acc@) =~= before + head);
            assert(before + (head + rest) =~= views(acc@) + rest);
        }
        k = k + 1;
    }
    assert(rv.subrange(n as int, n as int) =~= Seq::<TextSpanV>::empty());
    assert(views(acc@) + Seq::<TextSpanV>::empty() =~= views(acc@));
    acc
}


fn parse_text(s: &[char], j: usize) -> (r: Option<(Html, usize)>)
    requires
        j <= s@.len(),
    ensures
        same_result(r, sp_text(s@, j as int)),
        r matches Some((h, e)) ==> j < e <= s@.len(),
{
    let (raw, e) = parse_spans(s, j, CharClass::Text);
    if raw.len() == 0 {
        return None;
    }
    let last = e < s.len() && e + 1 < s.len() && s[e] == '<' && s[e + 1] == '/';
    proof {
        lemma_has_at2(s@, e as int, '<', '/');
    }
    let spans = fold_text_spans(raw, last);
    let h = Html {
        index: j,
        tag: String::new(),
        bindings: Vec::new(),
        text: Some(TextBinding { spans }),
        children: Vec::new(),
    };
    proof {
        reveal(html_view);
        let hv = html_view(h);
        assert(hv.children =~= Seq::<HtmlV>::empty());
        assert(hv.bindings =~= Seq::<ElementBindingV>::empty());
        assert(hv == text_node(j as int, views(spans@)));
        if views(raw@).len() == 0 {
            assert(raw@.len() == 0);
        }
    }
    Some((h, e))
}

fn open_quote(s: &[char], p: usize) -> (r: Option<usize>)
    requires
        p <= s@.len(),
    ensures
        r matches Some(v) ==> sp_open_quote(s@, p as int) == Some(v as int) && p < v <= s@.len(),
        r is None ==> sp_open_quote(s@, p as int) is None,
{
    let q = skip_spaces(s, p);
    if q < s.len() && s[q] == '=' {
        let r = skip_spaces(s, q + 1);
        if r < s.len() && s[r] == '"' {
            return Some(r + 1);
        }
    }
    None
}

fn parse_quoted_binder(s: &[char], v: usize) -> (r: Option<(Binder, usize)>)
    requires
        v <= s@.len(),
    ensures
        same_result(r, sp_quoted_binder(s@, v as int)),
        r matches Some((b, e)) ==> v < e <= s@.len(),
{
    let k = skip_spaces(s, v);
    match parse_binder(s, k) {
        Some((b, e)) => {
            let z = skip_spaces(s, e);
            if z < s.len() && s[z] == '"' {
                Some((b, z + 1))
            } else {
                None
            }
        },
        None => None,
    }
}

fn parse_arguments(s: &[char], p0: usize) -> (r: (Vec<CallbackArgument>, usize))
    requires
        p0 <= s@.len(),
    ensures
        sp_arguments(s@, p0 as int) == (views(r.0@), r.1 as int),
        p0 <= r.1 <= s@.len(),
{
    let event = ['$', 'e', 'v', 'e', 'n', 't'];
    assert(event@ =~= seq!['$', 'e', 'v', 'e', 'n', 't']);
    let mut acc: Vec<CallbackArgument> = Vec::new();
    let mut p = p0;
    proof {
        lemma_views_empty::<CallbackArgument>();
        lemma_prefixed_empty(None, sp_arguments(s@, p0 as int));
    }
    loop
        invariant
            p0 <= p <= s@.len(),
            event@ == seq!['$', 'e', 'v', 'e', 'n', 't'],
            sp_arguments(s@, p0 as int) == prefixed_total(views(acc@), sp_arguments(s@, p as int)),
        decreases s@.len() - p,
    {
        let j = skip_spaces(s, p);
        let argument;
        let next;
        if j < s.len() && s[j] == '{' {
            match parse_binder(s, j) {
                Some((b, e)) => {
                    argument = CallbackArgument::Binder(b);
                    next = e;
                },
                None => {
                    assert(views(acc@) + Seq::<CallbackArgumentV>::empty() =~= views(acc@));
                    return (acc, p);
                },
            }
        } else if matches_at(s, j, &event) {
            argument = CallbackArgument::Event;
            next = j + 6;
        } else {
            let e = run(s, j, CharClass::Key);
            if e > j {
                argument = CallbackArgument::Keyword(string_from(s, j, e));
                next = e;
            } else {
                assert(views(acc@) + Seq::<CallbackArgumentV>::empty() =~= views(acc@));
                return (acc, p);
            }
        }
        proof {
            lemma_views_push(acc@, argument);
            let (xs, end) = sp_arguments(s@, next as int);
            lemma_prefixed_step(views(acc@), argument@, xs, end);
        }
        acc.push(argument);
        p = next;
    }
}

fn binding_mark(c: char) -> (b: bool)
    ensures
        b == is_binding_mark(c),
{
    c == '+' || c == '#' || c == '*' || c == '@' || c == '^'
}

fn parse_binding_value(s: &[char], v: usize, c: char, name: String) -> (r: Option<
    (ElementBinding, usize),
>)
    requires
        v <= s@.len(),
        is_binding_mark(c),
    ensures
        same_result(r, sp_binding_value(s@, v as int, c, name@)),
        r matches Some((b, e)) ==> v < e <= s@.len(),
{
    if c == '+' {
        match parse_quoted_binder(s, v) {
            Some((b, e)) => Some((ElementBinding::Alias(name, b), e)),
            None => None,
        }
    } else if c == '#' {
        match parse_quoted_binder(s, v) {
            Some((b, e)) => Some((ElementBinding::Tag(name, b), e)),
            None => None,
        }
    } else if c == '*' {
        let k = skip_spaces(s, v);
        let d = run(s, k, CharClass::Digit);
        if d > k {
            let count = match digits_usize(s, k, d) {
                Some(n) => n,
                None => 0,
            };
            match parse_quoted_binder(s, d) {
                Some((b, e)) => Some((ElementBinding::Repeat(name, count, b), e)),
                None => None,
            }
        } else {
            None
        }
    } else if c == '@' {
        let (spans, e) = parse_spans(s, v, CharClass::AttrText);
        if e < s.len() && s[e] == '"' {
            Some((ElementBinding::Attribute(name, TextBinding { spans }), e + 1))
        } else {
            None
        }
    } else {
        let (args, e) = parse_arguments(s, v);
        let z = skip_spaces(s, e);
        if z < s.len() && s[z] == '"' {
            Some((ElementBinding::Callback(name, args), z + 1))
        } else {
            None
        }
    }
}

fn parse_plain_attribute(s: &[char], j: usize) -> (r: Option<(ElementBinding, usize)>)
    requires
        j <= s@.len(),
    ensures
        same_result(r, sp_plain_attribute(s@, j as int)),
        r matches Some((b, e)) ==> j < e <= s@.len(),
{
    let ne = run(s, j, CharClass::Name);
    if ne == j {
        return None;
    }
    let name = string_from(s, j, ne);
    let q = skip_spaces(s, ne);
    if q < s.len() && s[q] == '=' {
        let r = skip_spaces(s, q + 1);
        if r < s.len() && s[r] == '"' {
            let e = run(s, r + 1, CharClass::Quoted);
            if e < s.len() {
                Some((ElementBinding::Plain(name, string_from(s, r + 1, e)), e + 1))
            } else {
                None
            }
        } else {
            let ue = run(s, r, CharClass::Unquoted);
            if ue > r {
                Some((ElementBinding::Plain(name, string_from(s, r, ue)), ue))
            } else {
                None
            }
        }
    } else {
        Some((ElementBinding::Plain(name, String::new()), ne))
    }
}

fn parse_attribute(s: &[char], j: usize) -> (r: Option<(ElementBinding, usize)>)
    requires
        j <= s@.len(),
    ensures
        same_result(r, sp_attribute(s@, j as int)),
        r matches Some((b, e)) ==> j < e <= s@.len(),
{
    if j >= s.len() {
        return None;
    }
    let c = s[j];
    if c == '?' || c == '!' {
        match open_quote(s, j + 1) {
            Some(v) => match parse_quoted_binder(s, v) {
                Some((b, e)) => Some((ElementBinding::Visibility(c == '?', b), e)),
                None => None,
            },
            None => None,
        }
    } else if binding_mark(c) {
        let ne = run(s, j + 1, CharClass::Name);
        if ne == j + 1 {
            return None;
        }
        match open_quote(s, ne) {
            Some(v) => parse_binding_value(s, v, c, string_from(s, j + 1, ne)),
            None => None,
        }
    } else {
        parse_plain_attribute(s, j)
    }
}

fn parse_attributes(s: &[char], p0: usize) -> (r: (Vec<ElementBinding>, usize))
    requires
        p0 <= s@.len(),
    ensures
        sp_attributes(s@, p0 as int) == (views(r.0@), r.1 as int),
        p0 <= r.1 <= s@.len(),
{
    let mut acc: Vec<ElementBinding> = Vec::new();
    let mut p = p0;
    proof {
        lemma_views_empty::<ElementBinding>();
        lemma_prefixed_empty(None, sp_attributes(s@, p0 as int));
    }
    loop
        invariant
            p0 <= p <= s@.len(),
            sp_attributes(s@, p0 as int) == prefixed_total(views(acc@), sp_attributes(s@, p as int)),
        decreases s@.len() - p,
    {
        let j = skip_spaces(s, p);
        match parse_attribute(s, j) {
            Some((b, e)) => {
                proof {
                    lemma_views_push(acc@, b);
                    let (xs, end) = sp_attributes(s@, e as int);
                    lemma_prefixed_step(views(acc@), b@, xs, end);
                }
                acc.push(b);
                p = e;
            },
            None => {
                assert(views(acc@) + Seq::<ElementBindingV>::empty() =~= views(acc@));
                return (acc, p);
            },
        }
    }
}

fn element_html(index: usize, tag: String, bindings: Vec<ElementBinding>, children: Vec<Html>) -> (h: Html)
    ensures
        h@ == element_node(index as int, tag@, views(bindings@), views(children@)),
{
    let h = Html { index, tag, bindings, text: None, children };
    proof {
        reveal(html_view);
        assert(html_view(h).children =~= views(children@));
    }
    h
}

fn parse_script(s: &[char], i: usize, q: usize) -> (r: Option<(Html, usize)>)
    requires
        i < q < s@.len(),
    ensures
        same_result(r, sp_script(s@, i as int, q as int)),
        r matches Some((h, e)) ==> q < e <= s@.len(),
{
    let n = s.len();
    let close = ['<', '/', 's', 'c', 'r', 'i', 'p', 't', '>'];
    assert(close@ =~= script_close());
    let tag = ['s', 'c', 'r', 'i', 'p', 't'];
    assert(tag@ =~= script_tag());
    proof {
        lemma_views_empty::<ElementBinding>();
        lemma_views_empty::<Html>();
    }
    match find_at(s, q + 1, &close) {
        Some(r) => Some((element_html(i, string_of(&tag), Vec::new(), Vec::new()), r + 9)),
        None => None,
    }
}

fn parse_head(s: &[char], i: usize) -> (r: Option<(usize, Vec<ElementBinding>, usize)>)
    requires
        i <= s@.len(),
    ensures
        r matches Some((te, b, q)) ==> sp_head(s@, i as int) == Some(
            (te as int, views(b@), q as int),
        ) && i < te <= q <= s@.len(),
        r is None ==> sp_head(s@, i as int) is None,
{
    if !(i < s.len() && s[i] == '<') {
        return None;
    }
    let te = run(s, i + 1, CharClass::Name);
    if te == i + 1 {
        return None;
    }
    let (bindings, p) = parse_attributes(s, te);
    let q = skip_spaces(s, p);
    Some((te, bindings, q))
}

fn parse_close(
    s: &[char],
    i: usize,
    te: usize,
    bindings: Vec<ElementBinding>,
    children: Vec<Html>,
    r: usize,
) -> (res: Option<(Html, usize)>)
    requires
        i < te <= r <= s@.len(),
    ensures
        same_result(res, sp_close(s@, i as int, te as int, views(bindings@), views(children@), r as int)),
        res matches Some((h, e)) ==> r < e <= s@.len(),
{
    proof {
        lemma_has_at2(s@, r as int, '<', '/');
    }
    if !(r < s.len() && r + 1 < s.len() && s[r] == '<' && s[r + 1] == '/') {
        return None;
    }
    let ce = run(s, r + 2, CharClass::Name);
    if !same_slice(s, r + 2, ce, i + 1, te) {
        return None;
    }
    let z = skip_spaces(s, ce);
    if z < s.len() && s[z] == '>' {
        Some((element_html(i, string_from(s, i + 1, te), bindings, children), z + 1))
    } else {
        None
    }
}

fn parse_body(
    s: &[char],
    i: usize,
    te: usize,
    bindings: Vec<ElementBinding>,
    q: usize,
) -> (r: Option<(Html, usize)>)
    requires
        i < te <= q < s@.len(),
    ensures
        same_result(r, sp_close(s@, i as int, te as int, views(bindings@), sp_children(s@, q + 1).0, sp_children(s@, q + 1).1)),
        r matches Some((h, e)) ==> q < e <= s@.len(),
    decreases s@.len() - q, 0int,
{
    let n = s.len();
    let (children, r) = parse_children(s, q + 1);
    parse_close(s, i, te, bindings, children, r)
}

#[verifier::rlimit(100)]
#[verifier::spinoff_prover]
fn parse_tail(
    s: &[char],
    i: usize,
    te: usize,
    bindings: Vec<ElementBinding>,
    q: usize,
) -> (r: Option<(Html, usize)>)
    requires
        i < te <= q <= s@.len(),
    ensures
        same_result(r, sp_tail(s@, i as int, te as int, views(bindings@), q as int)),
        r matches Some((h, e)) ==> q < e <= s@.len(),
    decreases s@.len() - q, 1int,
{
    let ghost tag = s@.subrange(i + 1, te as int);
    proof {
        lemma_has_at2(s@, q as int, '/', '>');
    }
    if q < s.len() && q + 1 < s.len() && s[q] == '/' && s[q + 1] == '>' {
        let tag = string_from(s, i + 1, te);
        proof {
            lemma_views_empty::<Html>();
        }
        return Some((element_html(i, tag, bindings, Vec::new()), q + 2));
    }
    if !(q < s.len() && s[q] == '>') {
        return None;
    }
    let script = ['s', 'c', 'r', 'i', 'p', 't'];
    assert(script@ =~= script_tag());
    let is_script = te - (i + 1) == 6 && matches_at(s, i + 1, &script);
    if is_script {
        return parse_script(s, i, q);
    }
    parse_body(s, i, te, bindings, q)
}

fn parse_element(s: &[char], i: usize) -> (r: Option<(Html, usize)>)
    requires
        i <= s@.len(),
    ensures
        same_result(r, sp_element(s@, i as int)),
        r matches Some((h, e)) ==> i < e <= s@.len(),
    decreases s@.len() - i, 2int,
{
    match parse_head(s, i) {
        Some((te, bindings, q)) => parse_tail(s, i, te, bindings, q),
        None => None,
    }
}

fn parse_children(s: &[char], p0: usize) -> (r: (Vec<Html>, usize))
    requires
        p0 <= s@.len(),
    ensures
        sp_children(s@, p0 as int) == (views(r.0@), r.1 as int),
        p0 <= r.1 <= s@.len(),
    decreases s@.len() - p0, 3int,
{

    let mut acc: Vec<Html> = Vec::new();
    let mut p = p0;
    proof {
        lemma_views_empty::<Html>();
        lemma_prefixed_empty(None, sp_children(s@, p0 as int));
    }
    loop
        invariant
            p0 <= p <= s@.len(),
            sp_children(s@, p0 as int) == prefixed_total(views(acc@), sp_children(s@, p as int)),
        decreases s@.len() - p,
    {
        proof {
            lemma_children_step(s@, p as int);
        }
        let j = skip_spaces(s, p);
        let node = if j < s.len() && s[j] == '<' {
            parse_element(s, j)
        } else {
            parse_text(s, j)
        };
        match node {
            Some((n, e)) => {
                proof {
                    lemma_views_push(acc@, n);
                    let (xs, end) = sp_children(s@, e as int);
                    lemma_prefixed_step(views(acc@), n@, xs, end);
                }
                acc.push(n);
                p = e;
            },
            None => {
                assert(views(acc@) + Seq::<HtmlV>::empty() =~= views(acc@));
                return (acc, j);
            },
        }
    }
}

/// Why a document could not be read.
#[derive(Debug)]
pub enum ReaderError {
    /// The text is not a document of the grammar.
    Parsing,
    EmptyDocument,
    Generic(String),
}

/// Reads a document: one element with only whitespace around it.
pub fn read_html(html: &str) -> (r: Result<Html, ReaderError>)
    ensures
        r matches Ok(h) ==> sp_document(html@) == Some(h@),
        r matches Err(e) ==> sp_document(html@) is None && e is Parsing,
{
    let chars = chars_of(html);
    let s = chars.as_slice();
    let j = skip_spaces(s, 0);
    if !(j < s.len() && s[j] == '<') {
        return Err(ReaderError::Parsing);
    }
    match parse_element(s, j) {
        Some((h, e)) => {
            if skip_spaces(s, e) == s.len() {
                Ok(h)
            } else {
                Err(ReaderError::Parsing)
            }
        },
        None => Err(ReaderError::Parsing),
    }
}

} // verus!
