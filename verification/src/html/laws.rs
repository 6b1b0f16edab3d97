//! What the markup reader reads back of what the model writes.
use vstd::prelude::*;
use crate::html::{binder_text, json_pointer, escaped, pointer_tokens, BinderV, ElementBindingV, HtmlV};
use crate::html::reader::{
    sp_binder, sp_path, sp_pipe, sp_element, sp_head, sp_tail, sp_children, sp_text, sp_script,
    sp_close, sp_document, element_node, script_tag, script_close, lemma_children_step,
};
use crate::lexer::{in_class, run_end, skip_ws, has_at, find_word, lemma_find_word, CharClass};
use crate::text::{joined, lemma_joined_front};

verus! {

/// A key of a binder path or a transformer name: one character or more of the class
/// [`CharClass::Key`].
pub open spec fn is_key(t: Seq<char>) -> bool {
    t.len() > 0 && forall|j: int| 0 <= j < t.len() ==> in_class(#[trigger] t[j], CharClass::Key)
}

/// A binder that markup can write: a path of one key or more, and transformers that are
/// keys.
pub open spec fn writable(b: BinderV) -> bool {
    &&& b.path.len() > 0
    &&& forall|i: int| 0 <= i < b.path.len() ==> is_key(#[trigger] b.path[i])
    &&& forall|i: int| 0 <= i < b.pipe.len() ==> is_key(#[trigger] b.pipe[i])
}

proof fn lemma_run_exact(s: Seq<char>, i: int, e: int, k: CharClass)
    requires
        0 <= i <= e <= s.len(),
        forall|j: int| i <= j < e ==> in_class(#[trigger] s[j], k),
        e < s.len() ==> !in_class(s[e], k),
    ensures
        run_end(s, i, k) == e,
    decreases e - i,
{
    if i < e {
        lemma_run_exact(s, i + 1, e, k);
    }
}

pub open spec fn dot() -> Seq<char> {
    seq!['.']
}

pub open spec fn bar() -> Seq<char> {
    seq![' ', '|', ' ']
}

/// A path written at `i`, followed by a space, reads back.
proof fn lemma_path_reads_back(s: Seq<char>, i: int, path: Seq<Seq<char>>, tail: Seq<char>)
    requires
        0 <= i <= s.len(),
        path.len() > 0,
        forall|k: int| 0 <= k < path.len() ==> is_key(#[trigger] path[k]),
        s.subrange(i, s.len() as int) == joined(path, dot()) + tail,
        tail.len() > 0,
        tail[0] == ' ',
    ensures
        sp_path(s, i) == Some((path, i + joined(path, dot()).len())),
    decreases path.len(),
{
    let x = s.subrange(i, s.len() as int);
    assert(x.len() == s.len() - i);
    let p0 = path[0];
    assert(is_key(p0));
    let e: int = i + p0.len();
    if path.len() == 1 {
        assert(joined(path, dot()) == p0);
        assert(x =~= p0 + tail);
        assert forall|j: int| i <= j < e implies in_class(#[trigger] s[j], CharClass::Key) by {
            assert(s[j] == x[j - i]);
            assert(x[j - i] == p0[j - i]);
        }
        assert(s[e] == x[e - i]);
        lemma_run_exact(s, i, e, CharClass::Key);
        assert(s.subrange(i, e) =~= p0) by {
            assert forall|j: int| 0 <= j < p0.len() implies s.subrange(i, e)[j] == p0[j] by {
                assert(s[i + j] == x[j]);
            }
        }
        assert(seq![p0] =~= path);
    } else {
        let rest = path.subrange(1, path.len() as int);
        lemma_joined_front(path, dot());
        let jr = joined(rest, dot());
        assert(x =~= p0 + dot() + jr + tail);
        assert forall|j: int| i <= j < e implies in_class(#[trigger] s[j], CharClass::Key) by {
            assert(s[j] == x[j - i]);
        }
        assert(s[e] == x[e - i]);
        assert(s[e] == '.');
        lemma_run_exact(s, i, e, CharClass::Key);
        assert(s.subrange(e + 1, s.len() as int) =~= jr + tail) by {
            assert forall|j: int| 0 <= j < jr.len() + tail.len() implies s.subrange(e + 1, s.len() as int)[j] == (jr + tail)[j] by {
                assert(s[e + 1 + j] == x[p0.len() + 1 + j]);
            }
        }
        assert forall|k: int| 0 <= k < rest.len() implies is_key(#[trigger] rest[k]) by {
            assert(rest[k] == path[k + 1]);
        }
        lemma_path_reads_back(s, e + 1, rest, tail);
        assert(s.subrange(i, e) =~= p0) by {
            assert forall|j: int| 0 <= j < p0.len() implies s.subrange(i, e)[j] == p0[j] by {
                assert(s[i + j] == x[j]);
            }
        }
        assert(seq![p0] + rest =~= path);
    }
}

/// Transformers written at `p` as ` | a | b }` read back, up to the end of `s`.
proof fn lemma_pipe_reads_back(s: Seq<char>, p: int, pipe: Seq<Seq<char>>)
    requires
        0 <= p <= s.len(),
        pipe.len() > 0,
        forall|k: int| 0 <= k < pipe.len() ==> is_key(#[trigger] pipe[k]),
        s.subrange(p, s.len() as int) == bar() + joined(pipe, bar()) + seq![' ', '}'],
    ensures
        sp_pipe(s, p) == Some((pipe, s.len() as int)),
    decreases pipe.len(),
{
    let x = s.subrange(p, s.len() as int);
    assert(x.len() == s.len() - p);
    let p0 = pipe[0];
    assert(is_key(p0));
    if pipe.len() == 1 {
        assert(joined(pipe, bar()) == p0);
        assert(x =~= bar() + p0 + seq![' ', '}']);
    } else {
        lemma_joined_front(pipe, bar());
        assert(x =~= bar() + p0 + bar() + joined(pipe.subrange(1, pipe.len() as int), bar()) + seq![' ', '}']);
    }
    assert(x.len() >= 5 + p0.len());
    assert(s[p] == x[0] && s[p + 1] == x[1] && s[p + 2] == x[2] && s[p + 3] == x[3]);
    assert(x[3] == p0[0]);
    lemma_run_exact(s, p, p + 1, CharClass::Space);
    assert(skip_ws(s, p) == p + 1);
    lemma_run_exact(s, p + 2, p + 3, CharClass::Space);
    let e: int = p + 3 + p0.len();
    if pipe.len() == 1 {
        assert(joined(pipe, bar()) == p0);
        assert(x =~= bar() + p0 + seq![' ', '}']);
        assert forall|j: int| p + 3 <= j < e implies in_class(#[trigger] s[j], CharClass::Key) by {
            assert(s[j] == x[j - p]);
        }
        assert(s[e] == x[e - p]);
        assert(s[e + 1] == x[e + 1 - p]);
        lemma_run_exact(s, p + 3, e, CharClass::Key);
        lemma_run_exact(s, e, e + 1, CharClass::Space);
        assert(s.len() == e + 2);
        assert(s.subrange(p + 3, e) =~= p0) by {
            assert forall|j: int| 0 <= j < p0.len() implies s.subrange(p + 3, e)[j] == p0[j] by {
                assert(s[p + 3 + j] == x[3 + j]);
            }
        }
        assert(sp_pipe(s, e) == Some((Seq::<Seq<char>>::empty(), e + 2)));
        assert(seq![p0] + Seq::<Seq<char>>::empty() =~= pipe);
    } else {
        let rest = pipe.subrange(1, pipe.len() as int);
        lemma_joined_front(pipe, bar());
        let jr = joined(rest, bar());
        assert(x =~= bar() + p0 + bar() + jr + seq![' ', '}']);
        assert forall|j: int| p + 3 <= j < e implies in_class(#[trigger] s[j], CharClass::Key) by {
            assert(s[j] == x[j - p]);
        }
        assert(s[e] == x[e - p]);
        lemma_run_exact(s, p + 3, e, CharClass::Key);
        assert(s.subrange(e, s.len() as int) =~= bar() + jr + seq![' ', '}']) by {
            assert forall|j: int| 0 <= j < s.len() - e implies s.subrange(e, s.len() as int)[j] == (bar() + jr + seq![' ', '}'])[j] by {
                assert(s[e + j] == x[3 + p0.len() + j]);
            }
        }
        assert forall|k: int| 0 <= k < rest.len() implies is_key(#[trigger] rest[k]) by {
            assert(rest[k] == pipe[k + 1]);
        }
        lemma_pipe_reads_back(s, e, rest);
        assert(s.subrange(p + 3, e) =~= p0) by {
            assert forall|j: int| 0 <= j < p0.len() implies s.subrange(p + 3, e)[j] == p0[j] by {
                assert(s[p + 3 + j] == x[3 + j]);
            }
        }
        assert(seq![p0] + rest =~= pipe);
    }
}

/// The reader reads back what a binder writes: for a binder whose path and transformers
/// are keys, reading [`binder_text`] gives the same binder and stops at its end.
#[verifier::rlimit(100)]
#[verifier::spinoff_prover]
pub proof fn law_binder_text_reads_back(b: BinderV)
    requires
        writable(b),
    ensures
        sp_binder(binder_text(b), 0) == Some((b, binder_text(b).len() as int)),
{
    let s = binder_text(b);
    let path = joined(b.path, dot());
    assert(is_key(b.path[0]));
    let tail = if b.pipe.len() > 0 {
        bar() + joined(b.pipe, bar()) + seq![' ', '}']
    } else {
        seq![' ', '}']
    };
    assert(s =~= seq!['{', ' '] + path + tail);
    assert(path[0] == b.path[0][0]) by {
        if b.path.len() > 1 {
            lemma_joined_front(b.path, dot());
        }
    }
    lemma_run_exact(s, 1, 2, CharClass::Space);
    assert(s.subrange(2, s.len() as int) =~= path + tail);
    lemma_path_reads_back(s, 2, b.path, tail);
    let e: int = 2 + path.len() as int;
    assert(s.subrange(e, s.len() as int) =~= tail);
    assert(skip_ws(s, 1) == 2);
    if b.pipe.len() > 0 {
        lemma_pipe_reads_back(s, e, b.pipe);
    } else {
        assert(tail.len() == 2);
        assert(s[e] == tail[0] && s[e + 1] == tail[1]);
        lemma_run_exact(s, e, e + 1, CharClass::Space);
        assert(sp_pipe(s, e) == Some((Seq::<Seq<char>>::empty(), e + 2)));
        assert(b.pipe =~= Seq::<Seq<char>>::empty());
    }
}

proof fn lemma_pointer_tokens_front(segments: Seq<Seq<char>>)
    requires
        segments.len() > 0,
    ensures
        pointer_tokens(segments) == seq!['/'] + escaped(segments[0]) + pointer_tokens(segments.subrange(1, segments.len() as int)),
    decreases segments.len(),
{
    let rest = segments.subrange(1, segments.len() as int);
    if segments.len() == 1 {
        assert(segments.drop_last() =~= Seq::<Seq<char>>::empty());
        assert(rest =~= Seq::<Seq<char>>::empty());
        assert(seq!['/'] + escaped(segments[0]) =~= Seq::<char>::empty() + seq!['/'] + escaped(segments[0]));
    } else {
        let shorter = segments.drop_last();
        lemma_pointer_tokens_front(shorter);
        assert(shorter.subrange(1, shorter.len() as int) =~= rest.drop_last());
        assert(rest.last() == segments.last());
        assert(pointer_tokens(segments) =~= seq!['/'] + escaped(segments[0]) + pointer_tokens(rest));
    }
}

/// Without local names, a binder's JSON pointer is `/` and the reference token of each
/// segment of its path, in order.
pub proof fn law_json_pointer_without_locals(path: Seq<Seq<char>>)
    requires
        path.len() > 0,
    ensures
        json_pointer(path, Seq::empty()) == pointer_tokens(path),
{
    lemma_pointer_tokens_front(path);
}

/// A segment without `~` and `/` is its own reference token.
pub proof fn law_plain_segment_unescaped(t: Seq<char>)
    requires
        forall|i: int| 0 <= i < t.len() ==> t[i] != '~' && t[i] != '/',
    ensures
        escaped(t) == t,
    decreases t.len(),
{
    if t.len() > 0 {
        law_plain_segment_unescaped(t.drop_last());
        assert(t.drop_last() + seq![t.last()] =~= t);
    }
}

} // verus!

verus! {

broadcast use crate::lexer::lemma_run_end, lemma_find_word;

/// The indexes of a node and of all its descendants, in document order.
pub open spec fn preorder(h: HtmlV) -> Seq<nat>
    decreases h, 1int,
{
    seq![h.index] + preorder_all(h.children)
}

/// The indexes of the nodes `cs` and of all their descendants, in document order.
pub open spec fn preorder_all(cs: Seq<HtmlV>) -> Seq<nat>
    decreases cs, 0int,
{
    if cs.len() == 0 {
        Seq::empty()
    } else {
        preorder(cs[0]) + preorder_all(cs.subrange(1, cs.len() as int))
    }
}

/// Strictly increasing numbers, each in `lo..hi`.
pub open spec fn increasing_in(xs: Seq<nat>, lo: int, hi: int) -> bool {
    &&& forall|k: int| 0 <= k < xs.len() ==> lo <= #[trigger] xs[k] < hi
    &&& forall|a: int, b: int| 0 <= a < b < xs.len() ==> xs[a] < xs[b]
}

proof fn lemma_increasing_concat(xs: Seq<nat>, ys: Seq<nat>, lo: int, mid: int, hi: int)
    requires
        lo <= mid <= hi,
        increasing_in(xs, lo, mid),
        increasing_in(ys, mid, hi),
    ensures
        increasing_in(xs + ys, lo, hi),
{
    let zs = xs + ys;
    assert forall|k: int| 0 <= k < zs.len() implies lo <= #[trigger] zs[k] < hi by {
        if k < xs.len() {
            assert(zs[k] == xs[k]);
        } else {
            assert(zs[k] == ys[k - xs.len()]);
        }
    }
    assert forall|a: int, b: int| 0 <= a < b < zs.len() implies zs[a] < zs[b] by {
        if b < xs.len() {
            assert(zs[a] == xs[a] && zs[b] == xs[b]);
        } else if a < xs.len() {
            assert(zs[a] == xs[a] && zs[b] == ys[b - xs.len()]);
        } else {
            assert(zs[a] == ys[a - xs.len()] && zs[b] == ys[b - xs.len()]);
        }
    }
}

proof fn lemma_increasing_widen(xs: Seq<nat>, lo: int, hi: int, lo2: int, hi2: int)
    requires
        increasing_in(xs, lo, hi),
        lo2 <= lo,
        hi <= hi2,
    ensures
        increasing_in(xs, lo2, hi2),
{
}

proof fn lemma_element_indexes(s: Seq<char>, i: int)
    ensures
        sp_element(s, i) matches Some((h, e)) ==> h.index == i && increasing_in(preorder(h), i, e),
    decreases s.len() - i, 2int,
{
    if let Some((te, bindings, q)) = sp_head(s, i) {
        if i < q <= s.len() {
            lemma_tail_indexes(s, i, te, bindings, q);
        }
    }
}

proof fn lemma_tail_indexes(s: Seq<char>, i: int, te: int, bindings: Seq<ElementBindingV>, q: int)
    requires
        0 <= i < q,
    ensures
        sp_tail(s, i, te, bindings, q) matches Some((h, e)) ==> h.index == i && increasing_in(preorder(h), i, e),
    decreases s.len() - q, 1int,
{
    let tag = s.subrange(i + 1, te);
    if has_at(s, q, seq!['/', '>']) {
        let h = element_node(i, tag, bindings, Seq::empty());
        assert(preorder(h) =~= seq![i as nat]);
    } else if 0 <= q < s.len() && s[q] == '>' {
        if te == i + 7 && has_at(s, i + 1, script_tag()) {
            if let Some((h, e)) = sp_script(s, i, q) {
                assert(preorder(h) =~= seq![i as nat]);
                let r = find_word(s, q + 1, script_close()).unwrap();
                assert(r >= q + 1);
            }
        } else {
            let (children, r) = sp_children(s, q + 1);
            lemma_children_indexes(s, q + 1);
            if let Some((h, e)) = sp_close(s, i, te, bindings, children, r) {
                assert(increasing_in(seq![i as nat], i, q + 1));
                lemma_increasing_concat(seq![i as nat], preorder_all(children), i, q + 1, r);
                lemma_increasing_widen(preorder(h), i, r, i, e);
            }
        }
    }
}

proof fn lemma_children_indexes(s: Seq<char>, p: int)
    requires
        0 <= p,
    ensures
        p <= sp_children(s, p).1,
        increasing_in(preorder_all(sp_children(s, p).0), p, sp_children(s, p).1),
    decreases s.len() - p, 3int,
{
    let j = skip_ws(s, p);
    let node = if 0 <= j < s.len() && s[j] == '<' {
        sp_element(s, j)
    } else {
        sp_text(s, j)
    };
    lemma_children_step(s, p);
    match node {
        Some((n, e)) => {
            if j < e <= s.len() {
                if 0 <= j < s.len() && s[j] == '<' {
                    lemma_element_indexes(s, j);
                } else {
                    assert(preorder(n) =~= seq![j as nat]);
                }
                lemma_children_indexes(s, e);
                let (rest, r) = sp_children(s, e);
                let cs = seq![n] + rest;
                assert(cs[0] == n);
                assert(cs.subrange(1, cs.len() as int) =~= rest);
                lemma_increasing_widen(preorder(n), j, e, p, e);
                lemma_increasing_concat(preorder(n), preorder_all(rest), p, e, r);
            } else {
                assert(preorder_all(Seq::<HtmlV>::empty()) =~= Seq::<nat>::empty());
            }
        },
        None => {
            assert(preorder_all(Seq::<HtmlV>::empty()) =~= Seq::<nat>::empty());
        },
    }
}

/// Every node of a document has an index of its own: the positions where the nodes
/// start strictly increase in document order, so no two nodes share one, and an
/// element's id tells it apart.
pub proof fn law_document_indexes_distinct(s: Seq<char>)
    ensures
        sp_document(s) matches Some(h) ==> forall|a: int, b: int|
            0 <= a < b < preorder(h).len() ==> preorder(h)[a] < preorder(h)[b],
{
    let j = skip_ws(s, 0);
    if 0 <= j < s.len() && s[j] == '<' {
        lemma_element_indexes(s, j);
    }
}

} // verus!
