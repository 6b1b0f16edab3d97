//! The reactions of the view to the values that binding changed: each changed path
//! reaches the bindings of that path, in their order, and each binding reacts to the
//! changed value, passed first through the transformers of its pipe where it has any.
use vstd::prelude::*;
use crate::text::str_eq;
use crate::view::binding::{reaction_of, reacts, Binding, Reaction};
use crate::view::model::{bindable, bound, entries_view, json_clone, Json, ViewModel};

verus! {

/// The bindings of the first entry of `table`, from `k` on, whose path is `path`; none
/// where no entry has that path.
pub open spec fn bindings_at(table: Seq<(String, Vec<Binding>)>, path: Seq<char>, k: int) -> Seq<Binding>
    decreases table.len() - k,
{
    if 0 <= k < table.len() {
        if table[k].0@ == path {
            table[k].1@
        } else {
            bindings_at(table, path, k + 1)
        }
    } else {
        Seq::empty()
    }
}

/// The value that a binding reacts to: the changed value itself where its pipe is empty,
/// else a value that `transform` gives for the pipe and the changed value.
pub open spec fn piped<F: Fn(&Vec<String>, &Json) -> Json>(transform: F, b: Binding, v: Json, w: Json) -> bool {
    if b.pipe@.len() == 0 {
        w@ == v@
    } else {
        call_ensures(transform, (&b.pipe, &v), w)
    }
}

/// The reaction `x` of the binding `b` to the changed value `v`.
pub open spec fn reacts_with<F: Fn(&Vec<String>, &Json) -> Json>(transform: F, b: Binding, v: Json, x: Reaction) -> bool {
    exists|w: Json| #[trigger] piped(transform, b, v, w) && x@ == reaction_of(b.params, w@)
}

/// The reactions `r` of the bindings `bs` to the changed value `v`, one each, in order.
pub open spec fn reacted<F: Fn(&Vec<String>, &Json) -> Json>(transform: F, bs: Seq<Binding>, v: Json, r: Seq<Reaction>) -> bool {
    &&& r.len() == bs.len()
    &&& forall|j: int| 0 <= j < bs.len() ==> reacts_with(transform, bs[j], v, #[trigger] r[j])
}

/// The reactions `r` to the changes: for each change in order, the reactions of the
/// bindings of its path.
pub open spec fn reacted_all<F: Fn(&Vec<String>, &Json) -> Json>(
    transform: F,
    changes: Seq<(String, Json)>,
    table: Seq<(String, Vec<Binding>)>,
    r: Seq<Reaction>,
) -> bool
    decreases changes.len(),
{
    if changes.len() == 0 {
        r.len() == 0
    } else {
        let bs = bindings_at(table, changes.last().0@, 0);
        let n = r.len() - bs.len();
        &&& n >= 0
        &&& reacted_all(transform, changes.drop_last(), table, r.subrange(0, n))
        &&& reacted(transform, bs, changes.last().1, r.subrange(n, r.len() as int))
    }
}

/// Whether each binding that a change reaches can react: no repeat binding of those
/// reaches past the largest index.
pub open spec fn reaches_reacting(changes: Seq<(String, Json)>, table: Seq<(String, Vec<Binding>)>) -> bool {
    forall|i: int, j: int| 0 <= i < changes.len() && 0 <= j < bindings_at(table, changes[i].0@, 0).len()
        ==> reacts(#[trigger] bindings_at(table, changes[i].0@, 0)[j].params)
}

/// Every binding of the table can react.
pub open spec fn all_reacting(table: Seq<(String, Vec<Binding>)>) -> bool {
    forall|i: int, j: int| 0 <= i < table.len() && 0 <= j < table[i].1@.len() ==> reacts(#[trigger] table[i].1@[j].params)
}

proof fn lemma_bindings_at_entry(table: Seq<(String, Vec<Binding>)>, path: Seq<char>, k: int)
    requires
        0 <= k,
    ensures
        bindings_at(table, path, k).len() == 0 || exists|m: int| k <= m < table.len() && #[trigger] table[m].1@ == bindings_at(table, path, k),
    decreases table.len() - k,
{
    if 0 <= k < table.len() && table[k].0@ != path {
        lemma_bindings_at_entry(table, path, k + 1);
    }
}

/// Where every binding of the table can react, every binding that a change reaches can.
pub proof fn lemma_all_reacting(changes: Seq<(String, Json)>, table: Seq<(String, Vec<Binding>)>)
    requires
        all_reacting(table),
    ensures
        reaches_reacting(changes, table),
{
    assert forall|i: int, j: int| 0 <= i < changes.len() && 0 <= j < bindings_at(table, changes[i].0@, 0).len()
        implies reacts(#[trigger] bindings_at(table, changes[i].0@, 0)[j].params) by {
        lemma_bindings_at_entry(table, changes[i].0@, 0);
        let m = choose|m: int| 0 <= m < table.len() && #[trigger] table[m].1@ == bindings_at(table, changes[i].0@, 0);
        assert(table[m].1@[j] == bindings_at(table, changes[i].0@, 0)[j]);
    }
}

/// The entry of `table` whose bindings are those of `path`, see [`bindings_at`].
fn find_bindings(table: &Vec<(String, Vec<Binding>)>, path: &str) -> (r: Option<usize>)
    ensures
        match r {
            Some(k) => k < table@.len() && bindings_at(table@, path@, 0) == table@[k as int].1@,
            None => bindings_at(table@, path@, 0) == Seq::<Binding>::empty(),
        },
{
    let mut k: usize = 0;
    while k < table.len()
        invariant
            k <= table@.len(),
            bindings_at(table@, path@, 0) == bindings_at(table@, path@, k as int),
        decreases table@.len() - k,
    {
        if str_eq(table[k].0.as_str(), path) {
            return Some(k);
        }
        k = k + 1;
    }
    None
}

/// The reactions of the bindings in `table` to the changed values `changes` (as binding a
/// value onto the view model gives them), see [`reacted_all`]. `transform` runs the
/// transformers of a pipe on a value.
pub fn reactions_of<F: Fn(&Vec<String>, &Json) -> Json>(
    changes: &Vec<(String, Json)>,
    table: &Vec<(String, Vec<Binding>)>,
    transform: &F,
) -> (r: Vec<Reaction>)
    requires
        reaches_reacting(changes@, table@),
        forall|p: Vec<String>, v: Json| #[trigger] transform.requires((&p, &v)),
    ensures
        reacted_all(*transform, changes@, table@, r@),
{
    let mut out: Vec<Reaction> = Vec::new();
    let mut i: usize = 0;
    assert(changes@.subrange(0, 0) =~= Seq::<(String, Json)>::empty());
    while i < changes.len()
        invariant
            i <= changes@.len(),
            reacted_all(*transform, changes@.subrange(0, i as int), table@, out@),
            reaches_reacting(changes@, table@),
            forall|p: Vec<String>, v: Json| #[trigger] transform.requires((&p, &v)),
        decreases changes@.len() - i,
    {
        let path = changes[i].0.as_str();
        let v = &changes[i].1;
        let ghost base = out@;
        let ghost bs = bindings_at(table@, path@, 0);
        assert(bs == bindings_at(table@, changes@[i as int].0@, 0));
        match find_bindings(table, path) {
            Some(k) => {
                let bindings = &table[k].1;
                let mut j: usize = 0;
                while j < bindings.len()
                    invariant
                        j <= bindings@.len(),
                        bs == bindings@,
                        out@.len() == base.len() + j,
                        out@.subrange(0, base.len() as int) == base,
                        reacted(*transform, bs.subrange(0, j as int), *v, out@.subrange(base.len() as int, out@.len() as int)),
                        forall|b: int| 0 <= b < bindings@.len() ==> reacts(#[trigger] bindings@[b].params),
                        forall|p: Vec<String>, x: Json| #[trigger] transform.requires((&p, &x)),
                    decreases bindings@.len() - j,
                {
                    let b = &bindings[j];
                    let w = if b.pipe.len() == 0 {
                        json_clone(v)
                    } else {
                        transform(&b.pipe, v)
                    };
                    assert(piped(*transform, *b, *v, w));
                    let x = b.react_value_change(&w);
                    let ghost before = out@;
                    out.push(x);
                    proof {
                        let part = out@.subrange(base.len() as int, out@.len() as int);
                        let prev = before.subrange(base.len() as int, before.len() as int);
                        assert(part =~= prev.push(x));
                        assert(bs.subrange(0, j + 1) =~= bs.subrange(0, j as int).push(bs[j as int]));
                        assert(out@.subrange(0, base.len() as int) =~= before.subrange(0, base.len() as int));
                        assert(reacts_with(*transform, *b, *v, x));
                        assert forall|m: int| 0 <= m < j + 1 implies reacts_with(*transform, bs.subrange(0, j + 1)[m], *v, #[trigger] part[m]) by {
                            if m < j {
                                assert(part[m] == prev[m]);
                                assert(bs.subrange(0, j + 1)[m] == bs.subrange(0, j as int)[m]);
                            } else {
                                assert(part[m] == x);
                                assert(bs.subrange(0, j + 1)[m] == *b);
                            }
                        }
                    }
                    j = j + 1;
                }
                assert(bs.subrange(0, bs.len() as int) =~= bs);
            },
            None => {
                assert(out@.subrange(base.len() as int, out@.len() as int) =~= Seq::<Reaction>::empty());
                assert(out@.subrange(0, base.len() as int) =~= base);
            },
        }
        proof {
            let cs = changes@.subrange(0, i + 1);
            assert(cs.drop_last() =~= changes@.subrange(0, i as int));
            assert(cs.last() == changes@[i as int]);
        }
        i = i + 1;
    }
    assert(changes@.subrange(0, changes@.len() as int) =~= changes@);
    out
}


impl ViewModel {
    /// Binds `value` onto the model (see [`ViewModel::bind`]) and gives the reactions of
    /// the bindings in `table` to what changed, see [`reacted_all`].
    pub fn bind_and_react<F: Fn(&Vec<String>, &Json) -> Json>(
        &mut self,
        value: &Json,
        table: &Vec<(String, Vec<Binding>)>,
        transform: &F,
    ) -> (r: Vec<Reaction>)
        requires
            bindable(old(self).model@, value@, Seq::empty(), old(self).model_array_default@),
            all_reacting(table@),
            forall|p: Vec<String>, v: Json| #[trigger] transform.requires((&p, &v)),
        ensures
            ({
                let b = bound(old(self).model@, value@, Seq::empty(), Seq::empty(), old(self).bindings@, old(self).model_array_default@, Seq::empty());
                &&& final(self).model@ == b.1
                &&& exists|changes: Seq<(String, Json)>| entries_view(changes) == b.2 && reacted_all(*transform, changes, table@, r@)
            }),
            final(self).bindings == old(self).bindings,
            final(self).model_array_default == old(self).model_array_default,
    {
        let changes = self.bind(value);
        proof {
            lemma_all_reacting(changes@, table@);
        }
        let r = reactions_of(&changes, table, transform);
        assert(entries_view(changes@) == bound(old(self).model@, value@, Seq::empty(), Seq::empty(), old(self).bindings@, old(self).model_array_default@, Seq::empty()).2);
        r
    }
}

} // verus!
