//! Custom properties (`--name: values;`) and the computation of values that use them.
use vstd::prelude::*;
use crate::css::{ComputedValue, ComputedValueV, Definition, DefinitionV, lemma_definition_view};
use crate::cascade::values_view;
use crate::lexer::views;
use crate::styles::{scaled_255, truncated_255, scale_255, truncate_255};
use crate::text::{chars_of, str_eq};

verus! {

// ---------------------------------------------------------------------------------------
// Variables

pub open spec fn vars_map(s: Seq<(Seq<char>, Seq<DefinitionV>)>) -> Map<Seq<char>, Seq<DefinitionV>>
    decreases s.len(),
{
    if s.len() == 0 {
        Map::empty()
    } else {
        vars_map(s.drop_last()).insert(s.last().0, s.last().1)
    }
}

pub open spec fn vars_view(s: Seq<(String, Vec<Definition>)>) -> Seq<(Seq<char>, Seq<DefinitionV>)> {
    s.map_values(|e: (String, Vec<Definition>)| (e.0@, views(e.1@)))
}

pub open spec fn distinct_names(s: Seq<(Seq<char>, Seq<DefinitionV>)>) -> bool {
    forall|i: int, j: int| 0 <= i < j < s.len() ==> s[i].0 != s[j].0
}

/// The custom properties declared so far, each name with its values.
pub struct Variables {
    entries: Vec<(String, Vec<Definition>)>,
}

impl Variables {
    #[verifier::type_invariant]
    closed spec fn inv(self) -> bool {
        distinct_names(vars_view(self.entries@))
    }
}

impl View for Variables {
    type V = Map<Seq<char>, Seq<DefinitionV>>;

    closed spec fn view(&self) -> Map<Seq<char>, Seq<DefinitionV>> {
        vars_map(vars_view(self.entries@))
    }
}

proof fn lemma_vars_absent(s: Seq<(Seq<char>, Seq<DefinitionV>)>, name: Seq<char>)
    requires
        forall|i: int| 0 <= i < s.len() ==> s[i].0 != name,
    ensures
        !vars_map(s).dom().contains(name),
    decreases s.len(),
{
    if s.len() > 0 {
        lemma_vars_absent(s.drop_last(), name);
    }
}

proof fn lemma_vars_update(s: Seq<(Seq<char>, Seq<DefinitionV>)>, k: int, v: Seq<DefinitionV>)
    requires
        distinct_names(s),
        0 <= k < s.len(),
    ensures
        vars_map(s.update(k, (s[k].0, v))) == vars_map(s).insert(s[k].0, v),
    decreases s.len(),
{
    let t = s.update(k, (s[k].0, v));
    if k == s.len() - 1 {
        assert(t.drop_last() =~= s.drop_last());
        assert(vars_map(s.drop_last()).insert(s[k].0, v) =~= vars_map(s).insert(s[k].0, v));
    } else {
        assert(t.drop_last() =~= s.drop_last().update(k, (s[k].0, v)));
        lemma_vars_update(s.drop_last(), k, v);
        assert(s.last().0 != s[k].0);
        assert(vars_map(t) =~= vars_map(s).insert(s[k].0, v));
    }
}

proof fn lemma_vars_finite(s: Seq<(Seq<char>, Seq<DefinitionV>)>)
    ensures
        vars_map(s).dom().finite(),
    decreases s.len(),
{
    if s.len() > 0 {
        lemma_vars_finite(s.drop_last());
    }
}

fn clone_definitions(v: &Vec<Definition>) -> (r: Vec<Definition>)
    ensures
        views(r@) == views(v@),
{
    let mut r: Vec<Definition> = Vec::new();
    let mut k: usize = 0;
    while k < v.len()
        invariant
            k <= v@.len(),
            r@.len() == k,
            forall|j: int| 0 <= j < k ==> #[trigger] r@[j]@ == v@[j]@,
        decreases v@.len() - k,
    {
        r.push(v[k].clone());
        k = k + 1;
    }
    assert(views(r@) =~= views(v@));
    r
}

impl Clone for Variables {
    fn clone(&self) -> (r: Self)
        ensures
            r@ == self@,
    {
        proof {
            use_type_invariant(self);
        }
        let mut entries: Vec<(String, Vec<Definition>)> = Vec::new();
        let mut k: usize = 0;
        while k < self.entries.len()
            invariant
                k <= self.entries@.len(),
                distinct_names(vars_view(self.entries@)),
                vars_view(entries@) == vars_view(self.entries@).subrange(0, k as int),
            decreases self.entries@.len() - k,
        {
            let name = self.entries[k].0.clone();
            let values = clone_definitions(&self.entries[k].1);
            let ghost before = entries@;
            let ghost item = (name@, views(values@));
            assert(item == vars_view(self.entries@)[k as int]);
            entries.push((name, values));
            assert(vars_view(entries@) =~= vars_view(before).push(item));
            assert(vars_view(entries@) =~= vars_view(self.entries@).subrange(0, k + 1));
            k = k + 1;
        }
        assert(vars_view(self.entries@).subrange(0, self.entries@.len() as int) =~= vars_view(self.entries@));
        Variables { entries }
    }
}

impl Variables {
    pub fn new() -> (v: Self)
        ensures
            v@ == Map::<Seq<char>, Seq<DefinitionV>>::empty(),
    {
        let v = Variables { entries: Vec::new() };
        assert(vars_view(v.entries@) =~= Seq::empty());
        v
    }

    pub proof fn lemma_finite(&self)
        ensures
            self@.dom().finite(),
    {
        lemma_vars_finite(vars_view(self.entries@));
    }

    /// The values of the variable `name`.
    pub fn get(&self, name: &str) -> (r: Option<&Vec<Definition>>)
        ensures
            match r {
                Some(v) => self@.dom().contains(name@) && self@[name@] == views(v@),
                None => !self@.dom().contains(name@),
            },
    {
        proof {
            use_type_invariant(self);
        }
        let ghost s = vars_view(self.entries@);
        let mut k: usize = 0;
        while k < self.entries.len()
            invariant
                s == vars_view(self.entries@),
                distinct_names(s),
                k <= s.len(),
                forall|i: int| 0 <= i < k ==> s[i].0 != name@,
            decreases s.len() - k,
        {
            if str_eq(self.entries[k].0.as_str(), name) {
                proof {
                    lemma_vars_update(s, k as int, s[k as int].1);
                    assert(s.update(k as int, (s[k as int].0, s[k as int].1)) =~= s);
                }
                return Some(&self.entries[k].1);
            }
            k = k + 1;
        }
        proof {
            lemma_vars_absent(s, name@);
        }
        None
    }

    /// Declares the variable `name`, replacing the values it had.
    pub fn set(&mut self, name: &str, shorthand: &Vec<Definition>)
        ensures
            final(self)@ == old(self)@.insert(name@, views(shorthand@)),
    {
        proof {
            use_type_invariant(&*self);
        }
        let ghost s = vars_view(self.entries@);
        let values = clone_definitions(shorthand);
        let mut k: usize = 0;
        while k < self.entries.len()
            invariant
                s == vars_view(self.entries@),
                s == vars_view(old(self).entries@),
                views(values@) == views(shorthand@),
                distinct_names(s),
                k <= s.len(),
                forall|i: int| 0 <= i < k ==> s[i].0 != name@,
            decreases s.len() - k,
        {
            if str_eq(self.entries[k].0.as_str(), name) {
                proof {
                    lemma_vars_update(s, k as int, views(shorthand@));
                }
                let mut entries = Vec::new();
                std::mem::swap(&mut entries, &mut self.entries);
                let key = name.to_string();
                entries.set(k, (key, values));
                assert(vars_view(entries@) =~= s.update(k as int, (s[k as int].0, views(shorthand@))));
                self.entries = entries;
                return;
            }
            k = k + 1;
        }
        let mut entries = Vec::new();
        std::mem::swap(&mut entries, &mut self.entries);
        entries.push((name.to_string(), values));
        assert(vars_view(entries@) =~= s.push((name@, views(shorthand@))));
        assert(vars_view(entries@).drop_last() =~= s);
        self.entries = entries;
    }
}

// ---------------------------------------------------------------------------------------
// Computing values

pub open spec fn rgb_name() -> Seq<char> {
    seq!['r', 'g', 'b']
}

pub open spec fn rgba_name() -> Seq<char> {
    seq!['r', 'g', 'b', 'a']
}

/// The color that the computed arguments of `rgb(...)` or `rgba(...)` make: three numbers
/// (opaque) or four (the last one the alpha, a fraction of 255).
pub open spec fn rgb_color(avs: Seq<ComputedValueV>) -> Option<ComputedValueV> {
    if avs.len() == 4 && avs[0] is Number && avs[1] is Number && avs[2] is Number && avs[3] is Number {
        Some(ComputedValueV::Color(seq![
            truncated_255(avs[0]->Number_0),
            truncated_255(avs[1]->Number_0),
            truncated_255(avs[2]->Number_0),
            scaled_255(avs[3]->Number_0),
        ]))
    } else if avs.len() == 3 && avs[0] is Number && avs[1] is Number && avs[2] is Number {
        Some(ComputedValueV::Color(seq![
            truncated_255(avs[0]->Number_0),
            truncated_255(avs[1]->Number_0),
            truncated_255(avs[2]->Number_0),
            255u8,
        ]))
    } else {
        None
    }
}

pub open spec fn prefix_values(xs: Seq<ComputedValueV>, r: Option<(bool, Seq<ComputedValueV>)>) -> Option<(bool, Seq<ComputedValueV>)> {
    match r {
        Some((ok, ys)) => Some((ok, xs + ys)),
        None => None,
    }
}

/// The computation of the values `defs` with the variables `vars`, while the variables
/// `visiting` are being expanded: whether it succeeds and the values it produces up to
/// where it stops; `None` where a variable refers back to itself, so that the expansion
/// never ends.
///
/// A variable is replaced by its values (computed in turn, their failure ignored); an
/// unknown variable fails. `rgb(...)` and `rgba(...)` are computed to colors from their
/// computed arguments; any other function fails. An explicit value is taken as it is.
pub open spec fn resolve(
    vars: Map<Seq<char>, Seq<DefinitionV>>,
    defs: Seq<DefinitionV>,
    visiting: Set<Seq<char>>,
) -> Option<(bool, Seq<ComputedValueV>)>
    decreases vars.dom().difference(visiting).len(), defs,
    when vars.dom().finite()
{
    if defs.len() == 0 {
        Some((true, Seq::empty()))
    } else {
        let rest = defs.subrange(1, defs.len() as int);
        match defs[0] {
            DefinitionV::Var(name) => if !vars.dom().contains(name) {
                Some((false, Seq::empty()))
            } else if visiting.contains(name) {
                None
            } else {
                proof {
                    assert(vars.dom().difference(visiting.insert(name)) =~= vars.dom().difference(visiting).remove(name));
                }
                match resolve(vars, vars[name], visiting.insert(name)) {
                    Some((_, xs)) => prefix_values(xs, resolve(vars, rest, visiting)),
                    None => None,
                }
            },
            DefinitionV::Function(name, args) => if name == rgb_name() || name == rgba_name() {
                proof {
                    assert(decreases_to!(defs => defs[0]));
                }
                match resolve(vars, args, visiting) {
                    Some((_, avs)) => match rgb_color(avs) {
                        Some(c) => prefix_values(seq![c], resolve(vars, rest, visiting)),
                        None => Some((false, Seq::empty())),
                    },
                    None => None,
                }
            } else {
                Some((false, Seq::empty()))
            },
            DefinitionV::Explicit(v) => prefix_values(seq![v], resolve(vars, rest, visiting)),
        }
    }
}


proof fn lemma_push_to_set(s: Seq<Seq<char>>, x: Seq<char>)
    ensures
        s.push(x).to_set() == s.to_set().insert(x),
{
    assert forall|a: Seq<char>| s.push(x).to_set().contains(a) <==> s.to_set().insert(x).contains(a) by {
        if s.contains(a) {
            let i = choose|i: int| 0 <= i < s.len() && s[i] == a;
            assert(s.push(x)[i] == a);
        }
        if a == x {
            assert(s.push(x)[s.len() as int] == x);
        }
        if s.push(x).contains(a) {
            let i = choose|i: int| 0 <= i < s.push(x).len() && s.push(x)[i] == a;
            if i < s.len() {
                assert(s[i] == a);
            }
        }
    }
    assert(s.push(x).to_set() =~= s.to_set().insert(x));
}

/// Whether one of the names on the stack is `name`.
fn on_stack(stack: &Vec<String>, name: &str) -> (r: bool)
    ensures
        r == views(stack@).to_set().contains(name@),
{
    let mut k: usize = 0;
    while k < stack.len()
        invariant
            k <= stack@.len(),
            forall|i: int| 0 <= i < k ==> stack@[i]@ != name@,
        decreases stack@.len() - k,
    {
        if str_eq(stack[k].as_str(), name) {
            assert(views(stack@)[k as int] == name@);
            return true;
        }
        k = k + 1;
    }
    assert(!views(stack@).contains(name@));
    false
}

/// The color of `rgb(...)` or `rgba(...)` from its computed arguments, see [`rgb_color`].
fn rgb_color_of(args: &Vec<ComputedValue>) -> (r: Option<ComputedValue>)
    ensures
        match rgb_color(values_view(args@)) {
            Some(c) => r matches Some(x) && x@ == c,
            None => r is None,
        },
{
    let n = args.len();
    if n != 3 && n != 4 {
        return None;
    }
    let r = match &args[0] {
        ComputedValue::Number(d) => truncate_255(*d),
        _ => return None,
    };
    let g = match &args[1] {
        ComputedValue::Number(d) => truncate_255(*d),
        _ => return None,
    };
    let b = match &args[2] {
        ComputedValue::Number(d) => truncate_255(*d),
        _ => return None,
    };
    let a = if n == 4 {
        match &args[3] {
            ComputedValue::Number(d) => scale_255(*d),
            _ => return None,
        }
    } else {
        255
    };
    let c = [r, g, b, a];
    proof {
        let avs = values_view(args@);
        if n == 4 {
            assert(c@ =~= seq![truncated_255(avs[0]->Number_0), truncated_255(avs[1]->Number_0), truncated_255(avs[2]->Number_0), scaled_255(avs[3]->Number_0)]);
        } else {
            assert(c@ =~= seq![truncated_255(avs[0]->Number_0), truncated_255(avs[1]->Number_0), truncated_255(avs[2]->Number_0), 255u8]);
        }
    }
    Some(ComputedValue::Color(c))
}

/// Computes the values `defs` into `out`, see [`resolve`]; `None` where the expansion
/// would never end.
fn resolve_into(
    vars: &Variables,
    defs: &[Definition],
    out: &mut Vec<ComputedValue>,
    stack: &mut Vec<String>,
) -> (r: Option<bool>)
    requires
        vars@.dom().finite(),
    ensures
        views(final(stack)@) == views(old(stack)@),
        final(out)@.len() >= old(out)@.len(),
        values_view(final(out)@).subrange(0, old(out)@.len() as int) == values_view(old(out)@),
        match resolve(vars@, views(defs@), views(old(stack)@).to_set()) {
            Some((ok, xs)) => r == Some(ok) && values_view(final(out)@) == values_view(old(out)@) + xs,
            None => r is None,
        },
    decreases vars@.dom().difference(views(old(stack)@).to_set()).len(), views(defs@),
{
    let ghost dv = views(defs@);
    let ghost visiting = views(stack@).to_set();
    let ghost start = values_view(out@);
    let n = defs.len();
    let mut k: usize = 0;
    proof {
        assert(dv.subrange(0, n as int) =~= dv);
        assert(start + Seq::<ComputedValueV>::empty() =~= start);
    }
    while k < n
        invariant
            vars@.dom().finite(),
            n == defs@.len(),
            dv == views(defs@),
            k <= n,
            views(stack@) == views(old(stack)@),
            visiting == views(old(stack)@).to_set(),
            start == values_view(old(out)@),
            resolve(vars@, dv, visiting) == prefix_values(
                values_view(out@).subrange(start.len() as int, values_view(out@).len() as int),
                resolve(vars@, dv.subrange(k as int, n as int), visiting),
            ),
            values_view(out@).len() >= start.len(),
            values_view(out@).subrange(0, start.len() as int) == start,
        decreases n - k,
    {
        let ghost here = dv.subrange(k as int, n as int);
        let ghost rest = dv.subrange(k + 1, n as int);
        let ghost before = values_view(out@);
        assert(here[0] == dv[k as int]);
        assert(here.subrange(1, here.len() as int) =~= rest);
        proof {
            lemma_definition_view(defs@[k as int]);
        }
        match &defs[k] {
            Definition::Var(name) => {
                match vars.get(name.as_str()) {
                    None => {
                        proof {
                            assert(before.subrange(start.len() as int, before.len() as int) + Seq::<ComputedValueV>::empty()
                                =~= before.subrange(start.len() as int, before.len() as int));
                        }
                        assert(values_view(out@) =~= start + values_view(out@).subrange(start.len() as int, values_view(out@).len() as int));
                        return Some(false);
                    },
                    Some(d) => {
                        if on_stack(stack, name.as_str()) {
                            return None;
                        }
                        stack.push(name.clone());
                        proof {
                            assert(views(stack@) =~= views(old(stack)@).push(name@));
                            lemma_push_to_set(views(old(stack)@), name@);
                            assert(vars@.dom().difference(visiting.insert(name@)) =~= vars@.dom().difference(visiting).remove(name@));
                        }
                        let inner = resolve_into(vars, d.as_slice(), out, stack);
                        let ghost pre = stack@;
                        stack.pop();
                        proof {
                            assert(views(pre) == views(old(stack)@).push(name@));
                            assert forall|i: int| 0 <= i < stack@.len() implies views(stack@)[i] == views(old(stack)@)[i] by {
                                assert(stack@[i] == pre[i]);
                                assert(views(pre)[i] == pre[i]@);
                            }
                            assert(views(stack@) =~= views(old(stack)@));
                        }
                        match inner {
                            None => return None,
                            Some(_) => {
                                proof {
                                    let after = values_view(out@);
                                    let xs = resolve(vars@, vars@[name@], visiting.insert(name@)).unwrap().1;
                                    assert(after =~= before + xs);
                                    assert(after.subrange(start.len() as int, after.len() as int)
                                        =~= before.subrange(start.len() as int, before.len() as int) + xs);
                                    assert(after.subrange(0, start.len() as int) =~= before.subrange(0, start.len() as int));
                                    match resolve(vars@, rest, visiting) {
                                        Some((ok, ys)) => {
                                            assert(before.subrange(start.len() as int, before.len() as int) + (xs + ys)
                                                =~= after.subrange(start.len() as int, after.len() as int) + ys);
                                        },
                                        None => {},
                                    }
                                }
                            },
                        }
                    },
                }
            },
            Definition::Function(f) => {
                let fname = chars_of(f.name.as_str());
                let rgb = ['r', 'g', 'b'];
                let rgba = ['r', 'g', 'b', 'a'];
                assert(rgb@ =~= rgb_name());
                assert(rgba@ =~= rgba_name());
                if !(crate::lexer::slice_is(fname.as_slice(), 0, fname.len(), &rgb)
                    || crate::lexer::slice_is(fname.as_slice(), 0, fname.len(), &rgba)) {
                    proof {
                        assert(fname@.subrange(0, fname@.len() as int) =~= fname@);
                        assert(before.subrange(start.len() as int, before.len() as int) + Seq::<ComputedValueV>::empty()
                            =~= before.subrange(start.len() as int, before.len() as int));
                    }
                    assert(values_view(out@) =~= start + values_view(out@).subrange(start.len() as int, values_view(out@).len() as int));
                    return Some(false);
                }
                proof {
                    assert(fname@.subrange(0, fname@.len() as int) =~= fname@);
                    assert(decreases_to!(dv => dv[k as int]));
                    assert(views(f.arguments@) == dv[k as int]->Function_1);
                }
                let mut args: Vec<ComputedValue> = Vec::new();
                assert(values_view(args@) =~= Seq::<ComputedValueV>::empty());
                let inner = resolve_into(vars, f.arguments.as_slice(), &mut args, stack);
                match inner {
                    None => return None,
                    Some(_) => {},
                }
                assert(values_view(args@) =~= Seq::<ComputedValueV>::empty() + resolve(vars@, views(f.arguments@), visiting).unwrap().1);
                match rgb_color_of(&args) {
                    None => {
                        proof {
                            assert(before.subrange(start.len() as int, before.len() as int) + Seq::<ComputedValueV>::empty()
                                =~= before.subrange(start.len() as int, before.len() as int));
                        }
                        assert(values_view(out@) =~= start + values_view(out@).subrange(start.len() as int, values_view(out@).len() as int));
                        return Some(false);
                    },
                    Some(c) => {
                        let ghost cv = c@;
                        out.push(c);
                        proof {
                            let after = values_view(out@);
                            assert(after =~= before.push(cv));
                            assert(after.subrange(0, start.len() as int) =~= before.subrange(0, start.len() as int));
                            match resolve(vars@, rest, visiting) {
                                Some((ok, ys)) => {
                                    assert(before.subrange(start.len() as int, before.len() as int) + (seq![cv] + ys)
                                        =~= after.subrange(start.len() as int, after.len() as int) + ys);
                                },
                                None => {},
                            }
                        }
                    },
                }
            },
            Definition::Explicit(v) => {
                let c = v.clone();
                let ghost cv = c@;
                out.push(c);
                proof {
                    let after = values_view(out@);
                    assert(after =~= before.push(cv));
                    assert(after.subrange(0, start.len() as int) =~= before.subrange(0, start.len() as int));
                    match resolve(vars@, rest, visiting) {
                        Some((ok, ys)) => {
                            assert(before.subrange(start.len() as int, before.len() as int) + (seq![cv] + ys)
                                =~= after.subrange(start.len() as int, after.len() as int) + ys);
                        },
                        None => {},
                    }
                }
            },
        }
        k = k + 1;
    }
    proof {
        let after = values_view(out@);
        assert(dv.subrange(n as int, n as int) =~= Seq::<DefinitionV>::empty());
        assert(after.subrange(start.len() as int, after.len() as int) + Seq::<ComputedValueV>::empty()
            =~= after.subrange(start.len() as int, after.len() as int));
        assert(after =~= start + after.subrange(start.len() as int, after.len() as int));
    }
    Some(true)
}

/// Computes the values `definition` with the variables `vars` into `shorthand`, see
/// [`resolve`]: `Some(true)` where every value is computed, `Some(false)` where one fails
/// (the values before it stay in `shorthand`), `None`, with `shorthand` as it was, where a
/// variable refers back to itself.
pub fn compute_shorthand(vars: &Variables, definition: &[Definition], shorthand: &mut Vec<ComputedValue>) -> (r: Option<bool>)
    ensures
        match resolve(vars@, views(definition@), Set::empty()) {
            Some((ok, xs)) => r == Some(ok) && values_view(final(shorthand)@) == values_view(old(shorthand)@) + xs,
            None => r is None && values_view(final(shorthand)@) == values_view(old(shorthand)@),
        },
{
    proof {
        vars.lemma_finite();
    }
    let n = shorthand.len();
    let mut stack: Vec<String> = Vec::new();
    assert(views(stack@).to_set() =~= Set::<Seq<char>>::empty());
    let r = resolve_into(vars, definition, shorthand, &mut stack);
    if r.is_none() {
        let ghost before = shorthand@;
        shorthand.truncate(n);
        assert(values_view(shorthand@) =~= values_view(before).subrange(0, n as int));
    }
    r
}

} // verus!
