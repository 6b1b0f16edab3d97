//! The form elements of a view: the options of a select, and the value of a text input.
use vstd::prelude::*;
use crate::input::Keys;
use crate::lexer::{lemma_views_push, views};
use crate::text::{pop_char, push_char};
use crate::view::model::{lemma_json_view, Json, JsonV};

verus! {

/// An option of a select: its node, whether it is selected, and its value (the `value`
/// attribute, empty where it has none).
#[derive(Debug, Clone, PartialEq)]
pub struct SelectOption {
    pub node: usize,
    pub selected: bool,
    pub value: String,
}

pub struct SelectOptionV {
    pub node: usize,
    pub selected: bool,
    pub value: Seq<char>,
}

impl View for SelectOption {
    type V = SelectOptionV;

    open spec fn view(&self) -> SelectOptionV {
        SelectOptionV { node: self.node, selected: self.selected, value: self.value@ }
    }
}

pub open spec fn with_selected(o: SelectOptionV, selected: bool) -> SelectOptionV {
    SelectOptionV { node: o.node, selected, value: o.value }
}

/// The values of the selected options, in order.
pub open spec fn selection(os: Seq<SelectOptionV>) -> Seq<JsonV>
    decreases os.len(),
{
    if os.len() == 0 {
        Seq::empty()
    } else {
        let rest = selection(os.drop_last());
        if os.last().selected { rest.push(JsonV::Str(os.last().value)) } else { rest }
    }
}

/// The values of the options of node `node`, in order.
pub open spec fn node_values(os: Seq<SelectOptionV>, node: usize) -> Seq<JsonV>
    decreases os.len(),
{
    if os.len() == 0 {
        Seq::empty()
    } else {
        let rest = node_values(os.drop_last(), node);
        if os.last().node == node { rest.push(JsonV::Str(os.last().value)) } else { rest }
    }
}

/// The option `node` selected or not: in a select of several, the select's change gives
/// the values of all selected options; in a select of one, selecting an option takes the
/// selection from the others and the change gives its value; taking it off gives no
/// change. The result is the options after it and the values the select's change gives.
pub open spec fn option_update(os: Seq<SelectOptionV>, node: usize, selected: bool, multiple: bool) -> (Seq<SelectOptionV>, Seq<JsonV>) {
    let marked = Seq::new(os.len(), |i: int| if os[i].node == node { with_selected(os[i], selected) } else { os[i] });
    if multiple {
        (marked, seq![JsonV::Array(selection(marked))])
    } else if selected {
        (Seq::new(os.len(), |i: int| with_selected(os[i], os[i].node == node)), node_values(os, node))
    } else {
        (marked, Seq::empty())
    }
}

fn string_json(s: &String) -> (r: Json)
    ensures
        r@ == JsonV::Str(s@),
{
    let r = Json::Str(s.clone());
    proof {
        lemma_json_view(r);
    }
    r
}

/// Selects the option `node` or takes its selection off, see [`option_update`]; the result
/// is the values that the select's change gives.
pub fn update_option_selected(options: &mut Vec<SelectOption>, node: usize, selected: bool, multiple: bool) -> (changes: Vec<Json>)
    ensures
        (views(final(options)@), views(changes@)) == option_update(views(old(options)@), node, selected, multiple),
{
    let ghost os = views(options@);
    let ghost result = option_update(os, node, selected, multiple);
    let mut changes: Vec<Json> = Vec::new();
    let mut k: usize = 0;
    if multiple || !selected {
        while k < options.len()
            invariant
                os == views(old(options)@),
                options@.len() == os.len(),
                k <= os.len(),
                forall|i: int| 0 <= i < k ==> #[trigger] options@[i]@ == (if os[i].node == node { with_selected(os[i], selected) } else { os[i] }),
                forall|i: int| k <= i < os.len() ==> #[trigger] options@[i]@ == os[i],
            decreases os.len() - k,
        {
            proof {
                assert(options@[k as int]@ == os[k as int]);
            }
            if options[k].node == node {
                let o = SelectOption { node: options[k].node, selected, value: options[k].value.clone() };
                options.set(k, o);
                proof {
                    assert(options@[k as int]@ == with_selected(os[k as int], selected));
                }
            }
            k = k + 1;
        }
        proof {
            assert(views(options@) =~= result.0);
        }
        if multiple {
            let mut values: Vec<Json> = Vec::new();
            let mut j: usize = 0;
            while j < options.len()
                invariant
                    j <= options@.len(),
                    views(values@) == selection(views(options@).subrange(0, j as int)),
                decreases options@.len() - j,
            {
                let ghost before = values@;
                if options[j].selected {
                    let v = string_json(&options[j].value);
                    values.push(v);
                    proof {
                        lemma_views_push(before, v);
                    }
                }
                proof {
                    assert(views(options@).subrange(0, j + 1).drop_last() =~= views(options@).subrange(0, j as int));
                }
                j = j + 1;
            }
            let all = Json::Array(values);
            proof {
                assert(views(options@).subrange(0, options@.len() as int) =~= views(options@));
                lemma_json_view(all);
            }
            changes.push(all);
            proof {
                assert(views(changes@) =~= result.1);
            }
        } else {
            proof {
                assert(views(changes@) =~= result.1);
            }
        }
        return changes;
    }
    while k < options.len()
        invariant
            !multiple && selected,
            os == views(old(options)@),
            options@.len() == os.len(),
            k <= os.len(),
            forall|i: int| 0 <= i < k ==> #[trigger] options@[i]@ == with_selected(os[i], os[i].node == node),
            forall|i: int| k <= i < os.len() ==> #[trigger] options@[i]@ == os[i],
            views(changes@) == node_values(os.subrange(0, k as int), node),
        decreases os.len() - k,
    {
        let ghost before = changes@;
        proof {
            assert(options@[k as int]@ == os[k as int]);
            assert(os.subrange(0, k + 1).last() == os[k as int]);
        }
        let mine = options[k].node == node;
        if mine {
            let v = string_json(&options[k].value);
            changes.push(v);
            proof {
                lemma_views_push(before, v);
            }
        }
        let o = SelectOption { node: options[k].node, selected: mine, value: options[k].value.clone() };
        options.set(k, o);
        proof {
            assert(options@[k as int]@ == with_selected(os[k as int], os[k as int].node == node));
            assert(os.subrange(0, k + 1).drop_last() =~= os.subrange(0, k as int));
        }
        k = k + 1;
    }
    proof {
        assert(os.subrange(0, os.len() as int) =~= os);
        assert(views(options@) =~= result.0);
    }
    changes
}

/// The first option of node `node`.
pub open spec fn first_option(os: Seq<SelectOptionV>, node: usize, k: int) -> Option<int>
    decreases os.len() - k,
{
    if 0 <= k < os.len() {
        if os[k].node == node { Some(k) } else { first_option(os, node, k + 1) }
    } else {
        None
    }
}

/// A click on the option `node` turns its selection over, see [`option_update`]; a
/// click on a node that is no option changes nothing.
pub fn handle_option_click(options: &mut Vec<SelectOption>, node: usize, multiple: bool) -> (changes: Vec<Json>)
    ensures
        ({
            let os = views(old(options)@);
            match first_option(os, node, 0) {
                Some(k) => (views(final(options)@), views(changes@)) == option_update(os, node, !os[k].selected, multiple),
                None => final(options)@ == old(options)@ && changes@.len() == 0,
            }
        }),
{
    let ghost os = views(options@);
    let mut k: usize = 0;
    while k < options.len()
        invariant
            os == views(options@),
            os == views(old(options)@),
            options@ == old(options)@,
            k <= os.len(),
            first_option(os, node, 0) == first_option(os, node, k as int),
        decreases os.len() - k,
    {
        if options[k].node == node {
            proof {
                assert(os[k as int] == options@[k as int]@);
                assert(first_option(os, node, k as int) == Some(k as int));
            }
            let selected = options[k].selected;
            return update_option_selected(options, node, !selected, multiple);
        }
        k = k + 1;
    }
    assert(first_option(os, node, os.len() as int) is None);
    Vec::new()
}

/// A character typed into a text input: with the focus, its value takes the character at
/// its end; without it nothing changes.
pub fn input_char(focused: bool, value: &String, c: char) -> (r: Option<String>)
    ensures
        focused ==> (r matches Some(v) && v@ == value@.push(c)),
        !focused ==> r is None,
{
    if !focused {
        return None;
    }
    let mut v = value.clone();
    push_char(&mut v, c);
    Some(v)
}

/// A key released in a text input: with the focus, Enter gives the value as its change,
/// and Backspace takes the last character off a value that has one. The result is the
/// change and the new value.
pub fn input_key_up(focused: bool, value: &String, key: Keys) -> (r: (Option<String>, Option<String>))
    ensures
        !focused ==> r.0 is None && r.1 is None,
        focused ==> (key == Keys::Enter ==> (r.0 matches Some(v) && v@ == value@)) && (key != Keys::Enter ==> r.0 is None),
        focused ==> (key == Keys::Backspace && value@.len() > 0 ==> (r.1 matches Some(v) && v@ == value@.drop_last()))
            && (!(key == Keys::Backspace && value@.len() > 0) ==> r.1 is None),
{
    if !focused {
        return (None, None);
    }
    let change = match key {
        Keys::Enter => Some(value.clone()),
        _ => None,
    };
    let shorter = match key {
        Keys::Backspace => {
            let mut v = value.clone();
            match pop_char(&mut v) {
                Some(_) => Some(v),
                None => None,
            }
        },
        _ => None,
    };
    (change, shorter)
}

} // verus!
