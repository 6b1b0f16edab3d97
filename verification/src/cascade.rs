//! The computed style of an element: each property (at each position of its value list)
//! with its computed value, and how shorthand properties set their longhand properties.
use vstd::prelude::*;
use crate::css::{
    ComputedValue, ComputedValueV, PropertyKey, Css, Declaration, DeclarationV, Definition,
    DefinitionV, Property, StyleV, shorthands_view,
};
use crate::css::matching::{match_style, style_matches, tree_well_formed, NodeV, PseudoClassMatcher, Tree};
use crate::lexer::views;
use crate::apply::{apply, applied_all, slot_fits, ElementStyle};
use crate::variables::{compute_shorthand, resolve, rgb_name, rgba_name, Variables};

verus! {

/// A property at one position of its comma separated value list.
#[derive(Clone, Copy, Debug, PartialEq, Eq, Hash, Structural)]
pub struct PropertyDescriptor {
    pub key: PropertyKey,
    pub index: usize,
}

impl PropertyDescriptor {
    pub fn new(key: PropertyKey, index: usize) -> (d: Self)
        ensures
            d.key == key,
            d.index == index,
    {
        PropertyDescriptor { key, index }
    }
}

/// The map that a list of entries makes, a later entry replacing an earlier one.
pub open spec fn entries_map(s: Seq<(PropertyDescriptor, ComputedValueV)>) -> Map<PropertyDescriptor, ComputedValueV>
    decreases s.len(),
{
    if s.len() == 0 {
        Map::empty()
    } else {
        entries_map(s.drop_last()).insert(s.last().0, s.last().1)
    }
}

pub open spec fn entries_view(s: Seq<(PropertyDescriptor, ComputedValue)>) -> Seq<(PropertyDescriptor, ComputedValueV)> {
    s.map_values(|e: (PropertyDescriptor, ComputedValue)| (e.0, e.1@))
}

pub open spec fn unique_keys(s: Seq<(PropertyDescriptor, ComputedValueV)>) -> bool {
    forall|i: int, j: int| 0 <= i < j < s.len() ==> s[i].0 != s[j].0
}

/// The computed values of an element, one for each property descriptor.
pub struct ComputedStyle {
    entries: Vec<(PropertyDescriptor, ComputedValue)>,
}

impl ComputedStyle {
    #[verifier::type_invariant]
    closed spec fn inv(self) -> bool {
        unique_keys(entries_view(self.entries@))
    }
}

impl View for ComputedStyle {
    type V = Map<PropertyDescriptor, ComputedValueV>;

    closed spec fn view(&self) -> Map<PropertyDescriptor, ComputedValueV> {
        entries_map(entries_view(self.entries@))
    }
}

proof fn lemma_entries_map_absent(s: Seq<(PropertyDescriptor, ComputedValueV)>, d: PropertyDescriptor)
    requires
        forall|i: int| 0 <= i < s.len() ==> s[i].0 != d,
    ensures
        !entries_map(s).dom().contains(d),
    decreases s.len(),
{
    if s.len() > 0 {
        lemma_entries_map_absent(s.drop_last(), d);
    }
}

proof fn lemma_entries_map_update(s: Seq<(PropertyDescriptor, ComputedValueV)>, k: int, v: ComputedValueV)
    requires
        unique_keys(s),
        0 <= k < s.len(),
    ensures
        entries_map(s.update(k, (s[k].0, v))) == entries_map(s).insert(s[k].0, v),
    decreases s.len(),
{
    let t = s.update(k, (s[k].0, v));
    if k == s.len() - 1 {
        assert(t.drop_last() =~= s.drop_last());
        assert(entries_map(s.drop_last()).insert(s[k].0, v) =~= entries_map(s).insert(s[k].0, v));
    } else {
        assert(t.drop_last() =~= s.drop_last().update(k, (s[k].0, v)));
        lemma_entries_map_update(s.drop_last(), k, v);
        assert(s.last().0 != s[k].0);
        assert(entries_map(t) =~= entries_map(s).insert(s[k].0, v));
    }
}

impl ComputedStyle {
    /// The properties and their values, in the order they were first set.
    pub closed spec fn listed(&self) -> Seq<(PropertyDescriptor, ComputedValueV)> {
        entries_view(self.entries@)
    }

    /// Whether every transition and animation property has an index below the largest,
    /// so that applying the values can add its slot.
    pub fn slots_fit(&self) -> (r: bool)
        ensures
            r == forall|i: int| 0 <= i < self.listed().len() ==> slot_fits(#[trigger] self.listed()[i].0),
    {
        let ghost all = self.listed();
        let mut k: usize = 0;
        while k < self.entries.len()
            invariant
                k <= self.entries@.len(),
                all == self.listed(),
                all.len() == self.entries@.len(),
                forall|i: int| 0 <= i < k ==> slot_fits(#[trigger] all[i].0),
            decreases self.entries@.len() - k,
        {
            let d = self.entries[k].0;
            assert(all[k as int].0 == d);
            let slotted = matches!(d.key, PropertyKey::TransitionProperty | PropertyKey::TransitionDuration
                | PropertyKey::TransitionDelay | PropertyKey::TransitionTimingFunction
                | PropertyKey::AnimationName | PropertyKey::AnimationDelay
                | PropertyKey::AnimationDuration | PropertyKey::AnimationDirection
                | PropertyKey::AnimationFillMode | PropertyKey::AnimationPlayState
                | PropertyKey::AnimationIterationCount | PropertyKey::AnimationTimingFunction);
            if slotted && d.index == usize::MAX {
                return false;
            }
            k = k + 1;
        }
        true
    }

    /// Applies each value, in the order the properties were first set, to the style of an
    /// element, and gives how many applied and how many failed, see [`applied_all`]; a
    /// failed value leaves the style as it was.
    pub fn apply_to(&self, target: &mut ElementStyle) -> (r: (usize, usize))
        requires
            forall|i: int| 0 <= i < self.listed().len() ==> slot_fits(#[trigger] self.listed()[i].0),
        ensures
            (final(target)@, r.0 as nat, r.1 as nat) == applied_all(old(target)@, self.listed()),
    {
        let ghost all = self.listed();
        let mut ok: usize = 0;
        let mut failed: usize = 0;
        let mut k: usize = 0;
        assert(all.subrange(0, 0) =~= Seq::<(PropertyDescriptor, ComputedValueV)>::empty());
        while k < self.entries.len()
            invariant
                k <= self.entries@.len(),
                all == self.listed(),
                all.len() == self.entries@.len(),
                ok + failed == k,
                forall|i: int| 0 <= i < all.len() ==> slot_fits(#[trigger] all[i].0),
                (target@, ok as nat, failed as nat) == applied_all(old(target)@, all.subrange(0, k as int)),
            decreases self.entries@.len() - k,
        {
            let (d, v) = &self.entries[k];
            proof {
                assert(all[k as int] == (*d, v@));
                assert(slot_fits(all[k as int].0));
                let next = all.subrange(0, k + 1);
                assert(next.drop_last() =~= all.subrange(0, k as int));
                assert(next.last() == all[k as int]);
            }
            match apply(d.key, d.index, v, target) {
                Ok(()) => ok = ok + 1,
                Err(_) => failed = failed + 1,
            }
            k = k + 1;
        }
        assert(all.subrange(0, all.len() as int) =~= all);
        (ok, failed)
    }

    pub fn new() -> (s: Self)
        ensures
            s@ == Map::<PropertyDescriptor, ComputedValueV>::empty(),
    {
        let s = ComputedStyle { entries: Vec::new() };
        assert(entries_view(s.entries@) =~= Seq::empty());
        s
    }

    /// The number of properties that have a value.
    pub fn len(&self) -> (r: usize)
        ensures
            r == self@.dom().len(),
    {
        proof {
            use_type_invariant(self);
            lemma_entries_len(entries_view(self.entries@));
        }
        self.entries.len()
    }

    /// The value of a property.
    pub fn get(&self, d: &PropertyDescriptor) -> (r: Option<&ComputedValue>)
        ensures
            match r {
                Some(v) => self@.dom().contains(*d) && self@[*d] == v@,
                None => !self@.dom().contains(*d),
            },
    {
        proof {
            use_type_invariant(self);
        }
        let ghost s = entries_view(self.entries@);
        let mut k: usize = 0;
        while k < self.entries.len()
            invariant
                s == entries_view(self.entries@),
                unique_keys(s),
                k <= s.len(),
                forall|i: int| 0 <= i < k ==> s[i].0 != *d,
            decreases s.len() - k,
        {
            if self.entries[k].0 == *d {
                proof {
                    lemma_entries_map_update(s, k as int, s[k as int].1);
                    assert(s.update(k as int, (s[k as int].0, s[k as int].1)) =~= s);
                }
                return Some(&self.entries[k].1);
            }
            k = k + 1;
        }
        proof {
            lemma_entries_map_absent(s, *d);
        }
        None
    }

    /// Sets the value of a property, replacing the one it had.
    pub fn insert(&mut self, d: PropertyDescriptor, v: ComputedValue)
        ensures
            final(self)@ == old(self)@.insert(d, v@),
    {
        proof {
            use_type_invariant(&*self);
        }
        let ghost s = entries_view(self.entries@);
        let ghost vv = v@;
        let mut k: usize = 0;
        while k < self.entries.len()
            invariant
                s == entries_view(self.entries@),
                s == entries_view(old(self).entries@),
                vv == v@,
                unique_keys(s),
                k <= s.len(),
                forall|i: int| 0 <= i < k ==> s[i].0 != d,
            decreases s.len() - k,
        {
            if self.entries[k].0 == d {
                proof {
                    lemma_entries_map_update(s, k as int, vv);
                }
                let mut entries = Vec::new();
                std::mem::swap(&mut entries, &mut self.entries);
                entries.set(k, (d, v));
                assert(entries_view(entries@) =~= s.update(k as int, (s[k as int].0, vv)));
                self.entries = entries;
                return;
            }
            k = k + 1;
        }
        let mut entries = Vec::new();
        std::mem::swap(&mut entries, &mut self.entries);
        entries.push((d, v));
        assert(entries_view(entries@) =~= s.push((d, vv)));
        assert(entries_view(entries@).drop_last() =~= s);
        self.entries = entries;
    }
}

impl Clone for ComputedStyle {
    fn clone(&self) -> (r: Self)
        ensures
            r@ == self@,
    {
        proof {
            use_type_invariant(self);
        }
        let mut entries: Vec<(PropertyDescriptor, ComputedValue)> = Vec::new();
        let mut k: usize = 0;
        while k < self.entries.len()
            invariant
                k <= self.entries@.len(),
                unique_keys(entries_view(self.entries@)),
                entries_view(entries@) == entries_view(self.entries@).subrange(0, k as int),
            decreases self.entries@.len() - k,
        {
            let d = self.entries[k].0;
            let c = self.entries[k].1.clone();
            assert(c@ == self.entries@[k as int].1@);
            let ghost before = entries@;
            entries.push((d, c));
            assert(entries@ == before.push((d, c)));
            assert(entries_view(entries@) =~= entries_view(before).push((d, c@)));
            assert(entries_view(self.entries@)[k as int] == (d, c@));
            assert(entries_view(entries@) =~= entries_view(self.entries@).subrange(0, k + 1));
            k = k + 1;
        }
        assert(entries_view(self.entries@).subrange(0, self.entries@.len() as int) =~= entries_view(self.entries@));
        ComputedStyle { entries }
    }
}

proof fn lemma_entries_len(s: Seq<(PropertyDescriptor, ComputedValueV)>)
    requires
        unique_keys(s),
    ensures
        entries_map(s).dom().len() == s.len(),
        entries_map(s).dom().finite(),
    decreases s.len(),
{
    if s.len() > 0 {
        let t = s.drop_last();
        lemma_entries_len(t);
        lemma_entries_map_absent(t, s.last().0);
    }
}

// ---------------------------------------------------------------------------------------
// Shorthand properties

pub open spec fn one(k: PropertyKey, v: ComputedValueV) -> Seq<(PropertyKey, ComputedValueV)> {
    seq![(k, v)]
}

/// The four sides of a box from one to four values: all sides; vertical and horizontal;
/// top, horizontal and bottom; or top, right, bottom and left.
pub open spec fn sides(
    t: PropertyKey,
    r: PropertyKey,
    b: PropertyKey,
    l: PropertyKey,
    vs: Seq<ComputedValueV>,
) -> Seq<(PropertyKey, ComputedValueV)> {
    if vs.len() == 4 {
        seq![(t, vs[0]), (r, vs[1]), (b, vs[2]), (l, vs[3])]
    } else if vs.len() == 3 {
        seq![(t, vs[0]), (r, vs[1]), (b, vs[2]), (l, vs[1])]
    } else if vs.len() == 2 {
        seq![(t, vs[0]), (r, vs[1]), (b, vs[0]), (l, vs[1])]
    } else {
        seq![(t, vs[0]), (r, vs[0]), (b, vs[0]), (l, vs[0])]
    }
}

/// A border side `width style color`: its width and color.
pub open spec fn border_side(w: PropertyKey, c: PropertyKey, vs: Seq<ComputedValueV>) -> Seq<(PropertyKey, ComputedValueV)> {
    seq![(w, vs[0]), (c, vs[2])]
}

/// The longhand properties, with their values, that a property with the values `vs`
/// sets; a property that is no shorthand sets itself from a single value; any other
/// combination sets nothing.
pub open spec fn longhands(key: PropertyKey, vs: Seq<ComputedValueV>) -> Seq<(PropertyKey, ComputedValueV)> {
    let n = vs.len();
    match key {
        PropertyKey::Background => if n == 1 {
            one(PropertyKey::BackgroundColor, vs[0])
        } else {
            Seq::empty()
        },
        PropertyKey::BackgroundPosition => if n == 1 {
            seq![(PropertyKey::BackgroundPositionX, vs[0]), (PropertyKey::BackgroundPositionY, vs[0])]
        } else if n == 2 {
            seq![(PropertyKey::BackgroundPositionX, vs[0]), (PropertyKey::BackgroundPositionY, vs[1])]
        } else {
            Seq::empty()
        },
        PropertyKey::Border => if n == 3 {
            border_side(PropertyKey::BorderTopWidth, PropertyKey::BorderTopColor, vs)
                + border_side(PropertyKey::BorderRightWidth, PropertyKey::BorderRightColor, vs)
                + border_side(PropertyKey::BorderBottomWidth, PropertyKey::BorderBottomColor, vs)
                + border_side(PropertyKey::BorderLeftWidth, PropertyKey::BorderLeftColor, vs)
        } else if n == 1 {
            one(key, vs[0])
        } else {
            Seq::empty()
        },
        PropertyKey::BorderTop => if n == 3 {
            border_side(PropertyKey::BorderTopWidth, PropertyKey::BorderTopColor, vs)
        } else if n == 1 {
            one(key, vs[0])
        } else {
            Seq::empty()
        },
        PropertyKey::BorderRight => if n == 3 {
            border_side(PropertyKey::BorderRightWidth, PropertyKey::BorderRightColor, vs)
        } else if n == 1 {
            one(key, vs[0])
        } else {
            Seq::empty()
        },
        PropertyKey::BorderBottom => if n == 3 {
            border_side(PropertyKey::BorderBottomWidth, PropertyKey::BorderBottomColor, vs)
        } else if n == 1 {
            one(key, vs[0])
        } else {
            Seq::empty()
        },
        PropertyKey::BorderLeft => if n == 3 {
            border_side(PropertyKey::BorderLeftWidth, PropertyKey::BorderLeftColor, vs)
        } else if n == 1 {
            one(key, vs[0])
        } else {
            Seq::empty()
        },
        PropertyKey::BorderWidth => if 1 <= n <= 4 {
            sides(
                PropertyKey::BorderTopWidth,
                PropertyKey::BorderRightWidth,
                PropertyKey::BorderBottomWidth,
                PropertyKey::BorderLeftWidth,
                vs,
            )
        } else {
            Seq::empty()
        },
        PropertyKey::BorderColor => if 1 <= n <= 4 {
            sides(
                PropertyKey::BorderTopColor,
                PropertyKey::BorderRightColor,
                PropertyKey::BorderBottomColor,
                PropertyKey::BorderLeftColor,
                vs,
            )
        } else {
            Seq::empty()
        },
        PropertyKey::BorderRadius => if 1 <= n <= 4 {
            sides(
                PropertyKey::BorderTopLeftRadius,
                PropertyKey::BorderTopRightRadius,
                PropertyKey::BorderBottomRightRadius,
                PropertyKey::BorderBottomLeftRadius,
                vs,
            )
        } else {
            Seq::empty()
        },
        PropertyKey::Overflow => if n == 1 {
            seq![(PropertyKey::OverflowX, vs[0]), (PropertyKey::OverflowY, vs[0])]
        } else if n == 2 {
            seq![(PropertyKey::OverflowX, vs[0]), (PropertyKey::OverflowY, vs[1])]
        } else {
            Seq::empty()
        },
        PropertyKey::Inset => if n == 4 || n == 1 {
            sides(PropertyKey::Top, PropertyKey::Right, PropertyKey::Bottom, PropertyKey::Left, vs)
        } else {
            Seq::empty()
        },
        PropertyKey::Gap => if n == 2 {
            seq![(PropertyKey::RowGap, vs[1]), (PropertyKey::ColumnGap, vs[0])]
        } else if n == 1 {
            seq![(PropertyKey::RowGap, vs[0]), (PropertyKey::ColumnGap, vs[0])]
        } else {
            Seq::empty()
        },
        PropertyKey::Padding => if 1 <= n <= 4 {
            sides(
                PropertyKey::PaddingTop,
                PropertyKey::PaddingRight,
                PropertyKey::PaddingBottom,
                PropertyKey::PaddingLeft,
                vs,
            )
        } else {
            Seq::empty()
        },
        PropertyKey::Margin => if 1 <= n <= 4 {
            sides(
                PropertyKey::MarginTop,
                PropertyKey::MarginRight,
                PropertyKey::MarginBottom,
                PropertyKey::MarginLeft,
                vs,
            )
        } else {
            Seq::empty()
        },
        PropertyKey::Transition => if n == 2 {
            seq![(PropertyKey::TransitionProperty, vs[0]), (PropertyKey::TransitionDuration, vs[1])]
        } else if n == 3 {
            seq![
                (PropertyKey::TransitionProperty, vs[0]),
                (PropertyKey::TransitionDuration, vs[1]),
                (PropertyKey::TransitionTimingFunction, vs[2]),
            ]
        } else if n == 4 {
            seq![
                (PropertyKey::TransitionProperty, vs[0]),
                (PropertyKey::TransitionDuration, vs[1]),
                (PropertyKey::TransitionTimingFunction, vs[2]),
                (PropertyKey::TransitionDelay, vs[3]),
            ]
        } else if n == 1 {
            one(key, vs[0])
        } else {
            Seq::empty()
        },
        PropertyKey::Animation => if n == 4 && vs[2] is Time {
            seq![
                (PropertyKey::AnimationDelay, vs[2]),
                (PropertyKey::AnimationDuration, vs[0]),
                (PropertyKey::AnimationName, vs[3]),
                (PropertyKey::AnimationTimingFunction, vs[1]),
            ]
        } else if n == 4 {
            seq![
                (PropertyKey::AnimationDuration, vs[0]),
                (PropertyKey::AnimationIterationCount, vs[2]),
                (PropertyKey::AnimationName, vs[3]),
                (PropertyKey::AnimationTimingFunction, vs[1]),
            ]
        } else if n == 3 {
            seq![
                (PropertyKey::AnimationDuration, vs[0]),
                (PropertyKey::AnimationName, vs[2]),
                (PropertyKey::AnimationTimingFunction, vs[1]),
            ]
        } else if n == 2 {
            seq![(PropertyKey::AnimationDuration, vs[0]), (PropertyKey::AnimationName, vs[1])]
        } else if n == 1 {
            one(key, vs[0])
        } else {
            Seq::empty()
        },
        _ => if n == 1 {
            one(key, vs[0])
        } else {
            Seq::empty()
        },
    }
}

pub open spec fn pairs_view(s: Seq<(PropertyKey, ComputedValue)>) -> Seq<(PropertyKey, ComputedValueV)> {
    s.map_values(|p: (PropertyKey, ComputedValue)| (p.0, p.1@))
}

pub open spec fn values_view(s: Seq<ComputedValue>) -> Seq<ComputedValueV> {
    s.map_values(|v: ComputedValue| v@)
}

/// The style with each longhand, at position `index`, set in turn.
pub open spec fn set_all(
    style: Map<PropertyDescriptor, ComputedValueV>,
    index: usize,
    ls: Seq<(PropertyKey, ComputedValueV)>,
) -> Map<PropertyDescriptor, ComputedValueV>
    decreases ls.len(),
{
    if ls.len() == 0 {
        style
    } else {
        set_all(style, index, ls.drop_last()).insert(
            PropertyDescriptor { key: ls.last().0, index },
            ls.last().1,
        )
    }
}

fn push_pair(out: &mut Vec<(PropertyKey, ComputedValue)>, k: PropertyKey, v: &ComputedValue)
    ensures
        pairs_view(final(out)@) == pairs_view(old(out)@).push((k, v@)),
{
    let c = v.clone();
    out.push((k, c));
    assert(pairs_view(out@) =~= pairs_view(old(out)@).push((k, v@)));
}

fn push_sides(
    out: &mut Vec<(PropertyKey, ComputedValue)>,
    t: PropertyKey,
    r: PropertyKey,
    b: PropertyKey,
    l: PropertyKey,
    vs: &[ComputedValue],
)
    requires
        1 <= vs@.len() <= 4,
        pairs_view(old(out)@) == Seq::<(PropertyKey, ComputedValueV)>::empty(),
    ensures
        pairs_view(final(out)@) == sides(t, r, b, l, values_view(vs@)),
{
    let n = vs.len();
    let (a0, a1, a2, a3) = if n == 4 {
        (0, 1, 2, 3)
    } else if n == 3 {
        (0, 1, 2, 1)
    } else if n == 2 {
        (0, 1, 0, 1)
    } else {
        (0, 0, 0, 0)
    };
    push_pair(out, t, &vs[a0]);
    push_pair(out, r, &vs[a1]);
    push_pair(out, b, &vs[a2]);
    push_pair(out, l, &vs[a3]);
    assert(pairs_view(out@) =~= sides(t, r, b, l, values_view(vs@)));
}

fn push_border_side(out: &mut Vec<(PropertyKey, ComputedValue)>, w: PropertyKey, c: PropertyKey, vs: &[ComputedValue])
    requires
        vs@.len() == 3,
    ensures
        pairs_view(final(out)@) == pairs_view(old(out)@) + border_side(w, c, values_view(vs@)),
{
    push_pair(out, w, &vs[0]);
    push_pair(out, c, &vs[2]);
    assert(pairs_view(out@) =~= pairs_view(old(out)@) + border_side(w, c, values_view(vs@)));
}

/// The longhands that a property with computed values sets, see [`longhands`].
pub fn longhands_of(key: PropertyKey, vs: &[ComputedValue]) -> (r: Vec<(PropertyKey, ComputedValue)>)
    ensures
        pairs_view(r@) == longhands(key, values_view(vs@)),
{
    match key {
        PropertyKey::Background | PropertyKey::BackgroundPosition | PropertyKey::Border
        | PropertyKey::BorderTop | PropertyKey::BorderRight | PropertyKey::BorderBottom
        | PropertyKey::BorderLeft => longhands_of_borders(key, vs),
        PropertyKey::BorderWidth | PropertyKey::BorderColor | PropertyKey::BorderRadius
        | PropertyKey::Overflow | PropertyKey::Inset | PropertyKey::Gap | PropertyKey::Padding
        | PropertyKey::Margin => longhands_of_boxes(key, vs),
        _ => longhands_of_others(key, vs),
    }
}

#[verifier::rlimit(100)]
#[verifier::spinoff_prover]
fn longhands_of_borders(key: PropertyKey, vs: &[ComputedValue]) -> (r: Vec<(PropertyKey, ComputedValue)>)
    requires
        key == PropertyKey::Background || key == PropertyKey::BackgroundPosition || key == PropertyKey::Border || key == PropertyKey::BorderTop || key == PropertyKey::BorderRight || key == PropertyKey::BorderBottom || key == PropertyKey::BorderLeft,
    ensures
        pairs_view(r@) == longhands(key, values_view(vs@)),
{
    let mut out: Vec<(PropertyKey, ComputedValue)> = Vec::new();
    let n = vs.len();
    assert(pairs_view(out@) =~= Seq::<(PropertyKey, ComputedValueV)>::empty());
    assert(values_view(vs@).len() == n);
    match key {
        PropertyKey::Background => {
            if n == 1 {
                push_pair(&mut out, PropertyKey::BackgroundColor, &vs[0]);
            }
        },
        PropertyKey::BackgroundPosition => {
            if n == 1 {
                push_pair(&mut out, PropertyKey::BackgroundPositionX, &vs[0]);
                push_pair(&mut out, PropertyKey::BackgroundPositionY, &vs[0]);
            } else if n == 2 {
                push_pair(&mut out, PropertyKey::BackgroundPositionX, &vs[0]);
                push_pair(&mut out, PropertyKey::BackgroundPositionY, &vs[1]);
            }
        },
        PropertyKey::Border => {
            if n == 3 {
                push_border_side(&mut out, PropertyKey::BorderTopWidth, PropertyKey::BorderTopColor, vs);
                push_border_side(&mut out, PropertyKey::BorderRightWidth, PropertyKey::BorderRightColor, vs);
                push_border_side(&mut out, PropertyKey::BorderBottomWidth, PropertyKey::BorderBottomColor, vs);
                push_border_side(&mut out, PropertyKey::BorderLeftWidth, PropertyKey::BorderLeftColor, vs);
            } else if n == 1 {
                push_pair(&mut out, key, &vs[0]);
            }
        },
        PropertyKey::BorderTop => {
            if n == 3 {
                push_border_side(&mut out, PropertyKey::BorderTopWidth, PropertyKey::BorderTopColor, vs);
            } else if n == 1 {
                push_pair(&mut out, key, &vs[0]);
            }
        },
        PropertyKey::BorderRight => {
            if n == 3 {
                push_border_side(&mut out, PropertyKey::BorderRightWidth, PropertyKey::BorderRightColor, vs);
            } else if n == 1 {
                push_pair(&mut out, key, &vs[0]);
            }
        },
        PropertyKey::BorderBottom => {
            if n == 3 {
                push_border_side(&mut out, PropertyKey::BorderBottomWidth, PropertyKey::BorderBottomColor, vs);
            } else if n == 1 {
                push_pair(&mut out, key, &vs[0]);
            }
        },
        PropertyKey::BorderLeft => {
            if n == 3 {
                push_border_side(&mut out, PropertyKey::BorderLeftWidth, PropertyKey::BorderLeftColor, vs);
            } else if n == 1 {
                push_pair(&mut out, key, &vs[0]);
            }
        },
        _ => {},
    }
    assert(pairs_view(out@) =~= longhands(key, values_view(vs@)));
    out
}

#[verifier::rlimit(100)]
#[verifier::spinoff_prover]
fn longhands_of_boxes(key: PropertyKey, vs: &[ComputedValue]) -> (r: Vec<(PropertyKey, ComputedValue)>)
    requires
        key == PropertyKey::BorderWidth || key == PropertyKey::BorderColor || key == PropertyKey::BorderRadius || key == PropertyKey::Overflow || key == PropertyKey::Inset || key == PropertyKey::Gap || key == PropertyKey::Padding || key == PropertyKey::Margin,
    ensures
        pairs_view(r@) == longhands(key, values_view(vs@)),
{
    let mut out: Vec<(PropertyKey, ComputedValue)> = Vec::new();
    let n = vs.len();
    assert(pairs_view(out@) =~= Seq::<(PropertyKey, ComputedValueV)>::empty());
    assert(values_view(vs@).len() == n);
    match key {
        PropertyKey::BorderWidth => {
            if 1 <= n && n <= 4 {
                push_sides(
                    &mut out,
                    PropertyKey::BorderTopWidth,
                    PropertyKey::BorderRightWidth,
                    PropertyKey::BorderBottomWidth,
                    PropertyKey::BorderLeftWidth,
                    vs,
                );
            }
        },
        PropertyKey::BorderColor => {
            if 1 <= n && n <= 4 {
                push_sides(
                    &mut out,
                    PropertyKey::BorderTopColor,
                    PropertyKey::BorderRightColor,
                    PropertyKey::BorderBottomColor,
                    PropertyKey::BorderLeftColor,
                    vs,
                );
            }
        },
        PropertyKey::BorderRadius => {
            if 1 <= n && n <= 4 {
                push_sides(
                    &mut out,
                    PropertyKey::BorderTopLeftRadius,
                    PropertyKey::BorderTopRightRadius,
                    PropertyKey::BorderBottomRightRadius,
                    PropertyKey::BorderBottomLeftRadius,
                    vs,
                );
            }
        },
        PropertyKey::Overflow => {
            if n == 1 {
                push_pair(&mut out, PropertyKey::OverflowX, &vs[0]);
                push_pair(&mut out, PropertyKey::OverflowY, &vs[0]);
            } else if n == 2 {
                push_pair(&mut out, PropertyKey::OverflowX, &vs[0]);
                push_pair(&mut out, PropertyKey::OverflowY, &vs[1]);
            }
        },
        PropertyKey::Inset => {
            if n == 4 || n == 1 {
                push_sides(&mut out, PropertyKey::Top, PropertyKey::Right, PropertyKey::Bottom, PropertyKey::Left, vs);
            }
        },
        PropertyKey::Gap => {
            if n == 2 {
                push_pair(&mut out, PropertyKey::RowGap, &vs[1]);
                push_pair(&mut out, PropertyKey::ColumnGap, &vs[0]);
            } else if n == 1 {
                push_pair(&mut out, PropertyKey::RowGap, &vs[0]);
                push_pair(&mut out, PropertyKey::ColumnGap, &vs[0]);
            }
        },
        PropertyKey::Padding => {
            if 1 <= n && n <= 4 {
                push_sides(
                    &mut out,
                    PropertyKey::PaddingTop,
                    PropertyKey::PaddingRight,
                    PropertyKey::PaddingBottom,
                    PropertyKey::PaddingLeft,
                    vs,
                );
            }
        },
        PropertyKey::Margin => {
            if 1 <= n && n <= 4 {
                push_sides(
                    &mut out,
                    PropertyKey::MarginTop,
                    PropertyKey::MarginRight,
                    PropertyKey::MarginBottom,
                    PropertyKey::MarginLeft,
                    vs,
                );
            }
        },
        _ => {},
    }
    assert(pairs_view(out@) =~= longhands(key, values_view(vs@)));
    out
}

#[verifier::rlimit(100)]
#[verifier::spinoff_prover]
fn longhands_of_others(key: PropertyKey, vs: &[ComputedValue]) -> (r: Vec<(PropertyKey, ComputedValue)>)
    requires
        key != PropertyKey::Background && key != PropertyKey::BackgroundPosition && key != PropertyKey::Border && key != PropertyKey::BorderTop && key != PropertyKey::BorderRight && key != PropertyKey::BorderBottom && key != PropertyKey::BorderLeft && key != PropertyKey::BorderWidth && key != PropertyKey::BorderColor && key != PropertyKey::BorderRadius && key != PropertyKey::Overflow && key != PropertyKey::Inset && key != PropertyKey::Gap && key != PropertyKey::Padding && key != PropertyKey::Margin,
    ensures
        pairs_view(r@) == longhands(key, values_view(vs@)),
{
    let mut out: Vec<(PropertyKey, ComputedValue)> = Vec::new();
    let n = vs.len();
    assert(pairs_view(out@) =~= Seq::<(PropertyKey, ComputedValueV)>::empty());
    assert(values_view(vs@).len() == n);
    match key {
        PropertyKey::Transition => {
            if 2 <= n && n <= 4 {
                push_pair(&mut out, PropertyKey::TransitionProperty, &vs[0]);
                push_pair(&mut out, PropertyKey::TransitionDuration, &vs[1]);
                if n >= 3 {
                    push_pair(&mut out, PropertyKey::TransitionTimingFunction, &vs[2]);
                }
                if n == 4 {
                    push_pair(&mut out, PropertyKey::TransitionDelay, &vs[3]);
                }
            } else if n == 1 {
                push_pair(&mut out, key, &vs[0]);
            }
        },
        PropertyKey::Animation => {
            if n == 4 {
                match &vs[2] {
                    ComputedValue::Time(_) => {
                        push_pair(&mut out, PropertyKey::AnimationDelay, &vs[2]);
                        push_pair(&mut out, PropertyKey::AnimationDuration, &vs[0]);
                    },
                    _ => {
                        push_pair(&mut out, PropertyKey::AnimationDuration, &vs[0]);
                        push_pair(&mut out, PropertyKey::AnimationIterationCount, &vs[2]);
                    },
                }
                push_pair(&mut out, PropertyKey::AnimationName, &vs[3]);
                push_pair(&mut out, PropertyKey::AnimationTimingFunction, &vs[1]);
            } else if n == 3 {
                push_pair(&mut out, PropertyKey::AnimationDuration, &vs[0]);
                push_pair(&mut out, PropertyKey::AnimationName, &vs[2]);
                push_pair(&mut out, PropertyKey::AnimationTimingFunction, &vs[1]);
            } else if n == 2 {
                push_pair(&mut out, PropertyKey::AnimationDuration, &vs[0]);
                push_pair(&mut out, PropertyKey::AnimationName, &vs[1]);
            } else if n == 1 {
                push_pair(&mut out, key, &vs[0]);
            }
        },
        _ => {
            if n == 1 {
                push_pair(&mut out, key, &vs[0]);
            }
        },
    }
    assert(pairs_view(out@) =~= longhands(key, values_view(vs@)));
    out
}

/// Sets, in a computed style, the longhands that a property with the computed values
/// `values` at position `index` of its value list sets, see [`longhands`].
pub fn compute_style(key: PropertyKey, index: usize, values: &[ComputedValue], style: &mut ComputedStyle)
    ensures
        final(style)@ == set_all(old(style)@, index, longhands(key, values_view(values@))),
        longhands(key, values_view(values@)).len() == 0 ==> final(style)@ == old(style)@,
{
    let ls = longhands_of(key, values);
    let ghost lv = pairs_view(ls@);
    let mut k: usize = 0;
    while k < ls.len()
        invariant
            lv == pairs_view(ls@),
            lv == longhands(key, values_view(values@)),
            k <= ls@.len(),
            style@ == set_all(old(style)@, index, lv.subrange(0, k as int)),
        decreases ls@.len() - k,
    {
        let (lk, lval) = &ls[k];
        proof {
            assert(lv.subrange(0, k + 1).drop_last() =~= lv.subrange(0, k as int));
        }
        style.insert(PropertyDescriptor::new(*lk, index), lval.clone());
        k = k + 1;
    }
    assert(lv.subrange(0, ls@.len() as int) =~= lv);
}

} // verus!

verus! {

// ---------------------------------------------------------------------------------------
// The cascade of declarations

/// The computed style after the values of a property at positions `0..n` are computed
/// and set in turn (a value whose computation fails sets nothing); `None` where a
/// computation would never end.
pub open spec fn property_result(
    vars: Map<Seq<char>, Seq<DefinitionV>>,
    style: Map<PropertyDescriptor, ComputedValueV>,
    key: PropertyKey,
    values: Seq<Seq<DefinitionV>>,
    n: nat,
) -> Option<Map<PropertyDescriptor, ComputedValueV>>
    decreases n,
{
    if n == 0 {
        Some(style)
    } else {
        match property_result(vars, style, key, values, (n - 1) as nat) {
            None => None,
            Some(s) => match resolve(vars, values[n - 1], Set::empty()) {
                None => None,
                Some((ok, cv)) => Some(
                    if ok {
                        set_all(s, (n - 1) as usize, longhands(key, cv))
                    } else {
                        s
                    },
                ),
            },
        }
    }
}

/// The variables and the computed style after the declarations of a block, one after
/// another: a custom property declares a variable, a property sets its longhands;
/// `None` where a computation would never end.
pub open spec fn block_result(
    vars: Map<Seq<char>, Seq<DefinitionV>>,
    style: Map<PropertyDescriptor, ComputedValueV>,
    block: Seq<DeclarationV>,
) -> Option<(Map<Seq<char>, Seq<DefinitionV>>, Map<PropertyDescriptor, ComputedValueV>)>
    decreases block.len(),
{
    if block.len() == 0 {
        Some((vars, style))
    } else {
        match block_result(vars, style, block.drop_last()) {
            None => None,
            Some((v, s)) => match block.last() {
                DeclarationV::Variable(name, shorthand) => Some((v.insert(name, shorthand), s)),
                DeclarationV::Property(key, values) => match property_result(v, s, key, values, values.len()) {
                    Some(s2) => Some((v, s2)),
                    None => None,
                },
            },
        }
    }
}

/// The variables and the computed style after the style rules `styles[0..k]` that apply
/// to `node` (in the order of the style sheet), see [`block_result`].
pub open spec fn rules_result<M: PseudoClassMatcher>(
    vars: Map<Seq<char>, Seq<DefinitionV>>,
    style: Map<PropertyDescriptor, ComputedValueV>,
    styles: Seq<StyleV>,
    nodes: Seq<NodeV>,
    node: usize,
    m: M,
    k: nat,
) -> Option<(Map<Seq<char>, Seq<DefinitionV>>, Map<PropertyDescriptor, ComputedValueV>)>
    decreases k,
{
    if k == 0 {
        Some((vars, style))
    } else {
        match rules_result(vars, style, styles, nodes, node, m, (k - 1) as nat) {
            None => None,
            Some((v, s)) => if style_matches(nodes, styles[k - 1].selectors, node, m) {
                block_result(v, s, styles[k - 1].declaration)
            } else {
                Some((v, s))
            },
        }
    }
}

/// The cascade of a style sheet: it computes the style of an element from the style
/// rules that apply to it and from its inline declarations, with the variables declared
/// along the way.
pub struct Cascade<'c> {
    css: &'c Css,
    variables: Variables,
}

impl<'c> Cascade<'c> {
    pub closed spec fn spec_css(&self) -> &'c Css {
        self.css
    }

    pub closed spec fn spec_variables(&self) -> Map<Seq<char>, Seq<DefinitionV>> {
        self.variables@
    }

    pub fn new(css: &'c Css, variables: Variables) -> (c: Self)
        ensures
            c.spec_css() == css,
            c.spec_variables() == variables@,
    {
        Cascade { css, variables }
    }

    /// The variables declared so far.
    pub fn take_variables(self) -> (v: Variables)
        ensures
            v@ == self.spec_variables(),
    {
        self.variables
    }

    /// Computes the values of a property at position `index` and sets its longhands;
    /// false where the computation would never end.
    fn compute_style(&self, key: PropertyKey, index: usize, definition: &[Definition], style: &mut ComputedStyle) -> (r: bool)
        ensures
            match resolve(self.variables@, views(definition@), Set::empty()) {
                None => !r && final(style)@ == old(style)@,
                Some((ok, cv)) => r && final(style)@ == if ok {
                    set_all(old(style)@, index, longhands(key, cv))
                } else {
                    old(style)@
                },
            },
            (match resolve(self.variables@, views(definition@), Set::empty()) {
                Some((ok, cv)) => !ok || longhands(key, cv).len() == 0,
                None => true,
            }) ==> final(style)@ == old(style)@,
    {
        let mut shorthand: Vec<ComputedValue> = Vec::new();
        assert(values_view(shorthand@) =~= Seq::<ComputedValueV>::empty());
        match compute_shorthand(&self.variables, definition, &mut shorthand) {
            None => false,
            Some(false) => true,
            Some(true) => {
                assert(values_view(shorthand@) =~= resolve(self.variables@, views(definition@), Set::empty()).unwrap().1);
                compute_style(key, index, shorthand.as_slice(), style);
                true
            },
        }
    }

    fn compute_property(&self, property: &Property, style: &mut ComputedStyle) -> (r: bool)
        ensures
            ({
                let p = property_result(self.variables@, old(style)@, property.key, shorthands_view(property.values@), property.values@.len());
                &&& r == p is Some
                &&& r ==> final(style)@ == p.unwrap()
                &&& !r ==> final(style)@ == old(style)@
            }),
    {
        let saved = style.clone();
        let ghost values = shorthands_view(property.values@);
        let mut index: usize = 0;
        while index < property.values.len()
            invariant
                index <= property.values@.len(),
                values == shorthands_view(property.values@),
                property_result(self.variables@, old(style)@, property.key, values, index as nat) == Some(style@),
                saved@ == old(style)@,
            decreases property.values@.len() - index,
        {
            assert(values[index as int] == views(property.values@[index as int]@));
            if !self.compute_style(property.key, index, property.values[index].as_slice(), style) {
                proof {
                    lemma_property_result_stuck(self.variables@, old(style)@, property.key, values, (index + 1) as nat, property.values@.len());
                }
                *style = saved;
                return false;
            }
            index = index + 1;
        }
        true
    }

    /// Computes a block of declarations in order into `style`, see [`block_result`];
    /// false where a computation would never end.
    pub fn compute_declaration_block(&mut self, block: &[Declaration], style: &mut ComputedStyle) -> (r: bool)
        ensures
            final(self).spec_css() == old(self).spec_css(),
            ({
                let b = block_result(old(self).spec_variables(), old(style)@, views(block@));
                &&& r == b is Some
                &&& r ==> final(self).spec_variables() == b.unwrap().0 && final(style)@ == b.unwrap().1
                &&& !r ==> final(self).spec_variables() == old(self).spec_variables() && final(style)@ == old(style)@
            }),
    {
        let saved_variables = self.variables.clone();
        let saved_style = style.clone();
        let ghost bv = views(block@);
        let mut k: usize = 0;
        assert(bv.subrange(0, 0) =~= Seq::<DeclarationV>::empty());
        while k < block.len()
            invariant
                k <= block@.len(),
                bv == views(block@),
                self.css == old(self).css,
                block_result(old(self).variables@, old(style)@, bv.subrange(0, k as int)) == Some((self.variables@, style@)),
                saved_variables@ == old(self).variables@,
                saved_style@ == old(style)@,
            decreases block@.len() - k,
        {
            let ghost prefix = bv.subrange(0, k + 1);
            assert(prefix.drop_last() =~= bv.subrange(0, k as int));
            assert(prefix.last() == block@[k as int]@);
            match &block[k] {
                Declaration::Variable(variable) => {
                    self.variables.set(variable.key.as_str(), &variable.shorthand);
                },
                Declaration::Property(property) => {
                    if !self.compute_property(property, style) {
                        proof {
                            lemma_block_result_stuck(old(self).variables@, old(style)@, bv, (k + 1) as nat);
                        }
                        self.variables = saved_variables;
                        *style = saved_style;
                        return false;
                    }
                },
            }
            k = k + 1;
        }
        assert(bv.subrange(0, block@.len() as int) =~= bv);
        true
    }

    /// Computes the style of `node` from the style rules that apply to it and then from
    /// its inline declarations, see [`rules_result`] and [`block_result`]; `None` where a
    /// computation would never end.
    pub fn compute_rules<M: PseudoClassMatcher>(
        &mut self,
        node: usize,
        tree: &Tree,
        inline: &[Declaration],
        matcher: &M,
    ) -> (r: Option<ComputedStyle>)
        requires
            tree_well_formed(tree@),
            node < tree@.len(),
        ensures
            final(self).spec_css() == old(self).spec_css(),
            ({
                let styles = views(old(self).spec_css().styles@);
                let rules = rules_result(old(self).spec_variables(), Map::empty(), styles, tree@, node, *matcher, styles.len());
                let all = match rules {
                    Some((v, s)) => block_result(v, s, views(inline@)),
                    None => None,
                };
                &&& r is Some == all is Some
                &&& r matches Some(c) ==> c@ == all.unwrap().1 && final(self).spec_variables() == all.unwrap().0
                &&& r is None ==> final(self).spec_variables() == old(self).spec_variables()
            }),
    {
        let saved_variables = self.variables.clone();
        let mut style = ComputedStyle::new();
        let css = self.css;
        let ghost styles = views(css.styles@);
        let mut k: usize = 0;
        while k < css.styles.len()
            invariant
                tree_well_formed(tree@),
                node < tree@.len(),
                k <= css.styles@.len(),
                self.css == css,
                css == old(self).css,
                styles == views(css.styles@),
                rules_result(old(self).variables@, Map::empty(), styles, tree@, node, *matcher, k as nat) == Some((self.variables@, style@)),
                saved_variables@ == old(self).variables@,
            decreases css.styles@.len() - k,
        {
            assert(styles[k as int] == css.styles@[k as int]@);
            if match_style(&css.styles[k], node, tree, matcher) {
                if !self.compute_declaration_block(css.styles[k].declaration.as_slice(), &mut style) {
                    proof {
                        lemma_rules_result_stuck(old(self).variables@, Map::empty(), styles, tree@, node, *matcher, (k + 1) as nat, styles.len());
                    }
                    self.variables = saved_variables;
                    return None;
                }
            }
            k = k + 1;
        }
        if !self.compute_declaration_block(inline, &mut style) {
            self.variables = saved_variables;
            return None;
        }
        Some(style)
    }
}

proof fn lemma_property_result_stuck(
    vars: Map<Seq<char>, Seq<DefinitionV>>,
    style: Map<PropertyDescriptor, ComputedValueV>,
    key: PropertyKey,
    values: Seq<Seq<DefinitionV>>,
    k: nat,
    n: nat,
)
    requires
        k <= n,
        property_result(vars, style, key, values, k) is None,
    ensures
        property_result(vars, style, key, values, n) is None,
    decreases n - k,
{
    if k < n {
        lemma_property_result_stuck(vars, style, key, values, k, (n - 1) as nat);
    }
}

proof fn lemma_block_result_stuck(
    vars: Map<Seq<char>, Seq<DefinitionV>>,
    style: Map<PropertyDescriptor, ComputedValueV>,
    block: Seq<DeclarationV>,
    k: nat,
)
    requires
        k <= block.len(),
        block_result(vars, style, block.subrange(0, k as int)) is None,
    ensures
        block_result(vars, style, block) is None,
    decreases block.len() - k,
{
    if k < block.len() {
        assert(block.subrange(0, (k + 1) as int).drop_last() =~= block.subrange(0, k as int));
        lemma_block_result_stuck(vars, style, block, k + 1);
    } else {
        assert(block.subrange(0, k as int) =~= block);
    }
}

proof fn lemma_rules_result_stuck<M: PseudoClassMatcher>(
    vars: Map<Seq<char>, Seq<DefinitionV>>,
    style: Map<PropertyDescriptor, ComputedValueV>,
    styles: Seq<StyleV>,
    nodes: Seq<NodeV>,
    node: usize,
    m: M,
    k: nat,
    n: nat,
)
    requires
        k <= n,
        rules_result(vars, style, styles, nodes, node, m, k) is None,
    ensures
        rules_result(vars, style, styles, nodes, node, m, n) is None,
    decreases n - k,
{
    if k < n {
        lemma_rules_result_stuck(vars, style, styles, nodes, node, m, k, (n - 1) as nat);
    }
}

} // verus!

verus! {

/// The last declaration wins: a property that is no shorthand, declared last in a block
/// with one value that computes to `x`, has the value `x` in the computed style, whatever
/// the earlier declarations set.
pub proof fn law_last_declaration_wins(
    vars: Map<Seq<char>, Seq<DefinitionV>>,
    style: Map<PropertyDescriptor, ComputedValueV>,
    block: Seq<DeclarationV>,
    v: Map<Seq<char>, Seq<DefinitionV>>,
    s: Map<PropertyDescriptor, ComputedValueV>,
    key: PropertyKey,
    defs: Seq<DefinitionV>,
    x: ComputedValueV,
)
    requires
        block.len() > 0,
        block.last() == DeclarationV::Property(key, seq![defs]),
        block_result(vars, style, block.drop_last()) == Some((v, s)),
        resolve(v, defs, Set::empty()) == Some((true, seq![x])),
        longhands(key, seq![x]) == seq![(key, x)],
    ensures
        block_result(vars, style, block) == Some((v, s.insert(PropertyDescriptor { key, index: 0 }, x))),
        block_result(vars, style, block).unwrap().1[PropertyDescriptor { key, index: 0 }] == x,
{
    let ls = seq![(key, x)];
    assert(ls.drop_last() =~= Seq::<(PropertyKey, ComputedValueV)>::empty());
    assert(set_all(s, 0, ls) == set_all(s, 0, ls.drop_last()).insert(PropertyDescriptor { key, index: 0 }, x));
    assert(property_result(v, s, key, seq![defs], 0) == Some(s));
}

} // verus!

verus! {

/// A value list that no pattern of its property takes sets nothing: the style stays as
/// it is.
pub proof fn law_unmatched_values_set_nothing(
    style: Map<PropertyDescriptor, ComputedValueV>,
    index: usize,
    key: PropertyKey,
    vs: Seq<ComputedValueV>,
)
    requires
        longhands(key, vs).len() == 0,
    ensures
        set_all(style, index, longhands(key, vs)) == style,
{
}

/// Five values are no pattern of `padding` (nor of any box shorthand).
pub proof fn law_five_box_values_unmatched(vs: Seq<ComputedValueV>)
    requires
        vs.len() == 5,
    ensures
        longhands(PropertyKey::Padding, vs).len() == 0,
        longhands(PropertyKey::Margin, vs).len() == 0,
        longhands(PropertyKey::BorderWidth, vs).len() == 0,
{
}

/// A value whose computation fails (an unknown variable, a function other than `rgb` and
/// `rgba`) sets nothing: the style after it is the style before it.
pub proof fn law_failed_value_sets_nothing(
    vars: Map<Seq<char>, Seq<DefinitionV>>,
    style: Map<PropertyDescriptor, ComputedValueV>,
    key: PropertyKey,
    values: Seq<Seq<DefinitionV>>,
    n: nat,
    s: Map<PropertyDescriptor, ComputedValueV>,
)
    requires
        n > 0,
        property_result(vars, style, key, values, (n - 1) as nat) == Some(s),
        resolve(vars, values[n - 1], Set::empty()) matches Some((ok, _)) && !ok,
    ensures
        property_result(vars, style, key, values, n) == Some(s),
{
}


/// Whether a definition cannot be computed, whatever follows it: an unknown variable, or
/// a function other than `rgb` and `rgba`.
pub open spec fn uncomputable(vars: Map<Seq<char>, Seq<DefinitionV>>, d: DefinitionV) -> bool {
    match d {
        DefinitionV::Var(name) => !vars.dom().contains(name),
        DefinitionV::Function(name, _) => name != rgb_name() && name != rgba_name(),
        DefinitionV::Explicit(_) => false,
    }
}

/// A value with an unknown variable, or a function other than `rgb` and `rgba`, among
/// its definitions never computes: its computation fails or does not end, so it sets
/// nothing (see [`law_failed_value_sets_nothing`]).
pub proof fn law_uncomputable_definition_fails(
    vars: Map<Seq<char>, Seq<DefinitionV>>,
    defs: Seq<DefinitionV>,
    visiting: Set<Seq<char>>,
    i: int,
)
    requires
        vars.dom().finite(),
        0 <= i < defs.len(),
        uncomputable(vars, defs[i]),
    ensures
        !(resolve(vars, defs, visiting) matches Some((ok, _)) && ok),
    decreases defs.len(),
{
    if i > 0 {
        let rest = defs.subrange(1, defs.len() as int);
        assert(rest[i - 1] == defs[i]);
        law_uncomputable_definition_fails(vars, rest, visiting, i - 1);
    }
}

/// Computing the values of a property at `index` sets entries at `index` only: every
/// entry at another index stays as it was (there or absent), and no entry is removed.
pub proof fn law_compute_touches_only_its_index(
    style: Map<PropertyDescriptor, ComputedValueV>,
    index: usize,
    ls: Seq<(PropertyKey, ComputedValueV)>,
)
    ensures
        forall|d: PropertyDescriptor| d.index != index ==> (#[trigger] set_all(style, index, ls).dom().contains(d)
            == style.dom().contains(d)),
        forall|d: PropertyDescriptor| d.index != index && style.dom().contains(d) ==> #[trigger] set_all(style, index, ls)[d] == style[d],
        style.dom().subset_of(set_all(style, index, ls).dom()),
    decreases ls.len(),
{
    if ls.len() > 0 {
        law_compute_touches_only_its_index(style, index, ls.drop_last());
    }
}

/// The four-sided shorthands (`padding`, `margin`, `border-width`, `border-color`,
/// `border-radius`) set their sides, clockwise from the top (or top-left corner): one value
/// for every side; two for vertical and horizontal; three for top, horizontal and bottom;
/// four for each side in turn.
pub proof fn law_box_shorthands_set_the_four_sides(a: ComputedValueV, b: ComputedValueV, c: ComputedValueV, d: ComputedValueV)
    ensures
        (longhands(PropertyKey::Padding, seq![a]) == seq![(PropertyKey::PaddingTop, a), (PropertyKey::PaddingRight, a), (PropertyKey::PaddingBottom, a), (PropertyKey::PaddingLeft, a)]),
        (longhands(PropertyKey::Padding, seq![a, b]) == seq![(PropertyKey::PaddingTop, a), (PropertyKey::PaddingRight, b), (PropertyKey::PaddingBottom, a), (PropertyKey::PaddingLeft, b)]),
        (longhands(PropertyKey::Padding, seq![a, b, c]) == seq![(PropertyKey::PaddingTop, a), (PropertyKey::PaddingRight, b), (PropertyKey::PaddingBottom, c), (PropertyKey::PaddingLeft, b)]),
        (longhands(PropertyKey::Padding, seq![a, b, c, d]) == seq![(PropertyKey::PaddingTop, a), (PropertyKey::PaddingRight, b), (PropertyKey::PaddingBottom, c), (PropertyKey::PaddingLeft, d)]),
        (longhands(PropertyKey::Margin, seq![a]) == seq![(PropertyKey::MarginTop, a), (PropertyKey::MarginRight, a), (PropertyKey::MarginBottom, a), (PropertyKey::MarginLeft, a)]),
        (longhands(PropertyKey::Margin, seq![a, b]) == seq![(PropertyKey::MarginTop, a), (PropertyKey::MarginRight, b), (PropertyKey::MarginBottom, a), (PropertyKey::MarginLeft, b)]),
        (longhands(PropertyKey::Margin, seq![a, b, c]) == seq![(PropertyKey::MarginTop, a), (PropertyKey::MarginRight, b), (PropertyKey::MarginBottom, c), (PropertyKey::MarginLeft, b)]),
        (longhands(PropertyKey::Margin, seq![a, b, c, d]) == seq![(PropertyKey::MarginTop, a), (PropertyKey::MarginRight, b), (PropertyKey::MarginBottom, c), (PropertyKey::MarginLeft, d)]),
        (longhands(PropertyKey::BorderWidth, seq![a]) == seq![(PropertyKey::BorderTopWidth, a), (PropertyKey::BorderRightWidth, a), (PropertyKey::BorderBottomWidth, a), (PropertyKey::BorderLeftWidth, a)]),
        (longhands(PropertyKey::BorderWidth, seq![a, b]) == seq![(PropertyKey::BorderTopWidth, a), (PropertyKey::BorderRightWidth, b), (PropertyKey::BorderBottomWidth, a), (PropertyKey::BorderLeftWidth, b)]),
        (longhands(PropertyKey::BorderWidth, seq![a, b, c]) == seq![(PropertyKey::BorderTopWidth, a), (PropertyKey::BorderRightWidth, b), (PropertyKey::BorderBottomWidth, c), (PropertyKey::BorderLeftWidth, b)]),
        (longhands(PropertyKey::BorderWidth, seq![a, b, c, d]) == seq![(PropertyKey::BorderTopWidth, a), (PropertyKey::BorderRightWidth, b), (PropertyKey::BorderBottomWidth, c), (PropertyKey::BorderLeftWidth, d)]),
        (longhands(PropertyKey::BorderColor, seq![a]) == seq![(PropertyKey::BorderTopColor, a), (PropertyKey::BorderRightColor, a), (PropertyKey::BorderBottomColor, a), (PropertyKey::BorderLeftColor, a)]),
        (longhands(PropertyKey::BorderColor, seq![a, b]) == seq![(PropertyKey::BorderTopColor, a), (PropertyKey::BorderRightColor, b), (PropertyKey::BorderBottomColor, a), (PropertyKey::BorderLeftColor, b)]),
        (longhands(PropertyKey::BorderColor, seq![a, b, c]) == seq![(PropertyKey::BorderTopColor, a), (PropertyKey::BorderRightColor, b), (PropertyKey::BorderBottomColor, c), (PropertyKey::BorderLeftColor, b)]),
        (longhands(PropertyKey::BorderColor, seq![a, b, c, d]) == seq![(PropertyKey::BorderTopColor, a), (PropertyKey::BorderRightColor, b), (PropertyKey::BorderBottomColor, c), (PropertyKey::BorderLeftColor, d)]),
        (longhands(PropertyKey::BorderRadius, seq![a]) == seq![(PropertyKey::BorderTopLeftRadius, a), (PropertyKey::BorderTopRightRadius, a), (PropertyKey::BorderBottomRightRadius, a), (PropertyKey::BorderBottomLeftRadius, a)]),
        (longhands(PropertyKey::BorderRadius, seq![a, b]) == seq![(PropertyKey::BorderTopLeftRadius, a), (PropertyKey::BorderTopRightRadius, b), (PropertyKey::BorderBottomRightRadius, a), (PropertyKey::BorderBottomLeftRadius, b)]),
        (longhands(PropertyKey::BorderRadius, seq![a, b, c]) == seq![(PropertyKey::BorderTopLeftRadius, a), (PropertyKey::BorderTopRightRadius, b), (PropertyKey::BorderBottomRightRadius, c), (PropertyKey::BorderBottomLeftRadius, b)]),
        (longhands(PropertyKey::BorderRadius, seq![a, b, c, d]) == seq![(PropertyKey::BorderTopLeftRadius, a), (PropertyKey::BorderTopRightRadius, b), (PropertyKey::BorderBottomRightRadius, c), (PropertyKey::BorderBottomLeftRadius, d)]),
{
}

/// `transition: property duration [timing-function [delay]]`: the values set, in order,
/// the property, the duration, the timing function and the delay; the third value is
/// always the timing function.
pub proof fn law_transition_shorthand_sets_property_duration_timing_delay(p: ComputedValueV, d: ComputedValueV, f: ComputedValueV, w: ComputedValueV)
    ensures
        (longhands(PropertyKey::Transition, seq![p, d]) == seq![(PropertyKey::TransitionProperty, p), (PropertyKey::TransitionDuration, d)]),
        (longhands(PropertyKey::Transition, seq![p, d, f]) == seq![(PropertyKey::TransitionProperty, p), (PropertyKey::TransitionDuration, d), (PropertyKey::TransitionTimingFunction, f)]),
        (longhands(PropertyKey::Transition, seq![p, d, f, w]) == seq![(PropertyKey::TransitionProperty, p), (PropertyKey::TransitionDuration, d), (PropertyKey::TransitionTimingFunction, f), (PropertyKey::TransitionDelay, w)]),
{
}

/// `animation: duration [timing-function [delay-or-count]] name`: the first value is the
/// duration, the last the name, the second the timing function; a third of four values
/// is the delay where it is a time, else the iteration count.
pub proof fn law_animation_shorthand_sets_duration_timing_name(d: ComputedValueV, f: ComputedValueV, x: ComputedValueV, n: ComputedValueV)
    ensures
        (longhands(PropertyKey::Animation, seq![d, n]) == seq![(PropertyKey::AnimationDuration, d), (PropertyKey::AnimationName, n)]),
        (longhands(PropertyKey::Animation, seq![d, f, n]) == seq![(PropertyKey::AnimationDuration, d), (PropertyKey::AnimationName, n), (PropertyKey::AnimationTimingFunction, f)]),
        (x is Time ==> longhands(PropertyKey::Animation, seq![d, f, x, n]) == seq![(PropertyKey::AnimationDelay, x), (PropertyKey::AnimationDuration, d), (PropertyKey::AnimationName, n), (PropertyKey::AnimationTimingFunction, f)]),
        (!(x is Time) ==> longhands(PropertyKey::Animation, seq![d, f, x, n]) == seq![(PropertyKey::AnimationDuration, d), (PropertyKey::AnimationIterationCount, x), (PropertyKey::AnimationName, n), (PropertyKey::AnimationTimingFunction, f)]),
{
}

/// `border` and its sides take `width style color` and set the width and the color of
/// each side they name (the style is not kept); `overflow` and `background-position`
/// set x and y (one value for both); `background` sets the color; `inset` with one value
/// sets every side; `gap: column row` sets the row gap from the second value and the
/// column gap from the first (one value for both).
pub proof fn law_border_and_pair_shorthands(w: ComputedValueV, st: ComputedValueV, c: ComputedValueV)
    ensures
        (longhands(PropertyKey::Border, seq![w, st, c]) == seq![(PropertyKey::BorderTopWidth, w), (PropertyKey::BorderTopColor, c), (PropertyKey::BorderRightWidth, w), (PropertyKey::BorderRightColor, c), (PropertyKey::BorderBottomWidth, w), (PropertyKey::BorderBottomColor, c), (PropertyKey::BorderLeftWidth, w), (PropertyKey::BorderLeftColor, c)]),
        (longhands(PropertyKey::BorderTop, seq![w, st, c]) == seq![(PropertyKey::BorderTopWidth, w), (PropertyKey::BorderTopColor, c)]),
        (longhands(PropertyKey::BorderRight, seq![w, st, c]) == seq![(PropertyKey::BorderRightWidth, w), (PropertyKey::BorderRightColor, c)]),
        (longhands(PropertyKey::BorderBottom, seq![w, st, c]) == seq![(PropertyKey::BorderBottomWidth, w), (PropertyKey::BorderBottomColor, c)]),
        (longhands(PropertyKey::BorderLeft, seq![w, st, c]) == seq![(PropertyKey::BorderLeftWidth, w), (PropertyKey::BorderLeftColor, c)]),
        (longhands(PropertyKey::Overflow, seq![w]) == seq![(PropertyKey::OverflowX, w), (PropertyKey::OverflowY, w)]),
        (longhands(PropertyKey::Overflow, seq![w, c]) == seq![(PropertyKey::OverflowX, w), (PropertyKey::OverflowY, c)]),
        (longhands(PropertyKey::BackgroundPosition, seq![w]) == seq![(PropertyKey::BackgroundPositionX, w), (PropertyKey::BackgroundPositionY, w)]),
        (longhands(PropertyKey::BackgroundPosition, seq![w, c]) == seq![(PropertyKey::BackgroundPositionX, w), (PropertyKey::BackgroundPositionY, c)]),
        (longhands(PropertyKey::Background, seq![c]) == seq![(PropertyKey::BackgroundColor, c)]),
        (longhands(PropertyKey::Inset, seq![w]) == seq![(PropertyKey::Top, w), (PropertyKey::Right, w), (PropertyKey::Bottom, w), (PropertyKey::Left, w)]),
        (longhands(PropertyKey::Gap, seq![w]) == seq![(PropertyKey::RowGap, w), (PropertyKey::ColumnGap, w)]),
        (longhands(PropertyKey::Gap, seq![w, c]) == seq![(PropertyKey::RowGap, c), (PropertyKey::ColumnGap, w)]),
{
}


/// `inset` with four values sets top, right, bottom and left in turn.
pub proof fn law_inset_sets_each_side(a: ComputedValueV, b: ComputedValueV, c: ComputedValueV, d: ComputedValueV)
    ensures
        (longhands(PropertyKey::Inset, seq![a, b, c, d]) == seq![(PropertyKey::Top, a), (PropertyKey::Right, b), (PropertyKey::Bottom, c), (PropertyKey::Left, d)]),
{
}

/// The shorthand properties: those that set other properties.
pub open spec fn shorthand(key: PropertyKey) -> bool {
    match key {
        PropertyKey::Background | PropertyKey::BackgroundPosition | PropertyKey::Border
        | PropertyKey::BorderTop | PropertyKey::BorderRight | PropertyKey::BorderBottom
        | PropertyKey::BorderLeft | PropertyKey::BorderWidth | PropertyKey::BorderColor
        | PropertyKey::BorderRadius | PropertyKey::Overflow | PropertyKey::Inset | PropertyKey::Gap
        | PropertyKey::Padding | PropertyKey::Margin | PropertyKey::Transition
        | PropertyKey::Animation => true,
        _ => false,
    }
}

/// A property that is no shorthand sets itself, from exactly one value.
pub proof fn law_longhand_sets_itself(key: PropertyKey, vs: Seq<ComputedValueV>)
    requires
        !shorthand(key),
    ensures
        vs.len() == 1 ==> longhands(key, vs) == seq![(key, vs[0])],
        vs.len() != 1 ==> longhands(key, vs).len() == 0,
{
}

} // verus!
