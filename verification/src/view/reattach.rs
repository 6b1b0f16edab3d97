//! Showing a child again: where it goes back among the children that are shown.
use vstd::prelude::*;

verus! {

/// The first position from `k` on where `x` stands in `s`.
pub open spec fn position_of(s: Seq<usize>, x: usize, k: int) -> Option<int>
    decreases s.len() - k,
{
    if 0 <= k < s.len() {
        if s[k] == x {
            Some(k)
        } else {
            position_of(s, x, k + 1)
        }
    } else {
        None
    }
}

/// Scanning the shown children `current[..index]` from the right for the first one that
/// stands before `d` in the definition: the position just after it, or 0; `None` where a
/// shown child is not in the definition.
pub open spec fn scan_back(definition: Seq<usize>, current: Seq<usize>, d: int, index: int) -> Option<int>
    decreases index,
{
    if index <= 0 {
        Some(0)
    } else {
        match position_of(definition, current[index - 1], 0) {
            None => None,
            Some(p) => if p < d {
                Some(index)
            } else {
                scan_back(definition, current, d, index - 1)
            },
        }
    }
}

/// Where a hidden child `node` is inserted among the shown children `current` of its
/// parent, whose children in the document are `definition`: the scan starts at
/// `min(current.len(), d)`, `d` being the child's position in the definition; `None`
/// where the child, or a shown child that the scan meets, is not in the definition.
pub open spec fn spec_reattach_index(definition: Seq<usize>, current: Seq<usize>, node: usize) -> Option<int> {
    match position_of(definition, node, 0) {
        None => None,
        Some(d) => scan_back(definition, current, d, if current.len() < d { current.len() as int } else { d }),
    }
}

fn find_position(s: &Vec<usize>, x: usize) -> (r: Option<usize>)
    ensures
        match position_of(s@, x, 0) {
            Some(p) => r matches Some(k) && k as int == p,
            None => r is None,
        },
{
    let mut k: usize = 0;
    while k < s.len()
        invariant
            k <= s@.len(),
            position_of(s@, x, 0) == position_of(s@, x, k as int),
        decreases s@.len() - k,
    {
        if s[k] == x {
            return Some(k);
        }
        k = k + 1;
    }
    None
}

/// The position where the hidden child `node` goes back among the shown children
/// `current`, see [`spec_reattach_index`].
pub fn reattach_index(definition: &Vec<usize>, current: &Vec<usize>, node: usize) -> (r: Option<usize>)
    ensures
        match spec_reattach_index(definition@, current@, node) {
            Some(i) => r == Some(i as usize),
            None => r is None,
        },
{
    let d = match find_position(definition, node) {
        Some(d) => d,
        None => return None,
    };
    let mut index = if current.len() < d { current.len() } else { d };
    let ghost start = index as int;
    while index > 0
        invariant
            index <= current@.len(),
            position_of(definition@, node, 0) == Some(d as int),
            spec_reattach_index(definition@, current@, node) == scan_back(definition@, current@, d as int, index as int),
        decreases index,
    {
        match find_position(definition, current[index - 1]) {
            None => return None,
            Some(p) => {
                if p < d {
                    return Some(index);
                }
            },
        }
        index = index - 1;
    }
    Some(0)
}

/// The shown children stand in the order of the definition: each one is in it, at a
/// position after the one before.
pub open spec fn in_document_order(definition: Seq<usize>, current: Seq<usize>) -> bool {
    forall|a: int, b: int|
        #![trigger current[a], current[b]]
        0 <= a < b < current.len() ==> (position_of(definition, current[a], 0) matches Some(pa)
            && position_of(definition, current[b], 0) matches Some(pb) && pa < pb)
}

proof fn lemma_position_found(s: Seq<usize>, x: usize, k: int)
    requires
        0 <= k,
    ensures
        position_of(s, x, k) matches Some(p) ==> k <= p < s.len() && s[p] == x && forall|j: int| k <= j < p ==> s[j] != x,
        position_of(s, x, k) is None ==> forall|j: int| k <= j < s.len() ==> s[j] != x,
    decreases s.len() - k,
{
    if 0 <= k < s.len() && s[k] != x {
        lemma_position_found(s, x, k + 1);
    }
}

/// In document order, the shown child at `k` stands at `k` or later in the definition.
proof fn lemma_order_bound(definition: Seq<usize>, current: Seq<usize>, k: int)
    requires
        in_document_order(definition, current),
        0 <= k < current.len(),
        position_of(definition, current[k], 0) is Some,
    ensures
        position_of(definition, current[k], 0).unwrap() >= k,
    decreases k,
{
    lemma_position_found(definition, current[k], 0);
    if k > 0 {
        let x = current[k - 1];
        let y = current[k];
        assert(position_of(definition, current[k - 1], 0) matches Some(pa) && position_of(definition, current[k], 0) matches Some(pb) && pa < pb);
        lemma_order_bound(definition, current, k - 1);
    }
}

proof fn lemma_scan_back(definition: Seq<usize>, current: Seq<usize>, d: int, index: int)
    requires
        in_document_order(definition, current),
        0 <= index <= current.len(),
        forall|j: int| 0 <= j < current.len() ==> position_of(definition, #[trigger] current[j], 0) is Some,
        forall|j: int| index <= j < current.len() ==> position_of(definition, #[trigger] current[j], 0).unwrap() > d,
        forall|j: int| 0 <= j < current.len() ==> position_of(definition, #[trigger] current[j], 0).unwrap() != d,
    ensures
        scan_back(definition, current, d, index) matches Some(r) && 0 <= r <= current.len()
            && (forall|j: int| 0 <= j < r ==> position_of(definition, #[trigger] current[j], 0).unwrap() < d)
            && (forall|j: int| r <= j < current.len() ==> position_of(definition, #[trigger] current[j], 0).unwrap() > d),
    decreases index,
{
    if index > 0 {
        let p = position_of(definition, current[index - 1], 0).unwrap();
        if p < d {
            assert forall|j: int| 0 <= j < index implies position_of(definition, #[trigger] current[j], 0).unwrap() < d by {
                if j < index - 1 {
                    assert(0 <= j < index - 1 < current.len());
                }
            }
        } else {
            lemma_scan_back(definition, current, d, index - 1);
        }
    }
}

/// A child shown again returns to its place in the document: when the shown children
/// stand in the order of the definition and the child is not among them, every shown
/// child before the insertion position stands before it in the definition, and every
/// one from that position on stands after it.
pub proof fn law_reshown_child_returns_to_its_place(definition: Seq<usize>, current: Seq<usize>, node: usize)
    requires
        in_document_order(definition, current),
        forall|j: int| 0 <= j < current.len() ==> position_of(definition, #[trigger] current[j], 0) is Some,
        forall|j: int| 0 <= j < current.len() ==> #[trigger] current[j] != node,
        position_of(definition, node, 0) is Some,
    ensures
        spec_reattach_index(definition, current, node) matches Some(r) && 0 <= r <= current.len()
            && (forall|j: int| 0 <= j < r ==> position_of(definition, #[trigger] current[j], 0).unwrap() < position_of(definition, node, 0).unwrap())
            && (forall|j: int| r <= j < current.len() ==> position_of(definition, #[trigger] current[j], 0).unwrap() > position_of(definition, node, 0).unwrap()),
{
    let d = position_of(definition, node, 0).unwrap();
    lemma_position_found(definition, node, 0);
    let start = if current.len() < d { current.len() as int } else { d };
    assert forall|j: int| 0 <= j < current.len() implies position_of(definition, #[trigger] current[j], 0).unwrap() != d by {
        lemma_position_found(definition, current[j], 0);
    }
    assert forall|j: int| start <= j < current.len() implies position_of(definition, #[trigger] current[j], 0).unwrap() > d by {
        lemma_order_bound(definition, current, j);
    }
    lemma_scan_back(definition, current, d, start);
}

/// `cur` without the first `x` in it; `None` where `x` is not in it.
pub open spec fn without_first(cur: Seq<usize>, x: usize) -> Option<Seq<usize>> {
    match position_of(cur, x, 0) {
        Some(p) => Some(cur.remove(p)),
        None => None,
    }
}

/// The repeated children `definition[k..cursor]` that were not shown appended to `cur`.
pub open spec fn shown_added(definition: Seq<usize>, visible: Seq<usize>, k: int, cursor: int, cur: Seq<usize>) -> Seq<usize>
    decreases cursor - k,
{
    if k >= cursor {
        cur
    } else {
        shown_added(definition, visible, k + 1, cursor, if visible.contains(definition[k]) { cur } else { cur.push(definition[k]) })
    }
}

/// The repeated children `definition[k..end]` that were shown taken out of `cur`; `None`
/// where one of them is no longer there.
pub open spec fn hidden_removed(definition: Seq<usize>, visible: Seq<usize>, k: int, end: int, cur: Seq<usize>) -> Option<Seq<usize>>
    decreases end - k,
{
    if k >= end {
        Some(cur)
    } else if visible.contains(definition[k]) {
        match without_first(cur, definition[k]) {
            Some(next) => hidden_removed(definition, visible, k + 1, end, next),
            None => None,
        }
    } else {
        hidden_removed(definition, visible, k + 1, end, cur)
    }
}

/// The children shown after a repetition shows the items `definition[start..cursor]` and
/// hides `definition[cursor..end]`, `visible` being the children shown before: each item
/// to show that was not shown is appended, then each item to hide that was shown is taken
/// out; `None` where one of them is no longer there to take out.
pub open spec fn spec_repeat_shown(definition: Seq<usize>, visible: Seq<usize>, start: int, cursor: int, end: int) -> Option<Seq<usize>> {
    hidden_removed(definition, visible, cursor, end, shown_added(definition, visible, start, cursor, visible))
}

fn holds_node(v: &Vec<usize>, x: usize) -> (r: bool)
    ensures
        r == v@.contains(x),
{
    match find_position(v, x) {
        Some(k) => {
            proof {
                lemma_position_found(v@, x, 0);
                assert(v@[k as int] == x);
                assert(v@.contains(x));
            }
            true
        },
        None => {
            proof {
                lemma_position_found(v@, x, 0);
                assert(!v@.contains(x));
            }
            false
        },
    }
}

/// The children shown after a repetition, see [`spec_repeat_shown`].
pub fn repeat_shown(definition: &Vec<usize>, visible: &Vec<usize>, start: usize, cursor: usize, end: usize) -> (r: Option<Vec<usize>>)
    requires
        start <= cursor <= end <= definition@.len(),
    ensures
        match spec_repeat_shown(definition@, visible@, start as int, cursor as int, end as int) {
            Some(c) => r matches Some(v) && v@ == c,
            None => r is None,
        },
{
    let mut cur: Vec<usize> = Vec::new();
    let mut i: usize = 0;
    while i < visible.len()
        invariant
            i <= visible@.len(),
            cur@ == visible@.subrange(0, i as int),
        decreases visible@.len() - i,
    {
        cur.push(visible[i]);
        i = i + 1;
        proof {
            assert(cur@ =~= visible@.subrange(0, i as int));
        }
    }
    proof {
        assert(visible@.subrange(0, visible@.len() as int) =~= visible@);
    }
    let ghost added = shown_added(definition@, visible@, start as int, cursor as int, visible@);
    let mut k = start;
    while k < cursor
        invariant
            start <= k <= cursor <= end <= definition@.len(),
            added == shown_added(definition@, visible@, k as int, cursor as int, cur@),
        decreases cursor - k,
    {
        if !holds_node(visible, definition[k]) {
            cur.push(definition[k]);
        }
        k = k + 1;
    }
    let ghost total = hidden_removed(definition@, visible@, cursor as int, end as int, cur@);
    assert(total == spec_repeat_shown(definition@, visible@, start as int, cursor as int, end as int));
    let mut k = cursor;
    while k < end
        invariant
            cursor <= k <= end <= definition@.len(),
            total == spec_repeat_shown(definition@, visible@, start as int, cursor as int, end as int),
            total == hidden_removed(definition@, visible@, k as int, end as int, cur@),
        decreases end - k,
    {
        let x = definition[k];
        if holds_node(visible, x) {
            proof {
                lemma_position_found(cur@, x, 0);
            }
            match find_position(&cur, x) {
                Some(p) => {
                    cur.remove(p);
                },
                None => {
                    proof {
                        assert(without_first(cur@, x) is None);
                        assert(hidden_removed(definition@, visible@, k as int, end as int, cur@) is None);
                    }
                    return None;
                },
            }
        }
        k = k + 1;
    }
    Some(cur)
}

} // verus!
