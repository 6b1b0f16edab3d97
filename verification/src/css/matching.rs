//! Matching selectors against the elements of a tree.
use vstd::prelude::*;
use crate::css::{Complex, Matcher, Simple, SimpleV, Style};
use crate::element::ElementState;
use crate::html::{local_value, locals_view};
use crate::lexer::{has_at, matches_at, find_at, find_word, lemma_find_word, views};
use crate::text::{chars_of, str_eq};

verus! {

broadcast use lemma_find_word;

// ---------------------------------------------------------------------------------------
// Words and attribute values

/// `word` stands at `i` in `s` as one of the words that single spaces separate.
pub open spec fn word_at(s: Seq<char>, word: Seq<char>, i: int) -> bool {
    &&& has_at(s, i, word)
    &&& (i == 0 || s[i - 1] == ' ')
    &&& (i + word.len() == s.len() || s[i + word.len()] == ' ')
}

/// `word` is one of the pieces of `s` split at each space (`s.split(" ")`).
pub open spec fn has_word(s: Seq<char>, word: Seq<char>) -> bool {
    !word.contains(' ') && exists|i: int| word_at(s, word, i)
}

fn has_word_at(s: &[char], word: &[char], i: usize) -> (r: bool)
    requires
        i <= s@.len(),
    ensures
        r == word_at(s@, word@, i as int),
{
    if !matches_at(s, i, word) {
        return false;
    }
    let before = i == 0 || s[i - 1] == ' ';
    let e = i + word.len();
    let after = e == s.len() || s[e] == ' ';
    before && after
}

/// Whether `ident` is one of the classes of a `class` attribute.
pub fn match_class(classes: &str, ident: &str) -> (r: bool)
    ensures
        r == has_word(classes@, ident@),
{
    let s = chars_of(classes);
    let w = chars_of(ident);
    let mut k: usize = 0;
    while k < w.len()
        invariant
            w@ == ident@,
            k <= w@.len(),
            forall|j: int| 0 <= j < k ==> w@[j] != ' ',
        decreases w@.len() - k,
    {
        if w[k] == ' ' {
            assert(w@.contains(' '));
            return false;
        }
        k = k + 1;
    }
    assert(!w@.contains(' '));
    let mut i: usize = 0;
    while i < s.len()
        invariant
            s@ == classes@,
            w@ == ident@,
            !w@.contains(' '),
            i <= s@.len(),
            forall|j: int| 0 <= j < i ==> !word_at(s@, w@, j),
        decreases s@.len() - i,
    {
        if has_word_at(s.as_slice(), w.as_slice(), i) {
            return true;
        }
        i = i + 1;
    }
    if has_word_at(s.as_slice(), w.as_slice(), i) {
        return true;
    }
    assert forall|j: int| !word_at(s@, w@, j) by {
        if j < 0 || j > s@.len() {
            assert(!has_at(s@, j, w@));
        }
    }
    false
}

/// `value` stands somewhere in `s`.
pub open spec fn contains_word(s: Seq<char>, value: Seq<char>) -> bool {
    exists|i: int| has_at(s, i, value)
}

proof fn lemma_find_none(s: Seq<char>, p: int, w: Seq<char>)
    requires
        p >= 0,
        find_word(s, p, w) is None,
    ensures
        forall|i: int| p <= i ==> !has_at(s, i, w),
    decreases s.len() + 1 - p,
{
    if p + w.len() <= s.len() {
        lemma_find_none(s, p + 1, w);
    }
}

/// Whether an attribute's value satisfies an attribute selector's comparison.
pub open spec fn attribute_matches(attr: Seq<char>, matcher: Matcher, value: Seq<char>) -> bool {
    match matcher {
        Matcher::Exist => true,
        Matcher::Equal => attr == value,
        Matcher::Include => has_word(attr, value),
        Matcher::DashMatch => attr == value || attr == seq!['-'] + value,
        Matcher::Prefix => has_at(attr, 0, value),
        Matcher::Suffix => has_at(attr, attr.len() - value.len(), value),
        Matcher::Substring => contains_word(attr, value),
    }
}

/// Compares an attribute's value as an attribute selector says, see [`attribute_matches`].
pub fn match_attribute(attr: &str, matcher: Matcher, value: &str) -> (r: bool)
    ensures
        r == attribute_matches(attr@, matcher, value@),
{
    let a = chars_of(attr);
    let v = chars_of(value);
    match matcher {
        Matcher::Exist => true,
        Matcher::Equal => str_eq(attr, value),
        Matcher::Include => match_class(attr, value),
        Matcher::DashMatch => {
            if str_eq(attr, value) {
                true
            } else if a.len() > 0 && a.len() - 1 == v.len() && a[0] == '-' {
                let r = matches_at(a.as_slice(), 1, v.as_slice());
                proof {
                    if r {
                        assert(a@ =~= seq!['-'] + v@);
                    } else {
                        if a@ == seq!['-'] + v@ {
                            assert(a@.subrange(1, 1 + v@.len() as int) =~= v@);
                        }
                    }
                }
                r
            } else {
                assert(a@ != seq!['-'] + v@) by {
                    if a@.len() == v@.len() + 1 {
                        assert(a@[0] != (seq!['-'] + v@)[0]);
                    }
                }
                false
            }
        },
        Matcher::Prefix => matches_at(a.as_slice(), 0, v.as_slice()),
        Matcher::Suffix => {
            if v.len() > a.len() {
                false
            } else {
                matches_at(a.as_slice(), a.len() - v.len(), v.as_slice())
            }
        },
        Matcher::Substring => {
            match find_at(a.as_slice(), 0, v.as_slice()) {
                Some(k) => true,
                None => {
                    proof {
                        lemma_find_none(a@, 0, v@);
                        assert forall|i: int| !has_at(a@, i, v@) by {
                            if i < 0 {
                            }
                        }
                    }
                    false
                },
            }
        },
    }
}

// ---------------------------------------------------------------------------------------
// Pseudo classes

pub open spec fn state_pseudo_class(state: ElementState, class: Seq<char>) -> bool {
    if class == seq!['h', 'o', 'v', 'e', 'r'] {
        state.hover
    } else if class == seq!['a', 'c', 't', 'i', 'v', 'e'] {
        state.active
    } else if class == seq!['c', 'h', 'e', 'c', 'k', 'e', 'd'] {
        state.checked
    } else if class == seq!['f', 'o', 'c', 'u', 's'] {
        state.focus
    } else {
        false
    }
}

/// Tells whether an element is in a pseudo class; implemented by whoever matches styles.
pub trait PseudoClassMatcher {
    spec fn has_pseudo(&self, element: NodeV, class: Seq<char>) -> bool;

    fn has_pseudo_class(&self, element: &Node, class: &str) -> (r: bool)
        ensures
            r == self.has_pseudo(element@, class@);
}

/// Pseudo classes from the interaction state: `:hover`, `:active`, `:checked`, `:focus`;
/// every other pseudo class (`:blank` among them) never holds.
pub struct StateMatcher;

impl PseudoClassMatcher for StateMatcher {
    open spec fn has_pseudo(&self, element: NodeV, class: Seq<char>) -> bool {
        state_pseudo_class(element.state, class)
    }

    fn has_pseudo_class(&self, element: &Node, class: &str) -> (r: bool) {
        let k = chars_of(class);
        let hover = ['h', 'o', 'v', 'e', 'r'];
        let active = ['a', 'c', 't', 'i', 'v', 'e'];
        let checked = ['c', 'h', 'e', 'c', 'k', 'e', 'd'];
        let focus = ['f', 'o', 'c', 'u', 's'];
        assert(hover@ =~= seq!['h', 'o', 'v', 'e', 'r']);
        assert(active@ =~= seq!['a', 'c', 't', 'i', 'v', 'e']);
        assert(checked@ =~= seq!['c', 'h', 'e', 'c', 'k', 'e', 'd']);
        assert(focus@ =~= seq!['f', 'o', 'c', 'u', 's']);
        if same_chars(&k, &hover) {
            element.state.hover
        } else if same_chars(&k, &active) {
            element.state.active
        } else if same_chars(&k, &checked) {
            element.state.checked
        } else if same_chars(&k, &focus) {
            element.state.focus
        } else {
            false
        }
    }
}

/// Every pseudo class holds: matches a style as if its pseudo classes were not there.
pub struct AnyPseudoClass;

impl PseudoClassMatcher for AnyPseudoClass {
    open spec fn has_pseudo(&self, element: NodeV, class: Seq<char>) -> bool {
        true
    }

    fn has_pseudo_class(&self, element: &Node, class: &str) -> (r: bool) {
        true
    }
}

fn same_chars(k: &Vec<char>, word: &[char]) -> (r: bool)
    ensures
        r == (k@ == word@),
{
    let r = crate::lexer::slice_is(k.as_slice(), 0, k.len(), word);
    assert(k@.subrange(0, k@.len() as int) =~= k@);
    r
}

// ---------------------------------------------------------------------------------------
// Trees

/// An element as selectors see it: its tag, its attributes, its interaction state, and
/// its place in the tree.
pub struct Node {
    pub tag: String,
    pub attrs: Vec<(String, String)>,
    pub state: ElementState,
    pub parent: Option<usize>,
    pub children: Vec<usize>,
}

pub struct NodeV {
    pub tag: Seq<char>,
    pub attrs: Seq<(Seq<char>, Seq<char>)>,
    pub state: ElementState,
    pub parent: Option<usize>,
    pub children: Seq<usize>,
}

impl View for Node {
    type V = NodeV;

    open spec fn view(&self) -> NodeV {
        NodeV {
            tag: self.tag@,
            attrs: locals_view(self.attrs@),
            state: self.state,
            parent: self.parent,
            children: self.children@,
        }
    }
}

/// The elements of a view, each found by its index.
pub struct Tree {
    pub nodes: Vec<Node>,
}

/// Every parent and child index names a node of the tree.
pub open spec fn tree_well_formed(nodes: Seq<NodeV>) -> bool {
    forall|n: int| 0 <= n < nodes.len() ==> {
        &&& (#[trigger] nodes[n]).parent matches Some(p) ==> p < nodes.len()
        &&& forall|c: int| 0 <= c < nodes[n].children.len() ==> nodes[n].children[c] < nodes.len()
    }
}

impl View for Tree {
    type V = Seq<NodeV>;

    open spec fn view(&self) -> Seq<NodeV> {
        views(self.nodes@)
    }
}

/// The value of an attribute of an element, see [`local_value`].
pub open spec fn attr_of(node: NodeV, name: Seq<char>) -> Option<Seq<char>> {
    local_value(node.attrs, name, 0)
}

pub open spec fn id_name() -> Seq<char> {
    seq!['i', 'd']
}

pub open spec fn class_name() -> Seq<char> {
    seq!['c', 'l', 'a', 's', 's']
}

pub open spec fn root_tag() -> Seq<char> {
    seq![':', 'r', 'o', 'o', 't']
}

/// Whether a simple selector matches an element.
pub open spec fn simple_matches<M: PseudoClassMatcher>(node: NodeV, s: SimpleV, m: M) -> bool {
    match s {
        SimpleV::All => true,
        SimpleV::Type(name) => node.tag == name,
        SimpleV::Id(ident) => attr_of(node, id_name()) == Some(ident),
        SimpleV::Class(ident) => match attr_of(node, class_name()) {
            Some(classes) => has_word(classes, ident),
            None => false,
        },
        SimpleV::Attribute(name, matcher, value) => match attr_of(node, name) {
            Some(attr) => attribute_matches(attr, matcher, value),
            None => false,
        },
        SimpleV::Root => node.tag == root_tag(),
        SimpleV::PseudoClass(name) => m.has_pseudo(node, name),
        _ => false,
    }
}

/// The first position from `k` on where `target` stands among `children`.
pub open spec fn position_from(children: Seq<usize>, target: usize, k: int) -> Option<int>
    decreases children.len() - k,
{
    if 0 <= k < children.len() {
        if children[k] == target {
            Some(k)
        } else {
            position_from(children, target, k + 1)
        }
    } else {
        None
    }
}

/// The element that a combinator leads to from `target`: its parent for `>`, the sibling
/// just before it for `+`; the other combinators lead nowhere.
pub open spec fn next_target(nodes: Seq<NodeV>, c: char, target: usize) -> Option<usize> {
    let parent = nodes[target as int].parent;
    if c == '>' {
        parent
    } else if c == '+' {
        match parent {
            Some(p) => match position_from(nodes[p as int].children, target, 1) {
                Some(k) => Some(nodes[p as int].children[k - 1]),
                None => None,
            },
            None => None,
        }
    } else {
        None
    }
}

/// Whether the first `k` components of a complex selector match from `target`, read from
/// right to left.
pub open spec fn complex_matches<M: PseudoClassMatcher>(
    nodes: Seq<NodeV>,
    sels: Seq<SimpleV>,
    k: int,
    target: usize,
    m: M,
) -> bool
    decreases k,
{
    if k <= 0 {
        true
    } else {
        match sels[k - 1] {
            SimpleV::Combinator(c) => match next_target(nodes, c, target) {
                Some(t) => complex_matches(nodes, sels, k - 1, t, m),
                None => false,
            },
            s => simple_matches(nodes[target as int], s, m) && complex_matches(nodes, sels, k - 1, target, m),
        }
    }
}

/// Whether a style applies to the element `node`: one of its selectors matches.
pub open spec fn style_matches<M: PseudoClassMatcher>(nodes: Seq<NodeV>, selectors: Seq<Seq<SimpleV>>, node: usize, m: M) -> bool {
    exists|i: int| 0 <= i < selectors.len() && complex_matches(nodes, selectors[i], selectors[i].len() as int, node, m)
}

fn attr<'a>(node: &'a Node, name: &str) -> (r: Option<&'a String>)
    ensures
        match attr_of(node@, name@) {
            Some(v) => r matches Some(x) && x@ == v,
            None => r is None,
        },
{
    let mut k: usize = 0;
    while k < node.attrs.len()
        invariant
            k <= node.attrs@.len(),
            attr_of(node@, name@) == local_value(locals_view(node.attrs@), name@, k as int),
        decreases node.attrs@.len() - k,
    {
        if str_eq(node.attrs[k].0.as_str(), name) {
            return Some(&node.attrs[k].1);
        }
        k = k + 1;
    }
    None
}

fn match_simple_selector<M: PseudoClassMatcher>(component: &Simple, node: &Node, matcher: &M) -> (r: bool)
    ensures
        r == simple_matches(node@, component@, *matcher),
{
    match component {
        Simple::All => true,
        Simple::Type(name) => str_eq(node.tag.as_str(), name.as_str()),
        Simple::Id(ident) => {
            let id = "id";
            proof {
                reveal_strlit("id");
                assert(id@ =~= id_name());
            }
            match attr(node, id) {
                Some(v) => str_eq(v.as_str(), ident.as_str()),
                None => false,
            }
        },
        Simple::Class(ident) => {
            let class = "class";
            proof {
                reveal_strlit("class");
                assert(class@ =~= class_name());
            }
            match attr(node, class) {
                Some(v) => match_class(v.as_str(), ident.as_str()),
                None => false,
            }
        },
        Simple::Attribute(name, op, value) => match attr(node, name.as_str()) {
            Some(v) => match_attribute(v.as_str(), *op, value.as_str()),
            None => false,
        },
        Simple::Root => {
            let root = ":root";
            proof {
                reveal_strlit(":root");
                assert(root@ =~= root_tag());
            }
            str_eq(node.tag.as_str(), root)
        },
        Simple::PseudoClass(name) => matcher.has_pseudo_class(node, name.as_str()),
        _ => false,
    }
}

fn find_next_target(combinator: char, target: usize, tree: &Tree) -> (r: Option<usize>)
    requires
        tree_well_formed(tree@),
        target < tree@.len(),
    ensures
        r == next_target(tree@, combinator, target),
        r matches Some(t) ==> t < tree@.len(),
{
    let parent = tree.nodes[target].parent;
    assert(tree@[target as int] == tree.nodes@[target as int]@);
    if combinator == '>' {
        parent
    } else if combinator == '+' {
        match parent {
            Some(p) => {
                assert(p < tree@.len());
                let children = &tree.nodes[p].children;
                assert(tree@[p as int].children == children@);
                let mut k: usize = 1;
                while k < children.len()
                    invariant
                        1 <= k,
                        tree_well_formed(tree@),
                        p < tree@.len(),
                        target < tree@.len(),
                        combinator == '+',
                        tree@[target as int].parent == Some(p),
                        children@ == tree@[p as int].children,
                        position_from(children@, target, 1) == position_from(children@, target, k as int),
                    decreases children@.len() - k,
                {
                    if children[k] == target {
                        assert(children@[k - 1] < tree@.len());
                        return Some(children[k - 1]);
                    }
                    k = k + 1;
                }
                None
            },
            None => None,
        }
    } else {
        None
    }
}

fn match_complex_selector<M: PseudoClassMatcher>(selector: &Complex, node: usize, tree: &Tree, matcher: &M) -> (r: bool)
    requires
        tree_well_formed(tree@),
        node < tree@.len(),
    ensures
        r == complex_matches(tree@, selector@, selector@.len() as int, node, *matcher),
{
    let sels = &selector.selectors;
    let mut k = sels.len();
    let mut target = node;
    while k > 0
        invariant
            tree_well_formed(tree@),
            target < tree@.len(),
            k <= sels@.len(),
            selector@ == views(sels@),
            complex_matches(tree@, selector@, selector@.len() as int, node, *matcher)
                == complex_matches(tree@, selector@, k as int, target, *matcher),
        decreases k,
    {
        let component = &sels[k - 1];
        assert(selector@[k - 1] == component@);
        match component.as_combinator() {
            None => {
                assert(tree@[target as int] == tree.nodes@[target as int]@);
                if !match_simple_selector(component, &tree.nodes[target], matcher) {
                    return false;
                }
            },
            Some(c) => {
                match find_next_target(c, target, tree) {
                    Some(t) => {
                        target = t;
                    },
                    None => {
                        return false;
                    },
                }
            },
        }
        k = k - 1;
    }
    true
}

/// Whether a style applies to the element `node` of a tree, see [`style_matches`].
pub fn match_style<M: PseudoClassMatcher>(style: &Style, node: usize, tree: &Tree, matcher: &M) -> (r: bool)
    requires
        tree_well_formed(tree@),
        node < tree@.len(),
    ensures
        r == style_matches(tree@, style@.selectors, node, *matcher),
{
    let mut i: usize = 0;
    while i < style.selectors.len()
        invariant
            tree_well_formed(tree@),
            node < tree@.len(),
            i <= style.selectors@.len(),
            style@.selectors == views(style.selectors@),
            forall|j: int| 0 <= j < i ==> !complex_matches(tree@, style@.selectors[j], style@.selectors[j].len() as int, node, *matcher),
        decreases style.selectors@.len() - i,
    {
        assert(style@.selectors[i as int] == style.selectors@[i as int]@);
        if match_complex_selector(&style.selectors[i], node, tree, matcher) {
            return true;
        }
        i = i + 1;
    }
    false
}

} // verus!

verus! {

proof fn lemma_complex_any<M: PseudoClassMatcher>(nodes: Seq<NodeV>, sels: Seq<SimpleV>, k: int, target: usize, m: M)
    ensures
        complex_matches(nodes, sels, k, target, m) ==> complex_matches(nodes, sels, k, target, AnyPseudoClass),
    decreases k,
{
    if k > 0 {
        match sels[k - 1] {
            SimpleV::Combinator(c) => {
                if let Some(t) = next_target(nodes, c, target) {
                    lemma_complex_any(nodes, sels, k - 1, t, m);
                }
            },
            _ => {
                lemma_complex_any(nodes, sels, k - 1, target, m);
            },
        }
    }
}

/// Pseudo classes only narrow a match: a style that applies to an element under any
/// pseudo class matcher also applies when every pseudo class is taken to hold. The view
/// relies on this to set aside, once and for all, the styles that can never apply.
pub proof fn law_pseudo_classes_only_narrow<M: PseudoClassMatcher>(
    nodes: Seq<NodeV>,
    selectors: Seq<Seq<SimpleV>>,
    node: usize,
    m: M,
)
    ensures
        style_matches(nodes, selectors, node, m) ==> style_matches(nodes, selectors, node, AnyPseudoClass),
{
    if style_matches(nodes, selectors, node, m) {
        let i = choose|i: int| 0 <= i < selectors.len() && complex_matches(nodes, selectors[i], selectors[i].len() as int, node, m);
        lemma_complex_any(nodes, selectors[i], selectors[i].len() as int, node, m);
    }
}


/// With the interaction state as matcher, `:hover`, `:active`, `:checked` and `:focus`
/// hold of an element exactly when its state has that flag, each flag for its own class
/// whatever the others are; no other pseudo class holds.
pub proof fn law_state_pseudo_classes_read_their_own_flag(element: NodeV, class: Seq<char>)
    ensures
        StateMatcher.has_pseudo(element, seq!['h', 'o', 'v', 'e', 'r']) == element.state.hover,
        StateMatcher.has_pseudo(element, seq!['a', 'c', 't', 'i', 'v', 'e']) == element.state.active,
        StateMatcher.has_pseudo(element, seq!['c', 'h', 'e', 'c', 'k', 'e', 'd']) == element.state.checked,
        StateMatcher.has_pseudo(element, seq!['f', 'o', 'c', 'u', 's']) == element.state.focus,
        class != seq!['h', 'o', 'v', 'e', 'r'] && class != seq!['a', 'c', 't', 'i', 'v', 'e']
            && class != seq!['c', 'h', 'e', 'c', 'k', 'e', 'd'] && class != seq!['f', 'o', 'c', 'u', 's']
            ==> !StateMatcher.has_pseudo(element, class),
{
    assert(seq!['h', 'o', 'v', 'e', 'r'] != seq!['a', 'c', 't', 'i', 'v', 'e']);
    assert(seq!['f', 'o', 'c', 'u', 's'] != seq!['h', 'o', 'v', 'e', 'r']) by {
        assert(seq!['f', 'o', 'c', 'u', 's'][0] != seq!['h', 'o', 'v', 'e', 'r'][0]);
    }
    assert(seq!['f', 'o', 'c', 'u', 's'] != seq!['a', 'c', 't', 'i', 'v', 'e']);
    assert(seq!['f', 'o', 'c', 'u', 's'] != seq!['c', 'h', 'e', 'c', 'k', 'e', 'd']);
    assert(seq!['c', 'h', 'e', 'c', 'k', 'e', 'd'] != seq!['h', 'o', 'v', 'e', 'r']);
    assert(seq!['c', 'h', 'e', 'c', 'k', 'e', 'd'] != seq!['a', 'c', 't', 'i', 'v', 'e']);
}


/// What each attribute matcher asks of the attribute's value `a` for the selector's value
/// `v`: `[a]` that it is there; `[a=v]` that it is `v`; `[a|=v]` that it is `v` or `-v`;
/// `[a^=v]` that it starts with `v`, `[a$=v]` that it ends with it, `[a*=v]` that it holds
/// it anywhere; `[a~=v]` that `v` is one of its space-separated words.
pub proof fn law_attribute_matchers(a: Seq<char>, v: Seq<char>, x: Seq<char>, y: Seq<char>)
    ensures
        attribute_matches(a, Matcher::Exist, v),
        attribute_matches(a, Matcher::Equal, v) == (a == v),
        attribute_matches(a, Matcher::DashMatch, v) == (a == v || a == seq!['-'] + v),
        attribute_matches(v + x, Matcher::Prefix, v),
        attribute_matches(a, Matcher::Prefix, v) ==> v.len() <= a.len() && a.subrange(0, v.len() as int) == v,
        attribute_matches(x + v, Matcher::Suffix, v),
        attribute_matches(a, Matcher::Suffix, v) ==> v.len() <= a.len() && a.subrange(a.len() - v.len(), a.len() as int) == v,
        attribute_matches(x + v + y, Matcher::Substring, v),
        attribute_matches(a, Matcher::Substring, v) ==> v.len() <= a.len(),
        !v.contains(' ') ==> attribute_matches(v, Matcher::Include, v),
        !v.contains(' ') ==> attribute_matches(x + seq![' '] + v + seq![' '] + y, Matcher::Include, v),
        attribute_matches(a, Matcher::Include, v) ==> !v.contains(' '),
{
    assert((v + x).subrange(0, v.len() as int) =~= v);
    assert((x + v).subrange(x.len() as int, (x + v).len() as int) =~= v);
    assert((x + v + y).subrange(x.len() as int, x.len() + v.len() as int) =~= v);
    assert(has_at(x + v + y, x.len() as int, v));
    if !v.contains(' ') {
        assert(v.subrange(0, v.len() as int) =~= v);
        assert(word_at(v, v, 0));
        let w = x + seq![' '] + v + seq![' '] + y;
        let i: int = x.len() as int + 1;
        assert(w.subrange(i, i + v.len()) =~= v);
        assert(w[i - 1] == ' ');
        assert(w[i + v.len()] == ' ');
        assert(word_at(w, v, i));
    }
}

} // verus!
