use bumaga::css::matching::{
    match_attribute, match_class, match_style, AnyPseudoClass, Node, StateMatcher, Tree,
};
use bumaga::css::reader::read_css;
use bumaga::css::Matcher;
use bumaga::element::ElementState;

fn node(tag: &str, attrs: &[(&str, &str)], parent: Option<usize>, children: Vec<usize>) -> Node {
    Node {
        tag: tag.to_string(),
        attrs: attrs.iter().map(|(k, v)| (k.to_string(), v.to_string())).collect(),
        state: ElementState::new(),
        parent,
        children,
    }
}

fn tree() -> Tree {
    // 0: div.panel > [1: a#link.x.y[hidden], 2: span]
    Tree {
        nodes: vec![
            node("div", &[("class", "panel")], None, vec![1, 2]),
            node("a", &[("id", "link"), ("class", "x y"), ("hidden", "")], Some(0), vec![]),
            node("span", &[("data-kind", "en-us")], Some(0), vec![]),
        ],
    }
}

fn matches(css: &str, n: usize) -> bool {
    let css = read_css(css).expect("valid");
    match_style(&css.styles[0], n, &tree(), &StateMatcher)
}

#[test]
fn test_match_class() {
    assert!(match_class("a b c", "b"));
    assert!(match_class("b", "b"));
    assert!(!match_class("abc", "b"));
    assert!(match_class("a  b", ""));
    assert!(!match_class("ab", ""));
    assert!(match_class("a  b", "") == "a  b".split(" ").any(|w| w == ""));
    assert!(!match_class("a b", "a b"));
}

#[test]
fn test_match_attribute() {
    assert!(match_attribute("", Matcher::Exist, "x"));
    assert!(match_attribute("en", Matcher::DashMatch, "en"));
    assert!(match_attribute("-en", Matcher::DashMatch, "en"));
    assert!(!match_attribute("en-us", Matcher::DashMatch, "en"));
    assert!(match_attribute("hello", Matcher::Prefix, "he"));
    assert!(match_attribute("hello", Matcher::Suffix, "llo"));
    assert!(!match_attribute("lo", Matcher::Suffix, "hello"));
    assert!(match_attribute("hello", Matcher::Substring, "ell"));
    assert!(!match_attribute("hello", Matcher::Substring, "elo"));
    assert!(match_attribute("a b", Matcher::Include, "b"));
    assert!(match_attribute("abc", Matcher::Equal, "abc"));
    assert!(!match_attribute("abc", Matcher::Equal, "ab"));
}

#[test]
fn test_match_root_element() {
    let t = Tree { nodes: vec![node(":root", &[], None, vec![])] };
    let css = read_css(":root {}").expect("valid");
    assert!(match_style(&css.styles[0], 0, &t, &StateMatcher));
}

#[test]
fn test_match_id() {
    assert!(matches("#link {}", 1));
    assert!(!matches("#link {}", 2));
}

#[test]
fn test_match_type() {
    assert!(matches("a {}", 1));
    assert!(!matches("a {}", 0));
}

#[test]
fn test_match_class_selector() {
    assert!(matches(".y {}", 1));
    assert!(matches("a.x.y {}", 1));
    assert!(!matches(".z {}", 1));
}

#[test]
fn test_match_attribute_selector() {
    assert!(matches("[hidden] {}", 1));
    assert!(!matches("[hidden] {}", 2));
    assert!(matches("[data-kind^=en] {}", 2));
}

#[test]
fn test_match_combinators() {
    assert!(matches(".panel > a {}", 1));
    assert!(!matches(".other > a {}", 1));
    assert!(matches("a + span {}", 2));
    assert!(!matches("span + a {}", 1));
    assert!(!matches("div span {}", 2));
    assert!(matches("em, span {}", 2));
}

#[test]
fn test_match_pseudo_classes() {
    let mut t = tree();
    let css = read_css("a:hover {}").expect("valid");
    assert!(!match_style(&css.styles[0], 1, &t, &StateMatcher));
    assert!(match_style(&css.styles[0], 1, &t, &AnyPseudoClass));
    t.nodes[1].state.hover = true;
    assert!(match_style(&css.styles[0], 1, &t, &StateMatcher));
}
