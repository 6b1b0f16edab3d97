use bumaga::cascade::{Cascade, ComputedStyle, PropertyDescriptor};
use bumaga::css::matching::{Node, StateMatcher, Tree};
use bumaga::css::reader::{read_css, read_inline_css};
use bumaga::css::{ComputedValue, Definition, Dim, PropertyKey, Units};
use bumaga::decimal::Decimal;
use bumaga::element::ElementState;
use bumaga::variables::{compute_shorthand, Variables};

fn px(v: u64) -> ComputedValue {
    ComputedValue::Dimension(Dim::new(Decimal::new(false, v, 0), Units::Px))
}

fn d(key: PropertyKey, index: usize) -> PropertyDescriptor {
    PropertyDescriptor::new(key, index)
}

fn tree() -> Tree {
    Tree {
        nodes: vec![
            Node {
                tag: "div".to_string(),
                attrs: vec![("class".to_string(), "box".to_string())],
                state: ElementState::new(),
                parent: None,
                children: vec![1],
            },
            Node {
                tag: "span".to_string(),
                attrs: vec![],
                state: ElementState::new(),
                parent: Some(0),
                children: vec![],
            },
        ],
    }
}

#[test]
fn test_variables_resolve() {
    let mut vars = Variables::new();
    vars.set("--gap", &vec![Definition::Explicit(px(4))]);
    vars.set("--pair", &vec![Definition::Var("--gap".to_string()), Definition::Explicit(px(8))]);
    let mut out = vec![];
    let r = compute_shorthand(&vars, &[Definition::Var("--pair".to_string())], &mut out);
    assert_eq!(r, Some(true));
    assert_eq!(out, vec![px(4), px(8)]);
    vars.set("--gap", &vec![Definition::Explicit(px(5))]);
    assert_eq!(vars.get("--gap"), Some(&vec![Definition::Explicit(px(5))]));
    assert_eq!(vars.get("--none"), None);
}

#[test]
fn test_unknown_variable_fails() {
    let vars = Variables::new();
    let mut out = vec![];
    let r = compute_shorthand(&vars, &[Definition::Explicit(px(1)), Definition::Var("--x".to_string())], &mut out);
    assert_eq!(r, Some(false));
    assert_eq!(out, vec![px(1)]);
}

#[test]
fn test_cyclic_variable_is_detected() {
    let mut vars = Variables::new();
    vars.set("--a", &vec![Definition::Var("--b".to_string())]);
    vars.set("--b", &vec![Definition::Var("--a".to_string())]);
    let mut out = vec![];
    assert_eq!(compute_shorthand(&vars, &[Definition::Var("--a".to_string())], &mut out), None);
}

#[test]
fn test_rgb_function_values() {
    let css = read_css("div { color: rgba(10, 20, 30, 0.5); background-color: rgb(1, 2, 3); border-color: hsl(1, 2, 3); }").expect("valid");
    let vars = Variables::new();
    let mut cascade = Cascade::new(&css, vars);
    let mut style = ComputedStyle::new();
    assert!(cascade.compute_declaration_block(&css.styles[0].declaration, &mut style));
    assert_eq!(style.get(&d(PropertyKey::Color, 0)), Some(&ComputedValue::Color([10, 20, 30, 127])));
    assert_eq!(style.get(&d(PropertyKey::BackgroundColor, 0)), Some(&ComputedValue::Color([1, 2, 3, 255])));
    assert_eq!(style.get(&d(PropertyKey::BorderTopColor, 0)), None);
}

#[test]
fn test_cascade_rules_then_inline() {
    let css = read_css(
        ":root {} .box { --space: 3px; padding: var(--space) 1px; } span { width: 9px; } .box { width: 2px; }",
    )
    .expect("valid");
    let inline = read_inline_css("width: 7px;").expect("valid");
    let mut cascade = Cascade::new(&css, Variables::new());
    let style = cascade.compute_rules(0, &tree(), &[], &StateMatcher).expect("ends");
    assert_eq!(style.get(&d(PropertyKey::PaddingTop, 0)), Some(&px(3)));
    assert_eq!(style.get(&d(PropertyKey::PaddingRight, 0)), Some(&px(1)));
    assert_eq!(style.get(&d(PropertyKey::Width, 0)), Some(&px(2)));
    let mut cascade = Cascade::new(&css, Variables::new());
    let style = cascade.compute_rules(0, &tree(), &inline, &StateMatcher).expect("ends");
    assert_eq!(style.get(&d(PropertyKey::Width, 0)), Some(&px(7)));
    let vars = cascade.take_variables();
    assert!(vars.get("--space").is_some());
    let mut cascade = Cascade::new(&css, Variables::new());
    let style = cascade.compute_rules(1, &tree(), &[], &StateMatcher).expect("ends");
    assert_eq!(style.get(&d(PropertyKey::Width, 0)), Some(&px(9)));
    assert_eq!(style.get(&d(PropertyKey::PaddingTop, 0)), None);
}

#[test]
fn test_cascade_stops_on_cycle() {
    let css = read_css("div { --a: var(--a); width: var(--a); }").expect("valid");
    let mut cascade = Cascade::new(&css, Variables::new());
    assert!(cascade.compute_rules(0, &tree(), &[], &StateMatcher).is_none());
}
