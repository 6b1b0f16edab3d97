use bumaga::css::reader::{read_css, read_inline_css, ReaderError};
use bumaga::css::{
    Animation, ComputedValue, Css, Declaration, Definition, Dim, Function, Keyframe, Matcher,
    Property, PropertyKey, Simple, Units, Variable,
};
use bumaga::decimal::Decimal;

fn style(css: &str) -> Vec<Declaration> {
    read_inline_css(css).expect("inline CSS valid and parsing complete")
}

fn css(css: &str) -> Css {
    read_css(css).expect("CSS valid and parsing complete")
}

fn first_short(css: &Css) -> &[Definition] {
    match &css.styles[0].declaration[0] {
        Declaration::Variable(_) => panic!("first declaration not property"),
        Declaration::Property(property) => &property.values[0],
    }
}

fn style_selectors(css: &Css) -> Vec<&Simple> {
    css.styles[0].selectors[0].selectors.iter().collect()
}

fn dec(negative: bool, mantissa: u64, scale: u32) -> Decimal {
    Decimal::new(negative, mantissa, scale)
}

fn prop(key: PropertyKey, shorthand: &[Definition]) -> Declaration {
    Declaration::Property(Property { key, values: vec![shorthand.to_vec()] })
}

fn px(value: u64) -> Definition {
    Definition::Explicit(ComputedValue::Dimension(Dim::new(dec(false, value, 0), Units::Px)))
}

fn em(value: Decimal) -> Definition {
    Definition::Explicit(ComputedValue::Dimension(Dim::new(value, Units::Em)))
}

fn var(value: &str) -> Definition {
    Definition::Var(value.to_string())
}

fn kw(value: &str) -> Definition {
    Definition::Explicit(ComputedValue::Keyword(value.to_string()))
}

fn f(value: Decimal) -> Definition {
    Definition::Explicit(ComputedValue::Number(value))
}

fn n(value: u64) -> Definition {
    Definition::Explicit(ComputedValue::Number(dec(false, value, 0)))
}

fn zero() -> Definition {
    Definition::Explicit(ComputedValue::Zero)
}

fn perc(value: Decimal) -> Definition {
    Definition::Explicit(ComputedValue::Percentage(value))
}

fn func(name: &str, arguments: &[Definition]) -> Definition {
    Definition::Function(Function { name: name.to_string(), arguments: arguments.to_vec() })
}

fn s(value: &str) -> Definition {
    Definition::Explicit(ComputedValue::Str(value.to_string()))
}

fn ts(value: Decimal) -> Definition {
    Definition::Explicit(ComputedValue::Time(value))
}

#[test]
fn test_inline_style_one_property() {
    let css = style("width: 0;");
    assert_eq!(css, [prop(PropertyKey::Width, &[zero()])])
}

#[test]
fn test_inline_style_no_semicolumn() {
    let css = style("width: 0");
    assert!(css.is_empty());
}

#[test]
fn test_inline_style_two_properties() {
    let css = style("width: 0; height: 0;");
    assert_eq!(
        css,
        [prop(PropertyKey::Width, &[zero()]), prop(PropertyKey::Height, &[zero()])]
    )
}

#[test]
fn test_component_value_var() {
    let css = css("div { background-color: var(--main-bg-color); }");
    assert_eq!(first_short(&css), [var("--main-bg-color")]);
}

#[test]
fn test_component_value_shorthand() {
    let css = css("div { padding: 40px 30px; }");
    assert_eq!(first_short(&css), [px(40), px(30)]);
}

#[test]
fn test_component_value_shorthand_var() {
    let css = css("div { padding: 40px var(--padding); }");
    assert_eq!(first_short(&css), [px(40), var("--padding")]);
}

#[test]
fn test_component_value_list() {
    let css = css("div { font-family: monospaced, sans-serif; }");
    assert_eq!(first_short(&css), [kw("monospaced")]);
}

#[test]
fn test_component_value_list_with_var() {
    let css = css("div { font-family: var(--default-font), sans-serif; }");
    assert_eq!(first_short(&css), [var("--default-font")]);
}

#[test]
fn test_component_value_list_with_shorthands() {
    let css = css("div { box-shadow: -1em 0 0.4em olive, 3px 3px red; }");
    assert_eq!(
        first_short(&css),
        [em(dec(true, 1, 0)), zero(), em(dec(false, 4, 1)), kw("olive")]
    );
}

#[test]
fn test_component_value_list_with_shorthands_with_var() {
    let css = css("div { box-shadow:  -1em 0 0.4em var(--color), 3px 3px red; }");
    assert_eq!(
        first_short(&css),
        [em(dec(true, 1, 0)), zero(), em(dec(false, 4, 1)), var("--color")]
    );
}

#[test]
fn test_component_value_function_url_string() {
    let css = css(r#"div { mask-image: url("masks.svg#mask1"); }"#);
    assert_eq!(first_short(&css), &[func("url", &[s("masks.svg#mask1")])]);
}

#[test]
fn test_component_value_function_single_value() {
    let css = css("div { transform: translateX(20px); }");
    assert_eq!(first_short(&css), &[func("translateX", &[px(20)])]);
}

#[test]
fn test_component_value_function_single_value_var() {
    let css = css("div { transform: translateX(var(--offset)); }");
    assert_eq!(first_short(&css), &[func("translateX", &[var("--offset")])]);
}

#[test]
fn test_component_value_function_multiple_values() {
    let css = css("div { transform: translate(20px, 40px); }");
    assert_eq!(first_short(&css), &[func("translate", &[px(20), px(40)])]);
}

#[test]
fn test_component_value_function_multiple_values_var() {
    let css = css("div { transform: translate(var(--offset), 40px); }");
    assert_eq!(first_short(&css), &[func("translate", &[var("--offset"), px(40)])]);
}

#[test]
fn test_component_value_rgba() {
    let css = css("div { background-color: rgba(133, 155, 155, 0.5); }");
    let expected = &[func("rgba", &[n(133), n(155), n(155), f(dec(false, 5, 1))])];
    assert_eq!(first_short(&css), expected);
}

#[test]
fn test_zero_value() {
    let css = css("div { padding: 0; }");
    assert_eq!(first_short(&css), &[zero()]);
}

#[test]
fn test_zero_percent_value() {
    let css = css("div { border-radius: 0%;}");
    assert_eq!(first_short(&css), &[perc(dec(false, 0, 0))]);
}

#[test]
fn test_percent_value() {
    let css = css("div { border-radius: 50%;}");
    assert_eq!(first_short(&css), &[perc(dec(false, 5, 1))]);
}

#[test]
fn test_string_value() {
    let css = css(r#"div { content: "abc"; }"#);
    assert_eq!(first_short(&css), &[s("abc")]);
}

#[test]
fn test_matcher_exist() {
    let css = css(r#"[data-something] {}"#);
    let selectors = style_selectors(&css);
    assert_eq!(
        selectors[0],
        &Simple::Attribute("data-something".to_string(), Matcher::Exist, "".to_string())
    );
}

#[test]
fn test_matcher_equal_string() {
    let css = css(r#"[data-something="abc"] {}"#);
    let selectors = style_selectors(&css);
    assert_eq!(
        selectors[0],
        &Simple::Attribute("data-something".to_string(), Matcher::Equal, "abc".to_string())
    );
}

#[test]
fn test_matcher_equal_ident() {
    let css = css(r#"[data-something=abc] {}"#);
    let selectors = style_selectors(&css);
    assert_eq!(
        selectors[0],
        &Simple::Attribute("data-something".to_string(), Matcher::Equal, "abc".to_string())
    );
}

#[test]
fn test_animation_shorthand() {
    let css = css("div { animation: 1s linear HeightAnimation; }");
    let expected = &[ts(dec(false, 1, 0)), kw("linear"), kw("HeightAnimation")];
    assert_eq!(first_short(&css), expected);
}

#[test]
fn test_animation_simple_keyframes() {
    let css = css(
        r#"
            @keyframes HeightAnimation {
                0% {
                    line-height: 1.0;
                }
                50% {
                    line-height: 2.0;
                }
                100% {
                    line-height: 3.0;
                }
            }
        "#,
    );

    let animation = Animation {
        name: "HeightAnimation".to_string(),
        keyframes: vec![
            Keyframe {
                step: 0,
                declaration: vec![prop(PropertyKey::LineHeight, &[f(dec(false, 1, 0))])],
            },
            Keyframe {
                step: 50,
                declaration: vec![prop(PropertyKey::LineHeight, &[f(dec(false, 2, 0))])],
            },
            Keyframe {
                step: 100,
                declaration: vec![prop(PropertyKey::LineHeight, &[f(dec(false, 3, 0))])],
            },
        ],
    };

    assert_eq!(css.animations, vec![animation]);
}

// Cases beyond the original suite.

#[test]
fn test_time_in_milliseconds() {
    let css = css("div { transition-duration: 250ms; }");
    assert_eq!(first_short(&css), &[ts(dec(false, 25, 2))]);
}

#[test]
fn test_color_values() {
    let css = css("div { color: #ff8000; background-color: #01020304; }");
    assert_eq!(
        first_short(&css),
        &[Definition::Explicit(ComputedValue::Color([255, 128, 0, 255]))]
    );
    match &css.styles[0].declaration[1] {
        Declaration::Property(p) => assert_eq!(
            p.values[0],
            vec![Definition::Explicit(ComputedValue::Color([1, 2, 3, 4]))]
        ),
        _ => panic!("property expected"),
    }
}

#[test]
fn test_custom_property() {
    let decls = style("--gap: 4px 8px;");
    assert_eq!(
        decls,
        vec![Declaration::Variable(Variable { key: "--gap".to_string(), shorthand: vec![px(4), px(8)] })]
    );
}

#[test]
fn test_unknown_property_left_out() {
    let decls = style("no-such-thing: 1; width: 2px;");
    assert_eq!(decls, vec![prop(PropertyKey::Width, &[px(2)])]);
}

#[test]
fn test_other_units() {
    let css = css("div { width: 2rem; height: 50vh; }");
    assert_eq!(
        first_short(&css),
        &[Definition::Explicit(ComputedValue::Dimension(Dim::new(dec(false, 2, 0), Units::Rem)))]
    );
}

#[test]
fn test_selectors_and_combinators() {
    let css = css("div > .a + #b ~ p span, :root::before {}");
    let first = &css.styles[0].selectors[0].selectors;
    assert_eq!(
        first,
        &vec![
            Simple::Type("div".to_string()),
            Simple::Combinator('>'),
            Simple::Class("a".to_string()),
            Simple::Combinator('+'),
            Simple::Id("b".to_string()),
            Simple::Combinator('~'),
            Simple::Type("p".to_string()),
            Simple::Combinator(' '),
            Simple::Type("span".to_string()),
        ]
    );
    let second = &css.styles[0].selectors[1].selectors;
    assert_eq!(second, &vec![Simple::Root, Simple::PseudoElement("before".to_string())]);
}

#[test]
fn test_matchers() {
    let css = css("[a~=x][b|=y][c^=\"z\"][d$=w][e*=v]:hover {}");
    let selectors = style_selectors(&css);
    assert_eq!(selectors[0], &Simple::Attribute("a".to_string(), Matcher::Include, "x".to_string()));
    assert_eq!(selectors[1], &Simple::Attribute("b".to_string(), Matcher::DashMatch, "y".to_string()));
    assert_eq!(selectors[2], &Simple::Attribute("c".to_string(), Matcher::Prefix, "z".to_string()));
    assert_eq!(selectors[3], &Simple::Attribute("d".to_string(), Matcher::Suffix, "w".to_string()));
    assert_eq!(selectors[4], &Simple::Attribute("e".to_string(), Matcher::Substring, "v".to_string()));
    assert_eq!(selectors[5], &Simple::PseudoClass("hover".to_string()));
}

#[test]
fn test_comments_are_skipped() {
    let css = css("/* head */ div /* a */ { /* b */ width: 1px; /* c */ } /* tail */");
    assert_eq!(css.styles.len(), 1);
    assert_eq!(first_short(&css), &[px(1)]);
}

#[test]
fn test_later_animation_replaces_earlier() {
    let css = css("@keyframes A { from { width: 1px; } } div {} @keyframes A { to { width: 2px; } }");
    assert_eq!(css.styles.len(), 1);
    assert_eq!(css.animations.len(), 1);
    assert_eq!(css.animations[0].keyframes[0].step, 100);
    assert_eq!(
        css.animations[0].keyframes[0].declaration,
        vec![prop(PropertyKey::Width, &[px(2)])]
    );
    assert!(css.animation("A").is_some());
    assert!(css.animation("B").is_none());
}

#[test]
fn test_invalid_stylesheet() {
    assert!(matches!(read_css("div { width: 1px; "), Err(ReaderError::Parsing)));
    assert!(matches!(read_css("{}"), Err(ReaderError::Parsing)));
}

#[test]
fn test_empty_stylesheet() {
    let css = css("  ");
    assert!(css.styles.is_empty());
    assert!(css.animations.is_empty());
}

#[test]
fn test_unknown_property_left_out_of_style() {
    let css = css("div { foo-bar: 1; width: 0; }");
    assert_eq!(css.styles[0].declaration, vec![prop(PropertyKey::Width, &[zero()])]);
}
