use bumaga::html::reader::read_html;
use bumaga::html::{Binder, CallbackArgument, ElementBinding, Html, TextBinding, TextSpan};

fn repeat(name: &str, count: usize, path: &str) -> ElementBinding {
    ElementBinding::Repeat(name.to_string(), count, binder(path))
}

fn attr(key: &str, spans: &[TextSpan]) -> ElementBinding {
    ElementBinding::Attribute(key.to_string(), TextBinding { spans: spans.to_vec() })
}

fn al(name: &str, path: &str) -> ElementBinding {
    ElementBinding::Alias(name.to_string(), binder(path))
}

fn tag(name: &str, path: &str) -> ElementBinding {
    ElementBinding::Tag(name.to_string(), binder(path))
}

fn if_(path: &str) -> ElementBinding {
    ElementBinding::Visibility(true, binder(path))
}

fn else_(path: &str) -> ElementBinding {
    ElementBinding::Visibility(false, binder(path))
}

fn text(spans: &[TextSpan]) -> Option<TextBinding> {
    Some(TextBinding { spans: spans.to_vec() })
}

fn t(text: &str) -> TextSpan {
    TextSpan::String(text.to_string())
}

fn b(path: &str) -> TextSpan {
    TextSpan::Binder(binder(path))
}

fn binder(path: &str) -> Binder {
    Binder { path: path.split(".").map(ToString::to_string).collect(), pipe: vec![] }
}

fn html(html: &str) -> Html {
    read_html(html).expect("HTML valid and parsing complete")
}

#[test]
pub fn test_ignore_script_tag() {
    let html = html(
        r#"<script>
                function doSomething() {}
                for (let i = 0; i < 27; i++) {
                    doSomething();
                }
            </script>"#,
    );
    assert_eq!(html.children.len(), 0);
}

#[test]
pub fn test_parse_img_tag() {
    let html = html(r#"<img alt="member.png" src="./images/member.png"/>"#);
    assert_eq!(html.tag, "img");
}

#[test]
pub fn test_binding_binder_with_whitespaces() {
    let html = html(r#"<div>{ name }</div>"#);
    assert_eq!(html.children[0].text, text(&[b("name")]))
}

#[test]
pub fn test_binding_text_one_span() {
    let html = html(r#"<div>Hello, {name}</div>"#);
    assert_eq!(html.children[0].text, text(&[t("Hello, "), b("name")]))
}

#[test]
pub fn test_binding_text_whitespace_before_sibling_element() {
    let html = html(r#"<div>Hello, {binding} <span>Element Text</span></div>"#);
    assert_eq!(html.children[0].text, text(&[t("Hello, "), b("binding"), t(" ")]))
}

#[test]
pub fn test_binding_text_multiple_spans_with_whitespaces() {
    let html = html(r#"<div>Hello,  {first}  {last}</div>"#);
    let expected = text(&[t("Hello,  "), b("first"), t("  "), b("last")]);
    assert_eq!(html.children[0].text, expected)
}

#[test]
pub fn test_binding_text_no_space() {
    let html = html(r#"<div>+{property}</div>"#);
    let expected = text(&[t("+"), b("property")]);
    assert_eq!(html.children[0].text, expected)
}

#[test]
pub fn test_binding_text_multiple_spans_no_space() {
    let html = html(r#"<div>Hello, {first}{last}</div>"#);
    let expected = text(&[t("Hello, "), b("first"), b("last")]);
    assert_eq!(html.children[0].text, expected)
}

#[test]
pub fn test_binding_text_ends_with_whitespace() {
    let html = html(r#"<div>Hello, {binding} </div>"#);
    assert_eq!(html.children[0].text, text(&[t("Hello, "), b("binding"), t(" ")]))
}

#[test]
pub fn test_binding_text_multilines() {
    let html = html(
        r#"<div>
                Line 1
                Hello, {world}!
                Line 3
            </div>"#,
    );
    let expected = text(&[t("Line 1 Hello, "), b("world"), t("! Line 3")]);
    assert_eq!(html.children[0].text, expected)
}

#[test]
pub fn test_binding_text_multilines_before_sibling() {
    let html = html(
        r#"<div>
                Line 1
                Hello, {world}!
                <div>something</div>
            </div>"#,
    );
    let expected = text(&[t("Line 1 Hello, "), b("world"), t("! ")]);
    assert_eq!(html.children[0].text, expected)
}

#[test]
pub fn test_binding_text_empty_multilines() {
    let html = html(
        r#"<div>
                {world}
            </div>"#,
    );
    let expected = text(&[b("world")]);
    assert_eq!(html.children[0].text, expected)
}

#[test]
pub fn test_binding_alias() {
    let html = html(r#"<input +option="{context.config.option}" />"#);
    assert_eq!(html.bindings, [al("option", "context.config.option")])
}

#[test]
pub fn test_binding_tag() {
    let html = html(r#"<input #disabled="{disabled}" />"#);
    assert_eq!(html.bindings, [tag("disabled", "disabled")])
}

#[test]
pub fn test_binding_control_if() {
    let html = html(r#"<input ?="{visible}" />"#);
    assert_eq!(html.bindings, [if_("visible")])
}

#[test]
pub fn test_binding_control_else() {
    let html = html(r#"<input !="{visible}" />"#);
    assert_eq!(html.bindings, [else_("visible")])
}

#[test]
pub fn test_binding_attribute() {
    let html = html(r#"<input @value="{name}" />"#);
    assert_eq!(html.bindings, [attr("value", &[b("name")])])
}

#[test]
pub fn test_binding_attribute_style() {
    let html = html(r#"<input @styles="top: {pivot.x}px;" />"#);
    let expected = [attr("styles", &[t("top: "), b("pivot.x"), t("px;")])];
    assert_eq!(html.bindings, expected)
}

#[test]
pub fn test_binding_attribute_style_multiple_properties() {
    let html = html(r#"<input @styles="width: {width}px; height: {height}px;" />"#);
    let expected = [attr(
        "styles",
        &[t("width: "), b("width"), t("px; height: "), b("height"), t("px;")],
    )];
    assert_eq!(html.bindings, expected)
}

#[test]
pub fn test_binding_repeat() {
    let html = html(r#"<option *option="10 {options}"></option>"#);
    assert_eq!(html.bindings, [repeat("option", 10, "options")])
}

#[test]
pub fn test_binding_repeat_single_number_count() {
    let html = html(r#"<div *effect="8 {effects}"> {effect} </div>"#);
    assert_eq!(html.bindings, [repeat("effect", 8, "effects")])
}

#[test]
pub fn test_binding_repeat_with_shorthand() {
    let html = html(r#"<option *_="10 {options}"></option>"#);
    assert_eq!(html.bindings, [repeat("_", 10, "options")])
}

#[test]
pub fn test_binding_callback_binding_argument() {
    let html = html(r#"<button ^onclick="{my_data}"></button>"#);
    let binding = ElementBinding::Callback(
        "onclick".into(),
        vec![CallbackArgument::Binder(binder("my_data"))],
    );
    assert_eq!(html.bindings, vec![binding])
}

#[test]
pub fn test_binding_callback_event_argument() {
    let html = html(r#"<button ^onclick="MyMessage $event"></button>"#);
    let binding = ElementBinding::Callback(
        "onclick".into(),
        vec![CallbackArgument::Keyword("MyMessage".into()), CallbackArgument::Event],
    );
    assert_eq!(html.bindings, vec![binding])
}
