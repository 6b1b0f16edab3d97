use bumaga::component::{Handler, Source};
use bumaga::controls::{
    c_button, c_hover, c_text, ButtonOutput, ControlEvent, HoverOutput, TextOutput,
};
use bumaga::element::TextContent;
use bumaga::html::reader::read_html;
use bumaga::html::{Binder, ElementBinding};
use bumaga::input::Keys;
use bumaga::models::ElementId;

struct Clicked;

impl ButtonOutput<String> for Clicked {
    fn message(&self) -> String {
        "clicked".to_string()
    }

    fn create(&self) -> String {
        "clicked".to_string()
    }
}

struct Says(&'static str);

impl HoverOutput<String> for Says {
    fn message(&self) -> String {
        self.0.to_string()
    }

    fn create(&self) -> String {
        self.0.to_string()
    }
}

struct Edited;

impl TextOutput<String> for Edited {
    fn message(&self, _value: vstd::seq::Seq<char>) -> String {
        String::new()
    }

    fn create(&self, value: &str) -> String {
        format!("value={value}")
    }
}

fn binder(path: &[&str], pipe: &[&str]) -> Binder {
    Binder {
        path: path.iter().map(|s| s.to_string()).collect(),
        pipe: pipe.iter().map(|s| s.to_string()).collect(),
    }
}

#[test]
fn test_text_content() {
    let mut text = TextContent::new(vec!["  Hello, ".to_string(), "name".to_string(), "!  ".to_string()]);
    assert_eq!(text.to_string(), "Hello, name!");
    text.set(1, "Alice".to_string());
    assert_eq!(text.to_string(), "Hello, Alice!");
    text.set(7, "ignored".to_string());
    assert_eq!(text.to_string(), "Hello, Alice!");
    assert_eq!(TextContent::new(vec![" \n ".to_string()]).to_string(), "");
    assert_eq!(TextContent::new(vec![]).to_string(), "");
}

#[test]
fn test_binder_to_string() {
    assert_eq!(binder(&["a", "b"], &[]).to_string(), "{ a.b }");
    assert_eq!(binder(&["user", "name"], &["upper", "trim"]).to_string(), "{ user.name | upper | trim }");
}

#[test]
fn test_binder_text_reads_back() {
    let b = binder(&["user", "name"], &["upper"]);
    let html = read_html(&format!("<div>{}</div>", b.to_string())).expect("valid");
    let text = html.children[0].text.clone().expect("text");
    assert_eq!(text.spans, vec![bumaga::html::TextSpan::Binder(b)]);
}

#[test]
fn test_binder_json_pointer() {
    let b = binder(&["item", "name"], &[]);
    assert_eq!(b.to_json_pointer(&vec![]), "/item/name");
    let locals = vec![("item".to_string(), "/items/2".to_string())];
    assert_eq!(b.to_json_pointer(&locals), "/items/2/name");
    assert_eq!(binder(&["item"], &[]).to_json_pointer(&locals), "/items/2");
    assert_eq!(binder(&["x"], &[]).to_json_pointer(&locals), "/x");
}

#[test]
fn test_binder_json_pointer_escapes_tokens() {
    assert_eq!(binder(&["a/b"], &[]).to_json_pointer(&vec![]), "/a~1b");
    assert_eq!(binder(&["m~n", "x/y~"], &[]).to_json_pointer(&vec![]), "/m~0n/x~1y~0");
    let locals = vec![("item".to_string(), "/items/2".to_string())];
    assert_eq!(binder(&["item", "a/b"], &[]).to_json_pointer(&locals), "/items/2/a~1b");
}

#[test]
fn test_button_control() {
    let mut button = c_button(Clicked);
    assert_eq!(button.handle(ControlEvent::OnClick), Some("clicked".to_string()));
    assert_eq!(button.handle(ControlEvent::OnMouseEnter), None);
    let mut disabled = button.enabled(false);
    assert_eq!(disabled.handle(ControlEvent::OnClick), None);
    disabled.identify(3);
    assert_eq!(disabled.get_id(), 3);
}

#[test]
fn test_hover_control() {
    let mut hover = c_hover(Says("enter"), Says("leave"));
    assert_eq!(hover.handle(ControlEvent::OnMouseEnter), Some("enter".to_string()));
    assert_eq!(hover.handle(ControlEvent::OnMouseLeave), Some("leave".to_string()));
    assert_eq!(hover.handle(ControlEvent::OnClick), None);
}

#[test]
fn test_text_control() {
    let mut text = c_text("ab".to_string(), Edited);
    assert_eq!(text.handle(ControlEvent::OnInput('c')), Some("value=abc".to_string()));
    assert_eq!(text.handle(ControlEvent::OnKeyDown(Keys::Backspace)), None);
    assert_eq!(text.get_value(), "ab");
    assert_eq!(text.handle(ControlEvent::OnKeyDown(Keys::Backspace)), Some("value=a".to_string()));
    assert_eq!(text.handle(ControlEvent::OnKeyDown(Keys::Enter)), Some("value=a".to_string()));
    let mut empty = c_text(String::new(), Edited);
    assert_eq!(empty.handle(ControlEvent::OnKeyDown(Keys::Backspace)), None);
    assert_eq!(empty.get_value(), "");
}

#[test]
fn test_element_ids() {
    let html = read_html("<div><span>x</span></div>").expect("valid");
    let id = ElementId::from(&html);
    assert_eq!(id.index, html.index);
    assert_eq!(id.hash, 0);
    let child = ElementId::child(id, 7);
    assert_eq!(child.hash, 7);
    assert_eq!(ElementId::fake(), ElementId { index: 0, hash: 0 });
    let a = ElementId::hash(&html, b"a");
    let b = ElementId::hash(&html, b"a");
    let c = ElementId::hash(&html, b"b");
    assert_eq!(a, b);
    assert_ne!(a.hash, c.hash);
}

#[test]
fn test_source_from_content() {
    let source = Source::from_content(5u32);
    assert_eq!(*source.content(), 5);
    assert!(source.path().is_none());
    let handler = Handler { function: "go".to_string(), argument: binder(&["x"], &[]) };
    let copy = handler.clone();
    assert_eq!(copy.function, "go");
    assert_eq!(copy.argument, handler.argument);
}

#[test]
fn test_template_link() {
    let html = read_html(r#"<div><link href="card.html" class="a" /></div>"#).expect("valid");
    let link = &html.children[0];
    let (id, rest) = link.as_template_link().expect("template link");
    assert_eq!(id, "card.html");
    assert_eq!(rest, vec![ElementBinding::Plain("class".to_string(), "a".to_string())]);
    assert!(html.as_template_link().is_none());
}

#[test]
fn test_visibility_and_repeat() {
    let html = read_html(r#"<div ?="{shown}" *item="3 {items}" !="{hidden}"></div>"#).expect("valid");
    let (visible, b) = html.as_visibility().expect("visibility");
    assert!(visible);
    assert_eq!(b.path, vec!["shown".to_string()]);
    let (name, count, b) = html.as_repeat().expect("repeat");
    assert_eq!(name, "item");
    assert_eq!(count, 3);
    assert_eq!(b.path, vec!["items".to_string()]);
    let plain = read_html("<div></div>").expect("valid");
    assert!(plain.as_visibility().is_none());
    assert!(plain.as_repeat().is_none());
}

#[test]
fn test_simple_text() {
    let html = read_html("<p>Hello</p>").expect("valid");
    let text = html.children[0].text.clone().expect("text");
    assert_eq!(text.as_simple_text(), Some("Hello".to_string()));
    let bound = read_html("<p>Hi {name}</p>").expect("valid");
    assert_eq!(bound.children[0].text.clone().expect("text").as_simple_text(), None);
}

fn preorder(h: &bumaga::html::Html, out: &mut Vec<usize>) {
    out.push(h.index);
    for c in &h.children {
        preorder(c, out);
    }
}

#[test]
fn test_document_indexes_increase() {
    let html = read_html("  <div><a>x</a>\n <b/> text <i></i></div> ").expect("valid");
    let mut indexes = vec![];
    preorder(&html, &mut indexes);
    assert_eq!(indexes, vec![2, 7, 10, 17, 22, 27]);
    assert!(indexes.windows(2).all(|w| w[0] < w[1]));
}
