use bumaga::view::reattach::reattach_index;

#[test]
fn test_reshown_child_goes_after_shown_predecessor() {
    let definition = vec![1, 2, 3, 4];
    let current = vec![1, 4];
    assert_eq!(reattach_index(&definition, &current, 3), Some(1));
}

#[test]
fn test_reshown_first_child_goes_to_front() {
    let definition = vec![1, 2, 3, 4];
    let current = vec![2, 3];
    assert_eq!(reattach_index(&definition, &current, 1), Some(0));
}

#[test]
fn test_reshown_last_child_goes_to_end() {
    let definition = vec![1, 2, 3, 4];
    let current = vec![1, 2];
    assert_eq!(reattach_index(&definition, &current, 4), Some(2));
}

#[test]
fn test_reattach_unknown_child_is_not_found() {
    let definition = vec![1, 2, 3, 4];
    let current = vec![1, 4];
    assert_eq!(reattach_index(&definition, &current, 9), None);
}

#[test]
fn test_reattach_unknown_sibling_is_not_found() {
    let definition = vec![1, 2, 3, 4];
    let current = vec![7, 4];
    assert_eq!(reattach_index(&definition, &current, 3), None);
}

use bumaga::view::model::{is_bindable, is_filled, ArrayDefaults, Bindings, Json, JsonNumber, ViewModel};

fn obj(fields: Vec<(&str, Json)>) -> Json {
    Json::Object(fields.into_iter().map(|(k, v)| (k.to_string(), v)).collect())
}

fn num(n: u64) -> Json {
    Json::Number(JsonNumber::PosInt(n))
}

fn text(s: &str) -> Json {
    Json::Str(s.to_string())
}

fn bindings(paths: &[&str]) -> Bindings {
    Bindings {
        paths: paths.iter().map(|p| p.to_string()).collect(),
    }
}

fn no_defaults() -> ArrayDefaults {
    ArrayDefaults { entries: vec![] }
}

#[test]
fn test_bind_changed_member_reacts() {
    let mut model = obj(vec![("a", num(1)), ("b", text("x"))]);
    let value = obj(vec![("a", num(2)), ("b", text("x"))]);
    let mut reactions = vec![];
    let changed = ViewModel::bind_value(&mut model, &value, "", "", &bindings(&["/a", "/b", ""]), &no_defaults(), &mut reactions);
    assert!(changed);
    assert_eq!(model, obj(vec![("a", num(2)), ("b", text("x"))]));
    assert_eq!(reactions, vec![("/a".to_string(), num(2)), ("".to_string(), obj(vec![]))]);
}

#[test]
fn test_bind_same_value_twice_reacts_nothing() {
    let mut view_model = ViewModel {
        bindings: bindings(&["/a", "/list", "/list/0"]),
        model: obj(vec![("a", num(1)), ("list", Json::Array(vec![num(0)]))]),
        model_array_default: ArrayDefaults { entries: vec![("/list".to_string(), num(0))] },
    };
    let value = obj(vec![("a", num(7)), ("list", Json::Array(vec![num(3), num(4)]))]);
    let first = view_model.bind(&value);
    assert_eq!(
        first,
        vec![
            ("/a".to_string(), num(7)),
            ("/list".to_string(), Json::Array(vec![num(3), num(4)])),
            ("/list/0".to_string(), num(3)),
        ]
    );
    assert_eq!(view_model.model, value);
    let second = view_model.bind(&value);
    assert!(second.is_empty());
    assert_eq!(view_model.model, value);
}

#[test]
fn test_bind_missing_member_becomes_null() {
    let mut model = obj(vec![("a", text("x")), ("b", Json::Bool(true)), ("c", Json::Array(vec![num(1)]))]);
    let value = obj(vec![("a", text("x"))]);
    let mut reactions = vec![];
    let changed = ViewModel::bind_value(&mut model, &value, "", "", &bindings(&["/b", "/c"]), &no_defaults(), &mut reactions);
    assert!(changed);
    assert_eq!(model, obj(vec![("a", text("x")), ("b", Json::Null), ("c", Json::Array(vec![]))]));
    assert_eq!(reactions, vec![("/b".to_string(), Json::Null), ("/c".to_string(), Json::Array(vec![]))]);
}

#[test]
fn test_bind_array_without_default_keeps_length() {
    let mut model = Json::Array(vec![num(1)]);
    let value = Json::Array(vec![num(5), num(6)]);
    let mut reactions = vec![];
    let changed = ViewModel::bind_value(&mut model, &value, "/xs", "/xs", &bindings(&["/xs", "/xs/0"]), &no_defaults(), &mut reactions);
    assert!(changed);
    assert_eq!(model, Json::Array(vec![num(5)]));
    assert_eq!(reactions, vec![("/xs/0".to_string(), num(5))]);
}

#[test]
fn test_bind_array_shrinks_with_default() {
    let mut model = Json::Array(vec![num(1), num(2), num(3)]);
    let value = Json::Array(vec![num(1)]);
    let defaults = ArrayDefaults { entries: vec![("/xs".to_string(), num(0))] };
    let mut reactions = vec![];
    let changed = ViewModel::bind_value(&mut model, &value, "/xs", "/xs", &bindings(&["/xs"]), &defaults, &mut reactions);
    assert!(changed);
    assert_eq!(model, Json::Array(vec![num(1)]));
    assert_eq!(reactions, vec![("/xs".to_string(), Json::Array(vec![num(1)]))]);
}

#[test]
fn test_bind_onto_array_other_value_changes_nothing() {
    let mut model = Json::Array(vec![num(1)]);
    let mut reactions = vec![];
    let changed = ViewModel::bind_value(&mut model, &text("x"), "/xs", "/xs", &bindings(&["/xs"]), &no_defaults(), &mut reactions);
    assert!(!changed);
    assert_eq!(model, Json::Array(vec![num(1)]));
    assert!(reactions.is_empty());
}

#[test]
fn test_bind_integer_and_float_differ() {
    let mut model = num(1);
    let one = Json::Number(JsonNumber::Float("1.0".to_string()));
    let mut reactions = vec![];
    let changed = ViewModel::bind_value(&mut model, &one, "/n", "/n", &bindings(&["/n"]), &no_defaults(), &mut reactions);
    assert!(changed);
    assert_eq!(model, one);
    assert_eq!(reactions.len(), 1);
}

#[test]
fn test_bind_nested_member_path() {
    let mut model = obj(vec![("user", obj(vec![("name", text("a"))]))]);
    let value = obj(vec![("user", obj(vec![("name", text("b"))]))]);
    let mut reactions = vec![];
    let changed = ViewModel::bind_value(&mut model, &value, "", "", &bindings(&["/user/name", "/user"]), &no_defaults(), &mut reactions);
    assert!(changed);
    assert_eq!(reactions, vec![("/user/name".to_string(), text("b")), ("/user".to_string(), obj(vec![]))]);
}

use bumaga::input::MouseButtons;
use bumaga::view::input::{input_step, ElementFlag, EventName, InputAction, InputEvent, InputState, Target};

fn targets(count: usize) -> Vec<Target> {
    vec![Target { focusable: false, drop_target: false, draggable: false }; count]
}

fn state(under: Vec<usize>, in_action: Vec<usize>, drag: Option<usize>, focus: Option<usize>) -> InputState {
    InputState { elements_under_mouse: under, elements_in_action: in_action, drag, focus }
}

#[test]
fn test_mouse_move_enters_innermost_first() {
    let (next, actions) = input_step(&state(vec![], vec![], None, None), InputEvent::MouseMove, &vec![1, 2], &targets(4));
    assert_eq!(next.elements_under_mouse, vec![1, 2]);
    assert_eq!(
        actions,
        vec![
            InputAction::Mark(2, ElementFlag::Hover, true),
            InputAction::Call(2, EventName::MouseEnter),
            InputAction::Call(2, EventName::MouseMove),
            InputAction::Mark(1, ElementFlag::Hover, true),
            InputAction::Call(1, EventName::MouseEnter),
            InputAction::Call(1, EventName::MouseMove),
        ]
    );
}

#[test]
fn test_mouse_move_leaves_element() {
    let (next, actions) = input_step(&state(vec![1, 2], vec![], None, None), InputEvent::MouseMove, &vec![1], &targets(4));
    assert_eq!(next.elements_under_mouse, vec![1]);
    assert_eq!(
        actions,
        vec![
            InputAction::Mark(2, ElementFlag::Hover, false),
            InputAction::Call(2, EventName::MouseLeave),
            InputAction::Call(1, EventName::MouseMove),
        ]
    );
}

#[test]
fn test_press_focuses_text_input_and_release_clicks() {
    let mut ts = targets(4);
    ts[2].focusable = true;
    let (pressed, actions) = input_step(&state(vec![1, 2], vec![], None, None), InputEvent::MouseButtonDown(MouseButtons::Left), &vec![], &ts);
    assert_eq!(pressed.focus, Some(2));
    assert_eq!(pressed.elements_in_action, vec![2, 1]);
    assert_eq!(
        actions,
        vec![
            InputAction::Mark(2, ElementFlag::Active, true),
            InputAction::Mark(2, ElementFlag::Focus, true),
            InputAction::Call(2, EventName::Focus),
            InputAction::Call(2, EventName::MouseDown),
            InputAction::Mark(1, ElementFlag::Active, true),
            InputAction::Call(1, EventName::MouseDown),
        ]
    );
    let (released, actions) = input_step(&pressed, InputEvent::MouseButtonUp(MouseButtons::Left), &vec![], &ts);
    assert!(released.elements_in_action.is_empty());
    assert_eq!(
        actions,
        vec![
            InputAction::Call(2, EventName::MouseUp),
            InputAction::Call(2, EventName::Click),
            InputAction::Call(1, EventName::MouseUp),
            InputAction::Call(1, EventName::Click),
            InputAction::Mark(2, ElementFlag::Active, false),
            InputAction::Mark(1, ElementFlag::Active, false),
        ]
    );
}

#[test]
fn test_press_elsewhere_blurs_focus() {
    let (next, actions) = input_step(&state(vec![1], vec![], None, Some(3)), InputEvent::MouseButtonDown(MouseButtons::Right), &vec![], &targets(4));
    assert_eq!(next.focus, None);
    assert_eq!(
        actions,
        vec![
            InputAction::Mark(3, ElementFlag::Focus, false),
            InputAction::Call(3, EventName::Blur),
            InputAction::Mark(1, ElementFlag::Active, true),
            InputAction::Call(1, EventName::MouseDown),
        ]
    );
}

#[test]
fn test_drag_and_drop() {
    let mut ts = targets(4);
    ts[1].draggable = true;
    ts[3].drop_target = true;
    let (dragging, actions) = input_step(&state(vec![1], vec![], None, None), InputEvent::MouseButtonDown(MouseButtons::Left), &vec![], &ts);
    assert_eq!(dragging.drag, Some(1));
    assert_eq!(
        actions,
        vec![
            InputAction::Mark(1, ElementFlag::Active, true),
            InputAction::Call(1, EventName::MouseDown),
            InputAction::Call(1, EventName::DragStart),
        ]
    );
    let (moved, _) = input_step(&dragging, InputEvent::MouseMove, &vec![3], &ts);
    let (dropped, actions) = input_step(&moved, InputEvent::MouseButtonUp(MouseButtons::Left), &vec![], &ts);
    assert_eq!(dropped.drag, None);
    assert_eq!(
        actions,
        vec![
            InputAction::Call(3, EventName::MouseUp),
            InputAction::Call(3, EventName::Drop),
            InputAction::Call(1, EventName::DragEnd),
            InputAction::Mark(1, ElementFlag::Active, false),
        ]
    );
}

#[test]
fn test_character_goes_to_focus() {
    let (_, actions) = input_step(&state(vec![], vec![], None, Some(2)), InputEvent::Char('a'), &vec![], &targets(4));
    assert_eq!(actions, vec![InputAction::Call(2, EventName::Input)]);
    let (_, actions) = input_step(&state(vec![], vec![], None, None), InputEvent::Char('a'), &vec![], &targets(4));
    assert!(actions.is_empty());
}

#[test]
fn test_create_keeps_first_items_as_defaults() {
    let model = obj(vec![
        ("list", Json::Array(vec![Json::Array(vec![num(1)])])),
        ("x", obj(vec![("ys", Json::Array(vec![obj(vec![("n", num(0))])]))])),
    ]);
    let view_model = ViewModel::create(bindings(&[]), model);
    assert_eq!(
        view_model.model_array_default.entries,
        vec![
            ("/list".to_string(), num(1)),
            ("/x/ys".to_string(), obj(vec![("n", num(0))])),
        ]
    );
}

use bumaga::html::Binder;
use bumaga::view::schema::{define_value, Schema};

fn binder(path: &[&str]) -> Binder {
    Binder { path: path.iter().map(|p| p.to_string()).collect(), pipe: vec![] }
}

#[test]
fn test_schema_field_makes_object_members() {
    let mut schema = Schema::new();
    let pointer = schema.field(&binder(&["user", "name"]), &vec![]);
    assert_eq!(pointer, "/user/name");
    assert_eq!(schema.value, obj(vec![("user", obj(vec![("name", Json::Null)]))]));
    let pointer = schema.field(&binder(&["user", "age"]), &vec![]);
    assert_eq!(pointer, "/user/age");
    assert_eq!(schema.value, obj(vec![("user", obj(vec![("name", Json::Null), ("age", Json::Null)]))]));
}

#[test]
fn test_schema_index_makes_array_items() {
    let mut schema = Schema::new();
    let pointer = schema.index(&binder(&["items"]), 2, &vec![]);
    assert_eq!(pointer, "/items/2");
    assert_eq!(schema.value, obj(vec![("items", Json::Array(vec![Json::Null, Json::Null, Json::Null]))]));
}

#[test]
fn test_schema_field_through_local() {
    let mut schema = Schema::new();
    let locals = vec![("item".to_string(), "/items/1".to_string())];
    let pointer = schema.field(&binder(&["item", "title"]), &locals);
    assert_eq!(pointer, "/items/1/title");
    assert_eq!(
        schema.value,
        obj(vec![("items", Json::Array(vec![Json::Null, obj(vec![("title", Json::Null)])]))])
    );
}

#[test]
fn test_schema_member_names_are_read_from_tokens() {
    let mut schema = Schema::new();
    let pointer = schema.field(&binder(&["a/b", "c~d"]), &vec![]);
    assert_eq!(pointer, "/a~1b/c~0d");
    assert_eq!(schema.value, obj(vec![("a/b", obj(vec![("c~d", Json::Null)]))]));
}

#[test]
fn test_bound_member_paths_escape_names() {
    let model = obj(vec![("a/b", text("x")), ("c~d", text("y"))]);
    let mut vm = ViewModel::create(bindings(&["/a~1b", "/c~0d"]), model);
    let changes = vm.bind(&obj(vec![("a/b", text("z")), ("c~d", text("y"))]));
    assert_eq!(changes, vec![("/a~1b".to_string(), text("z"))]);
}

#[test]
fn test_schema_this_needs_no_place() {
    let mut value = obj(vec![]);
    define_value(&mut value, "/this");
    assert_eq!(value, obj(vec![]));
    define_value(&mut value, "/+1");
    assert_eq!(value, Json::Array(vec![Json::Null, Json::Null]));
}

use bumaga::view::binding::{eval_boolean, eval_string, handler_message, Binding, BindingParams, Reaction};
use bumaga::view::model::json_clone;
use bumaga::view::react::reactions_of;
use std::collections::BTreeMap;

fn bind_if(parent: usize, node: usize) -> Binding {
    Binding { params: BindingParams::Visibility(parent, node, true), pipe: vec![] }
}

fn bind_repeat(node: usize, n: usize) -> Binding {
    Binding { params: BindingParams::Repeat(node, 0, n), pipe: vec![] }
}

fn bind_text(node: usize) -> Binding {
    Binding { params: BindingParams::Text(node, 0), pipe: vec![] }
}

fn bind_attr(node: usize, attr: &str, span: usize) -> Binding {
    Binding { params: BindingParams::Attribute(node, attr.to_string(), span), pipe: vec![] }
}

fn view_model_of(table: &BTreeMap<String, Vec<Binding>>, model: Json) -> ViewModel {
    let paths: Vec<String> = table.keys().cloned().collect();
    ViewModel::create(Bindings { paths }, model)
}

fn rebind(view_model: &mut ViewModel, table: &BTreeMap<String, Vec<Binding>>, value: &Json) -> Vec<Reaction> {
    let table: Vec<(String, Vec<Binding>)> = table.iter().map(|(k, v)| (k.clone(), v.clone())).collect();
    view_model.bind_and_react(value, &table, &|_pipe: &Vec<String>, v: &Json| json_clone(v))
}

#[test]
fn test_reactions_of_changes() {
    let table = vec![("/a".to_string(), vec![bind_text(1), bind_text(2)])];
    let changes = vec![("/a".to_string(), text("x")), ("/b".to_string(), text("y"))];
    let reactions = reactions_of(&changes, &table, &|_pipe: &Vec<String>, v: &Json| json_clone(v));
    assert_eq!(reactions, vec![typed(1, "x"), typed(2, "x")]);
    let piped = vec![("/a".to_string(), vec![Binding { params: BindingParams::Text(3, 0), pipe: vec!["upper".to_string()] }])];
    let reactions = reactions_of(&changes, &piped, &|_pipe: &Vec<String>, _v: &Json| text("X"));
    assert_eq!(reactions, vec![typed(3, "X")]);
}

fn typed(node: usize, text: &str) -> Reaction {
    Reaction::Type { node, span: 0, text: text.to_string() }
}

#[test]
fn test_rebind_root_property_with_undefined() {
    let model = obj(vec![("description", Json::Null), ("name", Json::Null)]);
    let [name, desc] = [100, 200];
    let table = BTreeMap::from([
        ("/name".to_string(), vec![bind_text(name)]),
        ("/description".to_string(), vec![bind_text(desc)]),
    ]);
    let mut view_model = view_model_of(&table, model);
    rebind(&mut view_model, &table, &obj(vec![("description", text("Description...")), ("name", text("Name"))]));
    let reactions = rebind(&mut view_model, &table, &obj(vec![("name", text("Alice"))]));
    assert_eq!(reactions, vec![typed(desc, ""), typed(name, "Alice")]);
}

#[test]
fn test_rebind_object_property_with_undefined() {
    let model = obj(vec![("object", obj(vec![("description", Json::Null), ("name", Json::Null)]))]);
    let [name, desc] = [100, 200];
    let table = BTreeMap::from([
        ("/object/name".to_string(), vec![bind_text(name)]),
        ("/object/description".to_string(), vec![bind_text(desc)]),
    ]);
    let mut view_model = view_model_of(&table, model);
    rebind(
        &mut view_model,
        &table,
        &obj(vec![("object", obj(vec![("description", text("Description...")), ("name", text("Name"))]))]),
    );
    let reactions = rebind(&mut view_model, &table, &obj(vec![("object", obj(vec![("name", text("Alice"))]))]));
    assert_eq!(reactions, vec![typed(desc, ""), typed(name, "Alice")]);
}

#[test]
fn test_rebind_object_with_null() {
    let model = obj(vec![("tooltip", obj(vec![("description", Json::Null), ("name", Json::Null)]))]);
    let [parent, node, name, desc] = [100, 200, 300, 400];
    let table = BTreeMap::from([
        ("/tooltip".to_string(), vec![bind_if(parent, node)]),
        ("/tooltip/name".to_string(), vec![bind_text(name)]),
        ("/tooltip/description".to_string(), vec![bind_text(desc)]),
    ]);
    let mut view_model = view_model_of(&table, model);
    rebind(
        &mut view_model,
        &table,
        &obj(vec![("tooltip", obj(vec![("description", text("Description...")), ("name", text("Name"))]))]),
    );
    let reactions = rebind(&mut view_model, &table, &obj(vec![("tooltip", Json::Null)]));
    assert_eq!(
        reactions,
        vec![
            typed(desc, ""),
            typed(name, ""),
            Reaction::Reattach { parent, node, visible: false },
        ]
    );
}

fn names_table(names: usize, names_0: usize, names_1: usize, names_2: usize) -> BTreeMap<String, Vec<Binding>> {
    BTreeMap::from([
        ("/names".to_string(), vec![bind_repeat(names, 3)]),
        ("/names/0".to_string(), vec![bind_text(names_0)]),
        ("/names/1".to_string(), vec![bind_text(names_1)]),
        ("/names/2".to_string(), vec![bind_text(names_2)]),
    ])
}

fn names_model() -> Json {
    obj(vec![("names", Json::Array(vec![Json::Null, Json::Null, Json::Null]))])
}

fn names(values: &[&str]) -> Json {
    obj(vec![("names", Json::Array(values.iter().map(|v| text(v)).collect()))])
}

#[test]
fn test_rebind_simple_array_same_values_reduced_array() {
    let [names_node, names_0, names_1, names_2] = [100, 200, 300, 400];
    let table = names_table(names_node, names_0, names_1, names_2);
    let mut view_model = view_model_of(&table, names_model());
    rebind(&mut view_model, &table, &names(&["Alice", "Boris"]));
    let reactions = rebind(&mut view_model, &table, &names(&["Alice"]));
    assert_eq!(reactions, vec![Reaction::Repeat { parent: names_node, start: 0, cursor: 1, end: 3 }]);
}

#[test]
fn test_rebind_simple_array_new_values() {
    let [names_node, names_0, names_1, names_2] = [100, 200, 300, 400];
    let table = names_table(names_node, names_0, names_1, names_2);
    let mut view_model = view_model_of(&table, names_model());
    rebind(&mut view_model, &table, &names(&["Alice", "Boris"]));
    let reactions = rebind(&mut view_model, &table, &names(&["Carol", "David"]));
    assert_eq!(reactions, vec![typed(names_0, "Carol"), typed(names_1, "David")]);
}

#[test]
fn test_rebind_simple_array_new_values_increased_array() {
    let [names_node, names_0, names_1, names_2] = [100, 200, 300, 400];
    let table = names_table(names_node, names_0, names_1, names_2);
    let mut view_model = view_model_of(&table, names_model());
    rebind(&mut view_model, &table, &names(&["Alice"]));
    let reactions = rebind(&mut view_model, &table, &names(&["Boris", "Carol"]));
    assert_eq!(
        reactions,
        vec![
            Reaction::Repeat { parent: names_node, start: 0, cursor: 2, end: 3 },
            typed(names_0, "Boris"),
            typed(names_1, "Carol"),
        ]
    );
}

fn items_table(items: usize, items_0: usize, items_1: usize, items_2: usize) -> BTreeMap<String, Vec<Binding>> {
    BTreeMap::from([
        ("/items".to_string(), vec![bind_repeat(items, 3)]),
        ("/items/0/name".to_string(), vec![bind_text(items_0)]),
        ("/items/0/id".to_string(), vec![bind_attr(items_0, "id", 0)]),
        ("/items/1/name".to_string(), vec![bind_text(items_1)]),
        ("/items/1/id".to_string(), vec![bind_attr(items_1, "id", 0)]),
        ("/items/2/name".to_string(), vec![bind_text(items_2)]),
        ("/items/2/id".to_string(), vec![bind_attr(items_2, "id", 0)]),
    ])
}

fn item(id: Json, name: Json) -> Json {
    obj(vec![("id", id), ("name", name)])
}

fn items_model() -> Json {
    obj(vec![(
        "items",
        Json::Array(vec![item(Json::Null, Json::Null), item(Json::Null, Json::Null), item(Json::Null, Json::Null)]),
    )])
}

#[test]
fn test_rebind_objects_array_same_values_reduced_array() {
    let [items, items_0, items_1, items_2] = [100, 200, 300, 400];
    let table = items_table(items, items_0, items_1, items_2);
    let mut view_model = view_model_of(&table, items_model());
    rebind(
        &mut view_model,
        &table,
        &obj(vec![("items", Json::Array(vec![item(num(0), text("Alice")), item(num(1), text("Boris"))]))]),
    );
    let reactions = rebind(&mut view_model, &table, &obj(vec![("items", Json::Array(vec![item(num(0), text("Alice"))]))]));
    assert_eq!(reactions, vec![Reaction::Repeat { parent: items, start: 0, cursor: 1, end: 3 }]);
}

#[test]
fn test_rebind_objects_array_new_values_increased_array() {
    let [items, items_0, items_1, items_2] = [100, 200, 300, 400];
    let table = items_table(items, items_0, items_1, items_2);
    let mut view_model = view_model_of(&table, items_model());
    rebind(&mut view_model, &table, &obj(vec![("items", Json::Array(vec![item(num(0), text("Alice"))]))]));
    let reactions = rebind(
        &mut view_model,
        &table,
        &obj(vec![("items", Json::Array(vec![item(num(1), text("Boris")), item(num(2), text("Carol"))]))]),
    );
    assert_eq!(
        reactions,
        vec![
            Reaction::Repeat { parent: items, start: 0, cursor: 2, end: 3 },
            Reaction::Bind { node: items_0, key: "id".to_string(), span: 0, text: "1".to_string() },
            typed(items_0, "Boris"),
            Reaction::Bind { node: items_1, key: "id".to_string(), span: 0, text: "2".to_string() },
            typed(items_1, "Carol"),
        ]
    );
}

#[test]
fn test_value_text_and_truth() {
    assert_eq!(eval_string(&Json::Number(JsonNumber::NegInt(-42))), "-42");
    assert_eq!(eval_string(&Json::Number(JsonNumber::NegInt(i64::MIN))), "-9223372036854775808");
    assert_eq!(eval_string(&Json::Number(JsonNumber::Float("1.5".to_string()))), "1.5");
    assert_eq!(eval_string(&Json::Bool(false)), "false");
    assert_eq!(eval_string(&Json::Array(vec![])), "[array]");
    assert!(!eval_boolean(&Json::Number(JsonNumber::Float("0.0".to_string()))));
    assert!(eval_boolean(&Json::Number(JsonNumber::NegInt(-1))));
    assert!(!eval_boolean(&text("")));
    assert!(eval_boolean(&obj(vec![])));
}

#[test]
fn test_handler_message_shapes() {
    assert_eq!(handler_message(&vec![Some(text("Clicked"))]), text("Clicked"));
    assert_eq!(
        handler_message(&vec![Some(text("Select")), Some(num(3))]),
        obj(vec![("Select", num(3))])
    );
    assert_eq!(
        handler_message(&vec![Some(text("Move")), Some(num(1)), None, Some(num(2))]),
        obj(vec![("Move", Json::Array(vec![num(1), num(2)]))])
    );
    assert_eq!(
        handler_message(&vec![None, Some(num(1))]),
        obj(vec![("Undefined", num(1))])
    );
}

#[test]
fn test_binding_checks() {
    let longer = Json::Array(vec![num(1), num(2)]);
    let shorter = Json::Array(vec![num(1)]);
    assert!(!is_bindable(&longer, &shorter, "/xs", &no_defaults()));
    let defaults = ArrayDefaults { entries: vec![("/xs".to_string(), num(0))] };
    assert!(is_bindable(&longer, &shorter, "/xs", &defaults));
    assert!(is_bindable(&shorter, &longer, "/xs", &no_defaults()));
    assert!(!is_filled(&obj(vec![("a", Json::Array(vec![]))])));
    assert!(is_filled(&obj(vec![("a", Json::Array(vec![num(1)]))])));
}

use bumaga::html::reader::read_html;
use bumaga::view::render::render_bindings;

fn bound(path: &str, params: BindingParams) -> (String, Binding) {
    (path.to_string(), Binding { params, pipe: vec![] })
}

#[test]
fn test_render_bindings_text_repeat_and_img() {
    let template = read_html("<div><span>Hello, {name}</span><p *item=\"2 {items}\">{item.title}</p><img/></div>").unwrap();
    let mut schema = Schema::new();
    let mut locals = vec![];
    let mut table = vec![];
    let (next, children) = render_bindings(&template, 10, &mut schema, &mut locals, &mut table);
    assert_eq!(next, 19);
    assert_eq!(children, vec![11, 13, 15, 17]);
    assert!(locals.is_empty());
    assert_eq!(
        table,
        vec![
            bound("/name", BindingParams::Text(12, 1)),
            bound("/items", BindingParams::Repeat(10, 1, 2)),
            bound("/items/0/title", BindingParams::Text(14, 0)),
            bound("/items/1/title", BindingParams::Text(16, 0)),
        ]
    );
    assert_eq!(
        schema.value,
        obj(vec![
            ("name", Json::Null),
            ("items", Json::Array(vec![obj(vec![("title", Json::Null)]), obj(vec![("title", Json::Null)])])),
        ])
    );
}

#[test]
fn test_render_bindings_alias_and_visibility() {
    let template = read_html("<section +user=\"{people}\"><b ?=\"{user.active}\">{user.name}</b></section>").unwrap();
    let mut schema = Schema::new();
    let mut locals = vec![];
    let mut table = vec![];
    let (next, children) = render_bindings(&template, 0, &mut schema, &mut locals, &mut table);
    assert_eq!(next, 3);
    assert_eq!(children, vec![1]);
    assert!(locals.is_empty());
    assert_eq!(
        table,
        vec![
            bound("/people/name", BindingParams::Text(2, 0)),
            bound("/people/active", BindingParams::Visibility(0, 1, true)),
        ]
    );
    assert_eq!(
        schema.value,
        obj(vec![("people", obj(vec![("active", Json::Null), ("name", Json::Null)]))])
    );
}

#[test]
fn test_render_bindings_keeps_outer_local() {
    let template = read_html("<p *item=\"1 {items}\">{item}</p>").unwrap();
    let mut schema = Schema::new();
    let mut locals = vec![("item".to_string(), "/other".to_string())];
    let mut table = vec![];
    let (next, children) = render_bindings(&template, 0, &mut schema, &mut locals, &mut table);
    assert_eq!(next, 2);
    assert_eq!(children, vec![1]);
    assert_eq!(table, vec![bound("/other", BindingParams::Text(1, 0))]);
    assert_eq!(locals, vec![("item".to_string(), "/other".to_string())]);
}

use bumaga::element::TextContent;
use bumaga::input::Keys;
use bumaga::view::binding::rebind_attribute;
use bumaga::view::form::{handle_option_click, input_char, input_key_up, update_option_selected, SelectOption};
use bumaga::view::reattach::repeat_shown;

#[test]
fn test_repeat_shows_and_hides_items() {
    let definition = vec![1, 2, 3, 4];
    assert_eq!(repeat_shown(&definition, &vec![9, 1], 0, 3, 4), Some(vec![9, 1, 2, 3]));
    assert_eq!(repeat_shown(&definition, &vec![9, 1, 2, 3, 4], 0, 1, 4), Some(vec![9, 1]));
}

#[test]
fn test_rebind_style_attribute_reads_declarations() {
    let mut content = TextContent::new(vec!["width: ".to_string(), "{w}".to_string(), "px;".to_string()]);
    let mut style = vec![];
    let value = rebind_attribute("style", &mut content, 1, "0".to_string(), &mut style);
    assert_eq!(value, "width: 0px;");
    assert_eq!(style.len(), 1);
    let mut other = vec![];
    let value = rebind_attribute("title", &mut content, 1, "5".to_string(), &mut other);
    assert_eq!(value, "width: 5px;");
    assert!(other.is_empty());
}

fn option(node: usize, selected: bool, value: &str) -> SelectOption {
    SelectOption { node, selected, value: value.to_string() }
}

#[test]
fn test_select_one_option() {
    let mut options = vec![option(1, true, "a"), option(2, false, "b"), option(3, false, "c")];
    let changes = handle_option_click(&mut options, 2, false);
    assert_eq!(changes, vec![text("b")]);
    assert_eq!(options, vec![option(1, false, "a"), option(2, true, "b"), option(3, false, "c")]);
}

#[test]
fn test_click_on_a_node_that_is_no_option() {
    let mut options = vec![option(1, true, "a"), option(2, false, "b")];
    let changes = handle_option_click(&mut options, 7, false);
    assert!(changes.is_empty());
    assert_eq!(options, vec![option(1, true, "a"), option(2, false, "b")]);
}

#[test]
fn test_select_several_options() {
    let mut options = vec![option(1, true, "a"), option(2, false, "b"), option(3, false, "c")];
    let changes = update_option_selected(&mut options, 3, true, true);
    assert_eq!(changes, vec![Json::Array(vec![text("a"), text("c")])]);
    let changes = update_option_selected(&mut options, 1, false, false);
    assert!(changes.is_empty());
    assert_eq!(options, vec![option(1, false, "a"), option(2, false, "b"), option(3, true, "c")]);
}

#[test]
fn test_text_input_keys() {
    assert_eq!(input_char(true, &"ab".to_string(), 'c'), Some("abc".to_string()));
    assert_eq!(input_char(false, &"ab".to_string(), 'c'), None);
    assert_eq!(input_key_up(true, &"ab".to_string(), Keys::Backspace), (None, Some("a".to_string())));
    assert_eq!(input_key_up(true, &"ab".to_string(), Keys::Enter), (Some("ab".to_string()), None));
    assert_eq!(input_key_up(true, &"".to_string(), Keys::Backspace), (None, None));
}

use bumaga::css::{Declaration, Definition, Property, PropertyKey, ComputedValue};
use bumaga::view::parts::{element_parts, Listener, ListenerArgument};

#[test]
fn test_element_parts_keep_attributes_listeners_and_style() {
    let template = read_html(
        r#"<div title="plain" style="width: 0;" @alt="top: {pivot.x}px;" @role="{fixed}" ^onclick="Select {item.name} $event"></div>"#,
    )
    .expect("valid");
    let locals = vec![("item".to_string(), "/items/3".to_string())];
    let parts = element_parts(&template.bindings, &locals);
    let attr = |k: &str| parts.attrs.iter().find(|(key, _)| key == k).map(|(_, v)| v.clone());
    assert_eq!(attr("title"), Some("plain".to_string()));
    assert_eq!(attr("style"), Some("width: 0;".to_string()));
    assert_eq!(attr("alt"), Some("top: { pivot.x }px;".to_string()));
    assert_eq!(attr("role"), Some("{ fixed }".to_string()));
    assert_eq!(parts.texts.len(), 2);
    assert_eq!(parts.texts[0].0, "alt");
    assert_eq!(parts.texts[0].1.to_string(), "top: { pivot.x }px;");
    assert_eq!(
        parts.listeners,
        vec![(
            "onclick".to_string(),
            Listener {
                arguments: vec![
                    ListenerArgument::Keyword("Select".to_string()),
                    ListenerArgument::Pointer("/items/3/name".to_string(), vec![]),
                    ListenerArgument::Event,
                ]
            }
        )]
    );
    assert_eq!(
        parts.style,
        vec![Declaration::Property(Property {
            key: PropertyKey::Width,
            values: vec![vec![Definition::Explicit(ComputedValue::Zero)]]
        })]
    );
}

#[test]
fn test_element_parts_later_attribute_wins() {
    let template = read_html(r#"<div title="a" title="b"></div>"#).expect("valid");
    let parts = element_parts(&template.bindings, &vec![]);
    assert_eq!(parts.attrs, vec![("title".to_string(), "b".to_string())]);
}

use bumaga::view::emit::{emit, value_at_pointer};

fn emit_model() -> Json {
    obj(vec![
        ("items", Json::Array(vec![obj(vec![("name", text("a"))]), obj(vec![("name", text("b"))])])),
        ("a/b", num(5)),
    ])
}

#[test]
fn test_value_at_pointer() {
    let model = emit_model();
    assert_eq!(value_at_pointer(&model, "/items/1/name"), Some(text("b")));
    assert_eq!(value_at_pointer(&model, "/a~1b"), Some(num(5)));
    assert_eq!(value_at_pointer(&model, "/items/01"), None);
    assert_eq!(value_at_pointer(&model, "/items/2"), None);
    assert_eq!(value_at_pointer(&model, "items"), None);
    assert_eq!(value_at_pointer(&model, ""), Some(emit_model()));
}

#[test]
fn test_emit_sends_listener_message() {
    let template = read_html(r#"<button ^onclick="Select {item.name} $event"></button>"#).expect("valid");
    let locals = vec![("item".to_string(), "/items/1".to_string())];
    let parts = element_parts(&template.bindings, &locals);
    let model = emit_model();
    let same = |_pipe: &Vec<String>, v: &Json| json_clone(v);
    let message = emit(&parts.listeners, "onclick", &model, &Some(num(7)), &same);
    assert_eq!(message, Some(obj(vec![("Select", Json::Array(vec![text("b"), num(7)]))])));
    assert_eq!(emit(&parts.listeners, "onhover", &model, &Some(num(7)), &same), None);
    // an argument that leads nowhere is left out
    let nowhere = vec![("item".to_string(), "/items/9".to_string())];
    let parts = element_parts(&template.bindings, &nowhere);
    let message = emit(&parts.listeners, "onclick", &model, &Some(num(7)), &same);
    assert_eq!(message, Some(obj(vec![("Select", num(7))])));
}

#[test]
fn test_fresh_view_model_binds_its_model_to_nothing() {
    let model = obj(vec![("a", num(1)), ("list", Json::Array(vec![num(0), num(2)]))]);
    let mut view_model = ViewModel::create(bindings(&["/a", "/list", "/list/1"]), model);
    let again = obj(vec![("a", num(1)), ("list", Json::Array(vec![num(0), num(2)]))]);
    assert!(view_model.bind(&again).is_empty());
}

use bumaga::view::model::is_well_formed;

#[test]
fn test_well_formed_values() {
    assert!(is_well_formed(&obj(vec![("a", num(1)), ("b", Json::Array(vec![obj(vec![("c", num(2))])]))])));
    assert!(!is_well_formed(&obj(vec![("a", num(1)), ("a", num(2))])));
    assert!(!is_well_formed(&Json::Array(vec![num(0), obj(vec![("x", num(1)), ("x", num(1))])])));
}
