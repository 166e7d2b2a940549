use gpui_shell::apply::{
    apply, apply_param_style, attach, begin_state, fill_slot, finish_call, record_style,
    registered_component_id, registered_method_descriptor, AfterCall, Applied, ApplyOutcome,
    MethodDescriptor, MethodFacts, RegisteredComponent, StyleOutcome,
};
use gpui_shell::arena::{
    constructor, indexed_constructor, text_constructor, Axis, BackgroundKind, Component, ItemSize,
    ListKind, SpecArena, SpecOp, TemporarySpecArena, TextViewFormat,
};
use gpui_shell::argument::{Arguments, Bridged, BridgedList, StyleArgument};
use gpui_shell::callbacks::CallbackArena;
use gpui_shell::calls::PayloadDraft;
use gpui_shell::constructors::{
    check_path_extents, date_picker_constructor, item_extents, item_key_resolver, item_renderer,
    item_sizes, list_constructor, module_component_constructor, page_count, pagination_items,
    path_constructor, text_view_constructor, virtual_list_constructor, ItemExtents, PaginationEntry,
    PaginationItem, PathValue, MAX_VIRTUAL_ITEMS_PER_RENDER,
};
use gpui_shell::data::no_marks;
use gpui_shell::error::{ErrorKind, Fault};
use gpui_shell::number::Number;
use gpui_shell::schema::ComponentArgument;
use gpui_shell::scope::{HostScope, ScopePhase};
use gpui_shell::states::RetainedStates;
use gpui_shell::value::{Prototype, ScriptMarks, ScriptObject, ScriptValue};

const RENDER: HostScope =
    HostScope { phase: Some(ScopePhase::Render), policy: Some(1), application: None, view: Some(2) };
const LAYOUT: HostScope =
    HostScope { phase: Some(ScopePhase::Layout), policy: Some(1), application: None, view: Some(2) };

fn number(value: f64) -> Number {
    Number { wide: value.to_bits(), narrow: (value as f32).to_bits() }
}

fn arguments(items: Vec<ScriptValue>) -> Arguments {
    Arguments::from_js(&ScriptValue::Array { slot: None, items })
        .unwrap_or_else(|_| panic!("arguments"))
}

fn text(value: &str) -> ScriptValue {
    ScriptValue::Text(value.to_owned())
}

struct Page {
    arena: SpecArena,
    functions: CallbackArena,
    registry: Vec<RegisteredComponent>,
    roles: Vec<String>,
}

impl Page {
    fn new() -> Self {
        let mut functions = CallbackArena::new();
        functions.begin();
        Page {
            arena: SpecArena::new(),
            functions,
            registry: vec![RegisteredComponent {
                id: 30,
                methods: vec![
                    MethodDescriptor { name: "loading".to_owned(), arguments: Vec::new() },
                    MethodDescriptor { name: "on_click".to_owned(), arguments: Vec::new() },
                    MethodDescriptor { name: "disabled".to_owned(), arguments: Vec::new() },
                ],
            }],
            roles: vec!["button".to_owned()],
        }
    }

    fn call(
        &mut self,
        id: u32,
        method: &str,
        items: Vec<ScriptValue>,
        scope: &HostScope,
    ) -> Result<ApplyOutcome, String> {
        let facts = MethodFacts {
            nullary: if method == "flex" { Some(7) } else { None },
            parametric: method == "bg",
            roles: &self.roles,
            suggestion: None,
        };
        let arguments = arguments(items);
        apply(
            &mut self.arena,
            &mut self.functions,
            &self.registry,
            id,
            method,
            &arguments,
            &facts,
            scope,
            Some(9),
        )
        .map_err(|error| error.message())
    }

    fn refusal(&mut self, id: u32, method: &str, items: Vec<ScriptValue>) -> String {
        match self.call(id, method, items, &RENDER) {
            Ok(_) => panic!("the call is refused"),
            Err(message) => message,
        }
    }

    fn ops(&self, id: u32) -> usize {
        self.arena.node(id).map_or(0, |node| node.ops.len())
    }
}

#[test]
fn an_element_is_shown_in_one_place() {
    let mut arena = SpecArena::new();
    let parent = arena.push(Component::Div);
    let child = arena.push(Component::Div);
    assert!(attach(&mut arena, parent, child).is_ok());
    let other = arena.push(Component::Div);
    assert!(attach(&mut arena, other, child).is_err());
    assert!(arena.check_live(child).is_ok());
    assert!(arena.check_live(99).is_err());
    assert!(arena.ensure_claimable(child).is_err());
}

#[test]
fn a_resizable_panel_belongs_to_a_group() {
    let mut arena = SpecArena::new();
    let group = arena.push(Component::Resizable("split".to_owned(), Axis::Vertical));
    let panel = arena.push(Component::ResizablePanel);
    let div = arena.push(Component::Div);
    let error = attach(&mut arena, div, panel).err().expect("a panel outside a group");
    assert!(error.message().starts_with("resizable_panel() belongs to an h_resizable()"));
    assert!(attach(&mut arena, group, panel).is_ok());
}

#[test]
fn a_description_can_be_made_apart_from_another() {
    let mut arena = SpecArena::new();
    arena.push(Component::Div);
    let temporary = TemporarySpecArena::enter(&mut arena);
    assert_eq!(arena.len(), 0);
    arena.push(Component::HFlex);
    arena.push(Component::HFlex);
    let made = temporary.finish(&mut arena);
    assert_eq!((made.len(), arena.len()), (2, 1));
}

#[test]
fn constructors_are_found_by_their_names() {
    assert!(matches!(constructor("__div"), Some(Component::Div)));
    assert!(constructor("__nothing").is_none());
    assert!(matches!(
        text_constructor("__button", "ok".to_owned()),
        Some(Component::Button(id)) if id == "ok"
    ));
    assert!(matches!(
        text_constructor("__h_resizable", "a".to_owned()),
        Some(Component::Resizable(_, Axis::Horizontal))
    ));
    assert!(text_constructor("__div", String::new()).is_none());
    assert!(matches!(
        indexed_constructor("__table_row", "r".to_owned(), 4),
        Some(Component::TableRow(_, 4))
    ));
}

#[test]
fn a_handler_is_registered_and_recorded() {
    let mut page = Page::new();
    let id = page.arena.push(Component::Button("ok".to_owned()));
    assert!(page.call(id, "on_click", vec![ScriptValue::Function(5)], &RENDER).is_ok());
    let callback = match page.arena.node(id).map(|node| &node.ops[0]) {
        Some(SpecOp::Callback(name, callback)) if name == "on_click" => *callback,
        _ => panic!("a handler is recorded"),
    };
    page.functions.commit();
    let entry = page.functions.get(callback).expect("a handler is registered");
    assert_eq!((entry.value, entry.view, entry.registered_in), (5, Some(2), Some(9)));
    assert_eq!(
        page.refusal(id, "on_click", vec![text("x")]),
        "on_click(handler) expects a function"
    );
}

#[test]
fn rows_register_no_handlers() {
    let mut page = Page::new();
    let id = page.arena.push(Component::Div);
    for method in ["on_click", "on_mouse_down", "on_action"] {
        let items = vec![text("left"), ScriptValue::Function(5)];
        let message = page.call(id, method, items, &LAYOUT).err().expect("a row");
        assert!(message.contains("cannot be registered from a virtual list's item renderer"));
    }
    assert_eq!(page.ops(id), 0);
    assert_eq!(page.functions.checkpoint(), 0);
}

#[test]
fn mouse_and_action_handlers_have_a_first_argument() {
    let mut page = Page::new();
    let id = page.arena.push(Component::Div);
    let handler = || ScriptValue::Function(5);
    assert!(page.call(id, "on_mouse_down", vec![text("right"), handler()], &RENDER).is_ok());
    assert!(matches!(
        page.arena.node(id).map(|node| &node.ops[0]),
        Some(SpecOp::Callback(name, _)) if name == "on_mouse_down_right"
    ));
    assert_eq!(
        page.refusal(id, "on_mouse_up", vec![text("side"), handler()]),
        "`side` is not a mouse button; expected \"left\", \"right\" or \"middle\""
    );
    assert!(page.refusal(id, "on_mouse_up", vec![handler()]).contains("expects a button first"));
    assert!(page.refusal(id, "on_mouse_up", vec![text("left")]).contains("a function second"));
    assert!(page.call(id, "on_action", vec![text("save"), handler()], &RENDER).is_ok());
    assert!(page.refusal(id, "on_action", vec![text(""), handler()]).contains("non-empty string"));
    assert!(page.refusal(id, "on_action", vec![text("a")]).contains("expects a function second"));
}

#[test]
fn children_and_slots_take_elements() {
    let mut page = Page::new();
    let id = page.arena.push(Component::Popover("p".to_owned()));
    let child = page.arena.push(Component::Div);
    let trigger = page.arena.push(Component::Div);
    assert!(page
        .call(id, "child", vec![ScriptValue::Number(number(child as f64))], &RENDER)
        .is_ok());
    assert_eq!(page.refusal(id, "child", vec![text("x")]), "child(element) expects an element");
    assert!(page
        .call(id, "trigger", vec![ScriptValue::Number(number(trigger as f64))], &RENDER)
        .is_ok());
    assert_eq!(
        page.refusal(id, "trigger", Vec::new()),
        "trigger(element) expects an element"
    );
    assert!(fill_slot(&mut page.arena, id, "nowhere", trigger).is_err());
}

#[test]
fn state_styles_are_collected_in_an_element_of_their_own() {
    let mut arena = SpecArena::new();
    let id = arena.push(Component::Div);
    let node = begin_state(&mut arena, id, "hover").unwrap_or_else(|_| panic!("a state"));
    assert!(matches!(
        arena.node(id).map(|node| &node.ops[0]),
        Some(SpecOp::StateStyle(name, found)) if name == "hover" && *found == node
    ));
    let error = begin_state(&mut arena, id, "visited").err().expect("no such state");
    assert!(error.message().starts_with("unknown state style `visited`"));
}

#[test]
fn styles_and_properties_are_recorded() {
    let mut page = Page::new();
    let id = page.arena.push(Component::Div);
    assert!(matches!(page.call(id, "flex", Vec::new(), &RENDER), Ok(ApplyOutcome::Recorded)));
    let values = match page.call(id, "bg", vec![text("red")], &RENDER) {
        Ok(ApplyOutcome::Style(values)) => values,
        _ => panic!("a style is checked first"),
    };
    assert!(record_style(&mut page.arena, id, "bg", values, None).is_ok());
    let values = BridgedList::of_one(Bridged::Str("no color".to_owned()));
    let error = record_style(&mut page.arena, id, "bg", values, Some("`no color` is no color"));
    assert_eq!(error.err().map(|error| error.message()), Some("`no color` is no color".to_owned()));
    assert!(page.call(id, "id", vec![text("main")], &RENDER).is_ok());
    assert!(page.call(id, "move_to", vec![ScriptValue::Number(number(1.0))], &RENDER).is_ok());
    assert!(page.refusal(id, "id", Vec::new()).starts_with("id(name) expects a string"));
    assert!(page.refusal(id, "close_tile", Vec::new()).starts_with("close_tile(...) expects"));
    assert!(page.refusal(id, "frobnicate", Vec::new()).starts_with("unknown element method"));
    assert_eq!(page.ops(id), 4);
}

#[test]
fn registered_components_have_the_methods_they_declare() {
    let mut page = Page::new();
    let component =
        Component::Registered { component_id: 30, name: "Button".to_owned(), payload: 0 };
    let id = page.arena.push(component);
    assert_eq!(registered_component_id(&page.arena, id), Some(30));
    assert_eq!(
        registered_method_descriptor(&page.arena, &page.registry, id, "on_click"),
        Some((0, 1))
    );
    assert!(matches!(
        page.call(id, "loading", Vec::new(), &RENDER),
        Ok(ApplyOutcome::Call { component: 0, method: 0, after: AfterCall::Method })
    ));
    assert!(matches!(
        page.call(id, "on_click", Vec::new(), &RENDER),
        Ok(ApplyOutcome::Call { component: 0, method: 1, after: AfterCall::Click })
    ));
    assert!(matches!(
        page.call(id, "disabled", Vec::new(), &RENDER),
        Ok(ApplyOutcome::Call { component: 0, method: 2, after: AfterCall::Property })
    ));
    assert!(page.refusal(id, "selected", Vec::new()).starts_with("unknown element method"));
    assert!(page.refusal(id, "flex", Vec::new()).starts_with("unknown element method"));
    let slot = ScriptObject {
        marks: ScriptMarks { slot: Some(number(0.0)), ..no_marks() },
        promise: false,
        prototype: Prototype::Ordinary,
        symbols: false,
        properties: Vec::new(),
    };
    assert!(page
        .refusal(id, "loading", vec![ScriptValue::Object(slot)])
        .contains("cannot take a template argument yet"));
}

#[test]
fn a_call_on_a_component_is_recorded_as_what_it_is() {
    let mut page = Page::new();
    let mut states = RetainedStates::new(1);
    let id = page.arena.push(Component::Div);
    let inner = page.arena.push(Component::Div);
    let roles = Vec::new();
    let facts = MethodFacts { nullary: None, parametric: false, roles: &roles, suggestion: None };
    let flag = arguments(vec![ScriptValue::Boolean(true)]);
    let mut finish = |method: &str, next: AfterCall, draft: PayloadDraft, made: Result<u64, String>| {
        finish_call(
            &mut page.arena,
            &mut page.functions,
            &mut states,
            &draft,
            made,
            next,
            id,
            method,
            &flag,
            &facts,
            &RENDER,
            None,
        )
        .map_err(|error| error.message())
    };
    let draft = |arguments: Vec<ComponentArgument>, elements: Vec<u32>| PayloadDraft {
        arguments,
        elements,
        checkpoint: 0,
    };

    let one = draft(vec![ComponentArgument::Callback(4)], Vec::new());
    assert!(matches!(finish("on_click", AfterCall::Click, one, Ok(7)), Ok(Applied::Recorded)));
    let none = draft(Vec::new(), Vec::new());
    assert_eq!(
        finish("on_click", AfterCall::Click, none, Ok(7)).err(),
        Some("on_click descriptor must declare exactly one callback argument".to_owned())
    );
    let none = draft(Vec::new(), Vec::new());
    assert!(finish("loading", AfterCall::Method, none, Ok(7)).is_ok());
    let none = draft(Vec::new(), Vec::new());
    assert!(finish("disabled", AfterCall::Property, none, Ok(7)).is_ok());
    let none = draft(Vec::new(), Vec::new());
    assert_eq!(
        finish("loading", AfterCall::Method, none, Err("too busy".to_owned())).err(),
        Some("too busy".to_owned())
    );
    let taken = draft(vec![ComponentArgument::Element(inner)], vec![inner]);
    assert!(finish("icon", AfterCall::Method, taken, Ok(8)).is_ok());
    let taken = draft(vec![ComponentArgument::Element(inner)], vec![inner]);
    assert!(finish("icon", AfterCall::Method, taken, Ok(8)).is_err());

    let ops = &page.arena.node(id).expect("an element").ops;
    assert_eq!(ops.len(), 4);
    assert!(matches!(&ops[0], SpecOp::Callback(name, 4) if name == "on_click"));
    assert!(matches!(&ops[1], SpecOp::RegisteredMethod(name, 7) if name == "loading"));
    assert!(matches!(&ops[2], SpecOp::Method(name, _) if name == "disabled"));
    assert!(matches!(&ops[3], SpecOp::RegisteredMethod(name, 8) if name == "icon"));
}

#[test]
fn a_parametric_style_takes_one_argument() {
    let mut arena = SpecArena::new();
    let id = arena.push(Component::Div);
    let value = || Some(StyleArgument::Value(Bridged::Str("red".to_owned())));
    assert!(matches!(
        apply_param_style(&mut arena, id, Some("bg"), value(), "missing"),
        Ok(StyleOutcome::Check(_))
    ));
    assert!(matches!(
        apply_param_style(&mut arena, id, Some("bg"), Some(StyleArgument::Slot(3)), "missing"),
        Ok(StyleOutcome::Slot(3))
    ));
    let mut refusal = |name: Option<&str>, value: Option<StyleArgument>| {
        apply_param_style(&mut arena, id, name, value, "bg(color) needs a value")
            .err()
            .expect("refused")
            .message()
    };
    assert_eq!(refusal(None, value()), "unknown element method");
    assert_eq!(refusal(Some("bg"), Some(StyleArgument::Handler)), "`bg` does not take a function");
    assert_eq!(refusal(Some("bg"), None), "bg(color) needs a value");
}

#[test]
fn a_list_knows_the_sizes_of_its_items() {
    let mut page = Page::new();
    let uniform = ItemExtents::Uniform(number(20.0));
    let id = virtual_list_constructor(
        &mut page.arena,
        &mut page.functions,
        &RENDER,
        Some(9),
        true,
        "rows",
        Axis::Vertical,
        2,
        &uniform,
        5,
        6,
    )
    .unwrap_or_else(|_| panic!("a list"));
    let height = 20.0f32.to_bits();
    match page.arena.node(id).map(|node| &node.component) {
        Some(Component::VirtualList { sizes, get_key, render, .. }) => {
            assert_eq!(sizes.len(), 2);
            assert_eq!(sizes[1].height, height);
            assert_ne!(get_key, render);
        }
        _ => panic!("a list"),
    }
    let two = ItemExtents::PerItem(vec![number(1.0), number(2.0)]);
    let error = virtual_list_constructor(
        &mut page.arena,
        &mut page.functions,
        &RENDER,
        None,
        true,
        "rows",
        Axis::Horizontal,
        3,
        &two,
        5,
        6,
    )
    .err()
    .expect("sizes are missing");
    assert!(error.message().starts_with("this list was given 2 item sizes for 3 items"));
}

#[test]
fn an_item_has_a_size_of_some_pixels() {
    let negative = ItemExtents::Uniform(number(-1.0));
    let error = item_sizes(Axis::Vertical, 2, &negative).err().expect("a size below zero");
    assert_eq!(
        error.message(),
        "every item size must be a finite, non-negative number of pixels"
    );
    let sizes = item_sizes(Axis::Horizontal, 1, &ItemExtents::PerItem(vec![number(3.0)]));
    let expected = ItemSize { width: 3.0f32.to_bits(), height: 0 };
    assert!(matches!(sizes, Ok(sizes) if sizes == [expected]));
}

#[test]
fn lists_stay_within_the_item_limit() {
    let mut page = Page::new();
    let mut list = |count: usize, scope: &HostScope, alive: bool| {
        list_constructor(
            &mut page.arena,
            &mut page.functions,
            scope,
            None,
            alive,
            "rows",
            ListKind::Uniform,
            count,
            5,
            6,
        )
        .map_err(|error| error.message())
    };
    assert!(list(MAX_VIRTUAL_ITEMS_PER_RENDER, &RENDER, true).is_ok());
    assert_eq!(
        list(1, &RENDER, true),
        Err("the lists in one render may describe at most 1000000 items in total".to_owned())
    );
    assert!(list(0, &RENDER, true).is_ok());
    assert!(list(0, &LAYOUT, true).unwrap_err().starts_with("a list cannot be built from inside"));
    assert_eq!(
        list(0, &RENDER, false),
        Err("the shell runtime has already shut down".to_owned())
    );
}

#[test]
fn item_sizes_are_numbers_of_pixels() {
    assert!(matches!(
        item_extents(&ScriptValue::Number(number(4.0)), 10, ""),
        Ok(ItemExtents::Uniform(_))
    ));
    let list = |items: Vec<ScriptValue>| ScriptValue::Array { slot: None, items };
    let sizes = list(vec![ScriptValue::Number(number(1.0)), ScriptValue::Number(number(0.0))]);
    assert!(matches!(
        item_extents(&sizes, 10, ""),
        Ok(ItemExtents::PerItem(sizes)) if sizes.len() == 2
    ));
    let message =
        |value: ScriptValue| item_extents(&value, 10, "string").err().expect("refused").message();
    assert_eq!(
        message(list(vec![ScriptValue::Number(number(1.0)), text("x")])),
        "Error converting from js 'string' into type 'f64'"
    );
    assert_eq!(
        message(list((0..11).map(|_| ScriptValue::Number(number(1.0))).collect())),
        "item_sizes may contain at most 10 entries"
    );
    assert_eq!(message(list(vec![ScriptValue::Raised("no number".to_owned())])), "no number");
    assert_eq!(message(text("x")), "item_sizes must be a number or an array of numbers");
    assert_eq!(
        message(ScriptValue::TooLong("too long".to_owned())),
        "item_sizes may contain at most 10 entries"
    );
    assert!(matches!(item_renderer(&ScriptValue::Function(3)), Ok(3)));
    assert!(matches!(item_renderer(&ScriptValue::Null), Err(Fault::ItemRenderer)));
    assert!(matches!(item_key_resolver(&ScriptValue::Null), Err(Fault::ItemKeyResolver)));
}

#[test]
fn text_views_are_html_or_markdown() {
    assert!(matches!(
        text_view_constructor("a".to_owned(), "b".to_owned(), "markdown"),
        Ok(Component::TextView { format: TextViewFormat::Markdown, .. })
    ));
    assert!(matches!(
        text_view_constructor("a".to_owned(), "b".to_owned(), "pdf"),
        Err(Fault::TextViewFormat)
    ));
}

#[test]
fn some_constructors_look_at_what_they_are_given() {
    assert!(matches!(
        date_picker_constructor("d".to_owned(), 4, true),
        Ok(Component::DatePicker(_, 4))
    ));
    assert!(matches!(
        date_picker_constructor("d".to_owned(), 4, false),
        Err(Fault::DatePickerFocus)
    ));
    let module = |id: &str, refusal: Option<&str>| {
        module_component_constructor(
            "host".to_owned(),
            "Chart".to_owned(),
            id.to_owned(),
            1,
            2,
            refusal,
        )
        .map_err(|error| (error.kind(), error.message()))
    };
    assert!(module("chart", None).is_ok());
    assert_eq!(
        module("", None).err(),
        Some((ErrorKind::Type, "a component needs a non-empty string id".to_owned()))
    );
    assert_eq!(
        module("chart", Some("no module `host`")).err(),
        Some((ErrorKind::Message, "no module `host`".to_owned()))
    );
}

#[test]
fn a_path_has_a_width_and_an_opacity() {
    assert_eq!(check_path_extents(number(0.5), number(1.0)), Ok(()));
    assert_eq!(check_path_extents(number(-1.0), number(f64::NAN)), Err(Fault::PathWidth));
    assert_eq!(check_path_extents(number(-1.0), number(0.0)), Err(Fault::PathOpacity));
}

#[test]
fn a_path_is_filled_with_a_background() {
    let value = |content: &str| PathValue {
        content: content.to_owned(),
        single: content.parse::<f32>().ok().map(f32::to_bits),
    };
    let path = |kind: &str, values: Vec<PathValue<String>>, opacity: f64, width: f64| {
        path_constructor(true, kind, &values, number(opacity), "oklab".to_owned(), number(width))
    };
    assert!(matches!(
        path("solid", vec![value("red")], 1.0, 2.0),
        Ok(Component::Path { background: BackgroundKind::Solid { color }, .. }) if color == "red"
    ));
    let gradient = vec![value("90"), value("red"), value("0"), value("blue"), value("1")];
    assert!(matches!(
        path("linear-gradient", gradient, 1.0, 2.0),
        Ok(Component::Path { background: BackgroundKind::LinearGradient { to, .. }, .. })
            if to == "blue"
    ));
    let refused = [
        (path("solid", Vec::new(), 1.0, 2.0), Fault::SolidColor),
        (path("solid", vec![value("red")], -1.0, 2.0), Fault::PathOpacity),
        (path("solid", vec![value("red")], 1.0, f64::NAN), Fault::PathWidth),
        (path("plaid", Vec::new(), 1.0, 2.0), Fault::PathKind),
        (path("linear-gradient", vec![value("x")], 1.0, 2.0), Fault::GradientAngle),
        (path("pattern-slash", vec![value("red")], 1.0, 2.0), Fault::SlashWidth),
        (path("checkerboard", vec![value("red")], 1.0, 2.0), Fault::CheckerboardSize),
    ];
    for (outcome, expected) in refused {
        assert!(matches!(outcome, Err(fault) if fault == expected));
    }
}

#[test]
fn pages_are_counted_in_whole_numbers() {
    assert!(matches!(page_count(number(7.9)), Ok(7)));
    assert!(matches!(page_count(number(-1.0)), Err(Fault::Pagination)));
    assert!(matches!(page_count(number(f64::NAN)), Err(Fault::Pagination)));
    let items = vec![PaginationItem::Page(1), PaginationItem::Ellipsis { start: 2, end: 9 }];
    let entries = pagination_items(&items);
    assert_eq!(entries, [PaginationEntry::Page(1), PaginationEntry::Ellipsis(2, 8)]);
}

