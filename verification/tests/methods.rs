use gpui_shell::apply::{installed_behaviors, MethodDescriptor, RegisteredComponent};
use gpui_shell::argument::{Bridged, BridgedList};
use gpui_shell::error::ErrorKind;
use gpui_shell::methods::{
    callback_op_name, check_property, finite_number, finite_whole_number, href_allowed,
    is_common_behavior, is_dock_command, is_path_command, is_property, is_slot_method,
    is_state_style, mouse_op_name, registered_common_behaviors, unknown_error, unknown_method,
};
use gpui_shell::number::Number;

fn number(value: f64) -> Number {
    Number { wide: value.to_bits(), narrow: (value as f32).to_bits() }
}

#[test]
fn the_declarations_withhold_exactly_the_behaviors_the_engine_gates() {
    assert_eq!(registered_common_behaviors(), ["disabled", "selected", "on_click"]);
}

#[test]
fn a_behavior_is_gated_exactly_if_it_is_listed() {
    for name in registered_common_behaviors() {
        assert!(is_common_behavior(&name));
    }
    assert!(!is_common_behavior("on_change"));
}

#[test]
fn methods_are_told_apart_by_name() {
    assert!(is_slot_method("trigger"));
    assert!(!is_slot_method("disabled"));
    assert!(is_state_style("hover"));
    assert!(is_state_style("caret_style"));
    assert!(!is_state_style("hovered"));
    assert!(is_path_command("move_to"));
    assert!(!is_path_command("on_click"));
    assert!(is_dock_command("close_tile"));
    assert!(is_property("aria_level"));
    assert!(!is_property("on_click"));
}

#[test]
fn handlers_are_recorded_under_their_own_names() {
    assert_eq!(callback_op_name("on_click"), Some("on_click"));
    assert_eq!(callback_op_name("on_dismiss"), Some("on_dismiss"));
    assert_eq!(callback_op_name("bg"), None);
}

#[test]
fn mouse_handlers_are_recorded_with_their_button() {
    assert_eq!(mouse_op_name("on_mouse_down", "left"), Some("on_mouse_down_left"));
    assert_eq!(mouse_op_name("on_mouse_up", "right"), Some("on_mouse_up_right"));
    assert_eq!(mouse_op_name("on_mouse_down", "side"), None);
}

#[test]
fn an_unknown_method_names_a_candidate_where_there_is_one() {
    assert_eq!(
        unknown_method("on_clik", Some("on_click")),
        "unknown element method `on_clik` (did you mean `on_click`?)"
    );
    assert_eq!(
        unknown_method("zzz", None),
        "unknown element method `zzz`; it is neither a style method nor one of child, children, \
         when, on_click, on_change, disabled, selected, checked, overflow_scroll, \
         overflow_x_scroll, overflow_y_scroll, overflow_scrollbar, overflow_x_scrollbar, \
         overflow_y_scrollbar"
    );
    assert_eq!(unknown_error("zzz", None).kind(), ErrorKind::Type);
}

#[test]
fn links_lead_to_the_web_only() {
    assert!(href_allowed("https://example.org/path?x=1"));
    assert!(href_allowed("HTTP://example.org"));
    assert!(!href_allowed("javascript:alert(1)"));
    assert!(!href_allowed("file:///etc/passwd"));
    assert!(!href_allowed("not a link"));
    assert!(!href_allowed("https://"));
}

#[test]
fn only_finite_numbers_are_numbers() {
    let values = BridgedList::of_one(Bridged::Number(number(2.5)));
    assert_eq!(finite_number(&values, 0), Some(number(2.5)));
    assert_eq!(finite_whole_number(&values, 0), None);
    assert_eq!(finite_number(&values, 1), None);
    let whole = BridgedList::of_one(Bridged::Number(number(-4.0)));
    assert_eq!(finite_whole_number(&whole, 0), Some(number(-4.0)));
    let infinite = BridgedList::of_one(Bridged::Number(number(f64::INFINITY)));
    assert_eq!(finite_number(&infinite, 0), None);
    let large = BridgedList::of_one(Bridged::Number(number(1e300)));
    assert_eq!(finite_number(&large, 0), None);
    let text = BridgedList::of_one(Bridged::Str("4".to_owned()));
    assert_eq!(finite_number(&text, 0), None);
}

#[test]
fn properties_are_checked_where_they_are_recorded() {
    let roles = vec!["button".to_owned(), "list".to_owned()];
    let good = BridgedList::of_one(Bridged::Str("button".to_owned()));
    assert!(check_property("role", &good, &roles).is_none());
    let bad = BridgedList::of_one(Bridged::Str("robot".to_owned()));
    let error = check_property("role", &bad, &roles).expect("an unknown role is refused");
    assert_eq!(error.kind(), ErrorKind::Type);
    assert!(error.message().contains("robot"));
    let unlisted = BridgedList::of_one(Bridged::Str("generic_container".to_owned()));
    let filtered = check_property("role", &unlisted, &roles).expect("a filtered role is refused");
    assert!(filtered.message().contains("announces nothing"));
    let half = BridgedList::of_one(Bridged::Number(number(1.5)));
    let between = check_property("tab_index", &half, &roles).expect("half a place is none");
    assert_eq!(between.message(), "tab_index(index) expects a whole number");
    let one = BridgedList::of_one(Bridged::Number(number(1.0)));
    assert!(check_property("tab_index", &one, &roles).is_none());
    assert!(check_property("value", &half, &roles).is_none());
    let count = check_property("row_count", &half, &roles).expect("half a row is none");
    assert_eq!(count.message(), "row_count(count) expects a non-negative whole finite number");
    let link = BridgedList::of_one(Bridged::Str("ftp://example.org".to_owned()));
    let refused = check_property("href", &link, &roles).expect("a link leads to the web");
    assert_eq!(refused.message(), "href(url) expects an absolute HTTP(S) URL with a host");
    let position = check_property("set_position", &one, &roles).expect("a size is missing");
    assert_eq!(
        position.message(),
        "set_position(position, size) expects whole finite numbers with 1 <= position <= size"
    );
    let range = check_property("size_range", &good, &roles).expect("a text is no size");
    assert_eq!(range.kind(), ErrorKind::Range);
    assert!(check_property("size_range", &one, &roles).is_none());
    assert!(check_property("id", &one, &roles).is_some());
    assert!(check_property("tooltip", &one, &roles).is_some());
    assert!(check_property("aria_level", &half, &roles).is_none());
}

#[test]
fn components_add_their_methods_to_those_of_every_element() {
    let registry = vec![RegisteredComponent {
        id: 3,
        methods: vec![MethodDescriptor { name: "loading".to_owned(), arguments: Vec::new() }],
    }];
    let names = installed_behaviors(&registry);
    assert_eq!(names.first().map(String::as_str), Some("on_click"));
    assert_eq!(names.last().map(String::as_str), Some("loading"));
    assert_eq!(names.len(), installed_behaviors(&Vec::new()).len() + 1);
}
