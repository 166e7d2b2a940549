//! The methods that a script calls on an element.
use crate::argument::Bridged;
use crate::argument::BridgedList;
use crate::argument;
use crate::error::Fault;
use crate::error::ScriptError;
use crate::error;
use crate::exports;
use crate::number;
use crate::text;
use vstd::prelude::*;
use vstd::string::*;

verus! {

/// Whether a method is one that a registered component has only where it declares it.
pub open spec fn common_behavior(method: Seq<char>) -> bool {
    ||| method == "disabled"@
    ||| method == "selected"@
    ||| method == "on_click"@
}

/// Whether a method is one that a registered component has only where it declares it.
pub fn is_common_behavior(method: &str) -> (r: bool)
    ensures
        r == common_behavior(method@),
{
    text::same(method, "disabled")
        || text::same(method, "selected")
        || text::same(method, "on_click")
}

/// Whether a method puts an element into a named place.
pub open spec fn names_slot(method: Seq<char>) -> bool {
    ||| method == "content"@
    ||| method == "trigger"@
    ||| method == "input"@
    ||| method == "decrement_button"@
    ||| method == "increment_button"@
    ||| method == "image"@
    ||| method == "fallback"@
    ||| method == "header"@
    ||| method == "footer"@
    ||| method == "panel"@
}

/// Whether a method puts an element into a named place.
pub fn is_slot_method(method: &str) -> (r: bool)
    ensures
        r == names_slot(method@),
{
    text::same(method, "content")
        || text::same(method, "trigger")
        || text::same(method, "input")
        || text::same(method, "decrement_button")
        || text::same(method, "increment_button")
        || text::same(method, "image")
        || text::same(method, "fallback")
        || text::same(method, "header")
        || text::same(method, "footer")
        || text::same(method, "panel")
}

/// Whether a method takes one function and nothing else.
pub open spec fn takes_handler(method: Seq<char>) -> bool {
    ||| method == "on_click"@
    ||| method == "on_link_click"@
    ||| method == "on_mouse_move"@
    ||| method == "on_hover"@
    ||| method == "on_key_down"@
    ||| method == "on_key_up"@
    ||| method == "on_modifiers_changed"@
    ||| method == "on_mouse_down_out"@
    ||| method == "on_scroll_wheel"@
    ||| method == "on_item_click"@
    ||| method == "on_item_secondary_click"@
    ||| method == "on_resize"@
    ||| method == "tab_bar"@
    ||| method == "empty_group"@
    ||| method == "drop_indicator"@
    ||| method == "dock"@
    ||| method == "tile_drag_bar"@
    ||| method == "tile_resize_handles"@
    ||| method == "on_change"@
    ||| method == "on_confirm"@
    ||| method == "on_dismiss"@
    ||| method == "on_step"@
    ||| method == "on_open_change"@
}

/// Whether a method sets a property.
pub open spec fn sets_property(method: Seq<char>) -> bool {
    ||| method == "disabled"@
    ||| method == "selectable"@
    ||| method == "scrollable"@
    ||| method == "selected"@
    ||| method == "checked"@
    ||| method == "accessibility_label"@
    ||| method == "tooltip"@
    ||| method == "role"@
    ||| method == "aria_selected"@
    ||| method == "aria_active_descendant"@
    ||| method == "track_focus"@
    ||| method == "track_scroll"@
    ||| method == "with_item_to_measure_index"@
    ||| method == "content_focus_handle"@
    ||| method == "key_context"@
    ||| method == "aria_level"@
    ||| method == "keep_mounted"@
    ||| method == "tab_index"@
    ||| method == "tab_stop"@
    ||| method == "href"@
    ||| method == "id"@
    ||| method == "overflow_scroll"@
    ||| method == "overflow_x_scroll"@
    ||| method == "overflow_y_scroll"@
    ||| method == "overflow_scrollbar"@
    ||| method == "overflow_x_scrollbar"@
    ||| method == "overflow_y_scrollbar"@
    ||| method == "mode"@
    ||| method == "scroll_size"@
    ||| method == "viewport_from_layout"@
    ||| method == "controls_right"@
    ||| method == "panel_visible"@
    ||| method == "panel_size"@
    ||| method == "size_range"@
    ||| method == "set_position"@
    ||| method == "pressed"@
    ||| method == "start"@
    ||| method == "value"@
    ||| method == "indeterminate"@
    ||| method == "axis"@
    ||| method == "row_count"@
    ||| method == "column_count"@
    ||| method == "open"@
    ||| method == "default_open"@
    ||| method == "overlay_closable"@
    ||| method == "anchor"@
    ||| method == "frame_budget"@
    ||| method == "mouse_button"@
    ||| method == "open_delay"@
    ||| method == "close_delay"@
    ||| method == "transition"@
    ||| method == "spring"@
}

/// Whether a method sets a property.
pub fn is_property(method: &str) -> (r: bool)
    ensures
        r == sets_property(method@),
{
    text::same(method, "disabled")
        || text::same(method, "selectable")
        || text::same(method, "scrollable")
        || text::same(method, "selected")
        || text::same(method, "checked")
        || text::same(method, "accessibility_label")
        || text::same(method, "tooltip")
        || text::same(method, "role")
        || text::same(method, "aria_selected")
        || text::same(method, "aria_active_descendant")
        || text::same(method, "track_focus")
        || text::same(method, "track_scroll")
        || text::same(method, "with_item_to_measure_index")
        || text::same(method, "content_focus_handle")
        || text::same(method, "key_context")
        || text::same(method, "aria_level")
        || text::same(method, "keep_mounted")
        || text::same(method, "tab_index")
        || text::same(method, "tab_stop")
        || text::same(method, "href")
        || text::same(method, "id")
        || text::same(method, "overflow_scroll")
        || text::same(method, "overflow_x_scroll")
        || text::same(method, "overflow_y_scroll")
        || text::same(method, "overflow_scrollbar")
        || text::same(method, "overflow_x_scrollbar")
        || text::same(method, "overflow_y_scrollbar")
        || text::same(method, "mode")
        || text::same(method, "scroll_size")
        || text::same(method, "viewport_from_layout")
        || text::same(method, "controls_right")
        || text::same(method, "panel_visible")
        || text::same(method, "panel_size")
        || text::same(method, "size_range")
        || text::same(method, "set_position")
        || text::same(method, "pressed")
        || text::same(method, "start")
        || text::same(method, "value")
        || text::same(method, "indeterminate")
        || text::same(method, "axis")
        || text::same(method, "row_count")
        || text::same(method, "column_count")
        || text::same(method, "open")
        || text::same(method, "default_open")
        || text::same(method, "overlay_closable")
        || text::same(method, "anchor")
        || text::same(method, "frame_budget")
        || text::same(method, "mouse_button")
        || text::same(method, "open_delay")
        || text::same(method, "close_delay")
        || text::same(method, "transition")
        || text::same(method, "spring")
}

/// Whether a method names something to ask of a dock.
pub open spec fn commands_dock(method: Seq<char>) -> bool {
    ||| method == "select_tab"@
    ||| method == "close_panel"@
    ||| method == "toggle_zoom"@
    ||| method == "drag_tab"@
    ||| method == "drop_tab"@
    ||| method == "toggle_dock"@
    ||| method == "resize_dock"@
    ||| method == "move_tile"@
    ||| method == "resize_tile"@
    ||| method == "raise_tile"@
    ||| method == "toggle_tile_zoom"@
    ||| method == "close_tile"@
}

/// Whether a method names something to ask of a dock.
pub fn is_dock_command(method: &str) -> (r: bool)
    ensures
        r == commands_dock(method@),
{
    text::same(method, "select_tab")
        || text::same(method, "close_panel")
        || text::same(method, "toggle_zoom")
        || text::same(method, "drag_tab")
        || text::same(method, "drop_tab")
        || text::same(method, "toggle_dock")
        || text::same(method, "resize_dock")
        || text::same(method, "move_tile")
        || text::same(method, "resize_tile")
        || text::same(method, "raise_tile")
        || text::same(method, "toggle_tile_zoom")
        || text::same(method, "close_tile")
}

/// Whether a method adds to a path.
pub open spec fn draws_path(method: Seq<char>) -> bool {
    ||| method == "move_to"@
    ||| method == "line_to"@
    ||| method == "curve_to"@
    ||| method == "cubic_bezier_to"@
    ||| method == "arc_to"@
    ||| method == "close"@
    ||| method == "dash_array"@
}

/// Whether a method adds to a path.
pub fn is_path_command(method: &str) -> (r: bool)
    ensures
        r == draws_path(method@),
{
    text::same(method, "move_to")
        || text::same(method, "line_to")
        || text::same(method, "curve_to")
        || text::same(method, "cubic_bezier_to")
        || text::same(method, "arc_to")
        || text::same(method, "close")
        || text::same(method, "dash_array")
}

/// Whether a name is that of a state style.
pub open spec fn names_state(method: Seq<char>) -> bool {
    ||| method == "hover"@
    ||| method == "active"@
    ||| method == "focus"@
    ||| method == "range_style"@
    ||| method == "cell_style"@
    ||| method == "cell_active_style"@
    ||| method == "caret_style"@
}

/// Whether a name is that of a state style.
pub fn is_state_style(method: &str) -> (r: bool)
    ensures
        r == names_state(method@),
{
    text::same(method, "hover")
        || text::same(method, "active")
        || text::same(method, "focus")
        || text::same(method, "range_style")
        || text::same(method, "cell_style")
        || text::same(method, "cell_active_style")
        || text::same(method, "caret_style")
}

/// The names of the behaviors that a registered component has only where it declares them.
pub fn registered_common_behaviors() -> (r: Vec<String>)
    ensures
        text::texts(r@) == seq!["disabled"@, "selected"@, "on_click"@],
        forall|name: Seq<char>| #[trigger]
            text::texts(r@).contains(name) <==> common_behavior(name),
{
    let mut names: Vec<String> = Vec::new();
    names.push("disabled".to_owned());
    names.push("selected".to_owned());
    names.push("on_click".to_owned());
    let ghost listed = text::texts(names@);
    assert(listed =~= seq!["disabled"@, "selected"@, "on_click"@]);
    assert forall|name: Seq<char>| #[trigger] listed.contains(name) <==> common_behavior(name) by {
        if name == "disabled"@ {
            assert(listed[0] == name);
        }
        if name == "selected"@ {
            assert(listed[1] == name);
        }
        if name == "on_click"@ {
            assert(listed[2] == name);
        }
    }
    names
}

/// The name under which a method that takes one function is recorded: its own.
pub fn callback_op_name(method: &str) -> (r: Option<&'static str>)
    ensures
        match r {
            Some(name) => takes_handler(method@) && name@ == method@,
            None => !takes_handler(method@),
        },
{
    if text::same(method, "on_click") {
        Some("on_click")
    } else if text::same(method, "on_link_click") {
        Some("on_link_click")
    } else if text::same(method, "on_mouse_move") {
        Some("on_mouse_move")
    } else if text::same(method, "on_hover") {
        Some("on_hover")
    } else if text::same(method, "on_key_down") {
        Some("on_key_down")
    } else if text::same(method, "on_key_up") {
        Some("on_key_up")
    } else if text::same(method, "on_modifiers_changed") {
        Some("on_modifiers_changed")
    } else if text::same(method, "on_mouse_down_out") {
        Some("on_mouse_down_out")
    } else if text::same(method, "on_scroll_wheel") {
        Some("on_scroll_wheel")
    } else if text::same(method, "on_item_click") {
        Some("on_item_click")
    } else if text::same(method, "on_item_secondary_click") {
        Some("on_item_secondary_click")
    } else if text::same(method, "on_resize") {
        Some("on_resize")
    } else if text::same(method, "tab_bar") {
        Some("tab_bar")
    } else if text::same(method, "empty_group") {
        Some("empty_group")
    } else if text::same(method, "drop_indicator") {
        Some("drop_indicator")
    } else if text::same(method, "dock") {
        Some("dock")
    } else if text::same(method, "tile_drag_bar") {
        Some("tile_drag_bar")
    } else if text::same(method, "tile_resize_handles") {
        Some("tile_resize_handles")
    } else if text::same(method, "on_change") {
        Some("on_change")
    } else if text::same(method, "on_confirm") {
        Some("on_confirm")
    } else if text::same(method, "on_dismiss") {
        Some("on_dismiss")
    } else if text::same(method, "on_step") {
        Some("on_step")
    } else if text::same(method, "on_open_change") {
        Some("on_open_change")
    } else {
        None
    }
}

/// The name under which a mouse button's function is recorded.
pub open spec fn mouse_op(method: Seq<char>, button: Seq<char>) -> Option<Seq<char>> {
    if method == "on_mouse_down"@ && button == "left"@ {
        Some("on_mouse_down_left"@)
    } else if method == "on_mouse_down"@ && button == "right"@ {
        Some("on_mouse_down_right"@)
    } else if method == "on_mouse_down"@ && button == "middle"@ {
        Some("on_mouse_down_middle"@)
    } else if method == "on_mouse_up"@ && button == "left"@ {
        Some("on_mouse_up_left"@)
    } else if method == "on_mouse_up"@ && button == "right"@ {
        Some("on_mouse_up_right"@)
    } else if method == "on_mouse_up"@ && button == "middle"@ {
        Some("on_mouse_up_middle"@)
    } else {
        None
    }
}

/// The name under which a mouse button's function is recorded.
pub fn mouse_op_name(method: &str, button: &str) -> (r: Option<&'static str>)
    ensures
        match r {
            Some(name) => mouse_op(method@, button@) == Some(name@),
            None => mouse_op(method@, button@) is None,
        },
{
    let down = text::same(method, "on_mouse_down");
    let up = text::same(method, "on_mouse_up");
    if down && text::same(button, "left") {
        Some("on_mouse_down_left")
    } else if down && text::same(button, "right") {
        Some("on_mouse_down_right")
    } else if down && text::same(button, "middle") {
        Some("on_mouse_down_middle")
    } else if up && text::same(button, "left") {
        Some("on_mouse_up_left")
    } else if up && text::same(button, "right") {
        Some("on_mouse_up_right")
    } else if up && text::same(button, "middle") {
        Some("on_mouse_up_middle")
    } else {
        None
    }
}

/// The error for a method that does not exist, with the nearest name that does, if there is one.
pub open spec fn unknown(name: Seq<char>, suggestion: Option<Seq<char>>) -> ScriptError<Seq<char>> {
    match suggestion {
        Some(candidate) => ScriptError::UnknownMethodHint { name, candidate },
        None => ScriptError::UnknownMethod { name },
    }
}

/// The view of an optional text.
pub open spec fn optional_view(value: Option<&str>) -> Option<Seq<char>> {
    match value {
        Some(string) => Some(string@),
        None => None,
    }
}

/// The error for a method that does not exist.
pub fn unknown_error(name: &str, suggestion: Option<&str>) -> (r: ScriptError<String>)
    ensures
        error::error_view(r) == unknown(name@, optional_view(suggestion)),
{
    match suggestion {
        Some(candidate) => ScriptError::UnknownMethodHint {
            name: name.to_owned(),
            candidate: candidate.to_owned(),
        },
        None => ScriptError::UnknownMethod { name: name.to_owned() },
    }
}

/// The text of the error for a method that does not exist.
pub fn unknown_method(name: &str, suggestion: Option<&str>) -> (r: String)
    ensures
        r@ == error::error_text(unknown(name@, optional_view(suggestion))),
{
    unknown_error(name, suggestion).message()
}

/// What a URL consists of, as far as a link looks at it: its scheme and its host. It is nothing
/// where the text is no absolute URL.
pub uninterp spec fn url_parts(target: Seq<char>) -> Option<(Seq<char>, Option<Seq<char>>)>;

/// The scheme and the host of a URL, as a statement speaks of them.
pub open spec fn parts_view(parts: Option<(String, Option<String>)>) -> Option<
    (Seq<char>, Option<Seq<char>>),
> {
    match parts {
        Some((scheme, host)) => Some(
            (
                scheme@,
                match host {
                    Some(name) => Some(name@),
                    None => None,
                },
            ),
        ),
        None => None,
    }
}

/// `reqwest::Url::parse` reads a text as an absolute URL, or fails; `scheme` and `host_str` give two
/// of its parts. Which texts are URLs, and what their parts are, depends on the text alone and is
/// named here, not stated.
#[verifier::external_body]
fn parse_url(target: &str) -> (r: Option<(String, Option<String>)>)
    ensures
        parts_view(r) == url_parts(target@),
{
    match reqwest::Url::parse(target) {
        Ok(url) => Some((url.scheme().to_owned(), url.host_str().map(str::to_owned))),
        Err(_) => None,
    }
}

/// Whether a link may lead to a URL with these parts: it is an HTTP or HTTPS one, with a host.
pub open spec fn linkable(parts: Option<(Seq<char>, Option<Seq<char>>)>) -> bool {
    match parts {
        Some((scheme, host)) => (scheme == "http"@ || scheme == "https"@) && host is Some,
        None => false,
    }
}

/// Whether a link may lead to a URL with these parts.
pub fn link_allowed(parts: &Option<(String, Option<String>)>) -> (r: bool)
    ensures
        r == linkable(parts_view(*parts)),
{
    match parts {
        Some((scheme, host)) => (text::same(scheme.as_str(), "http") || text::same(
            scheme.as_str(),
            "https",
        )) && host.is_some(),
        None => false,
    }
}

/// Whether a link may lead where a text says.
pub fn href_allowed(target: &str) -> (r: bool)
    ensures
        r == linkable(url_parts(target@)),
{
    let parts = parse_url(target);
    link_allowed(&parts)
}

/// The number at a position among values.
pub open spec fn number_at(values: Seq<Bridged<Seq<char>>>, index: int) -> Option<number::Number> {
    if 0 <= index < values.len() {
        match values[index] {
            Bridged::Number(value) => Some(value),
            _ => None,
        }
    } else {
        None
    }
}

/// The text at the front of values.
pub open spec fn first_text(values: Seq<Bridged<Seq<char>>>) -> Option<Seq<char>> {
    if values.len() > 0 {
        match values[0] {
            Bridged::Str(value) => Some(value),
            _ => None,
        }
    } else {
        None
    }
}

/// The number at a position, where it is finite as a single.
pub open spec fn finite_at(values: Seq<Bridged<Seq<char>>>, index: int) -> Option<number::Number> {
    match number_at(values, index) {
        Some(value) => if number::narrow_finite(value.narrow) {
            Some(value)
        } else {
            None
        },
        None => None,
    }
}

/// The number at a position, where it is a whole one.
pub open spec fn whole_at(values: Seq<Bridged<Seq<char>>>, index: int) -> Option<number::Number> {
    match number_at(values, index) {
        Some(value) => if number::narrow_whole(value.narrow) {
            Some(value)
        } else {
            None
        },
        None => None,
    }
}

fn number_of(values: &BridgedList, index: usize) -> (r: Option<number::Number>)
    ensures
        r == number_at(values.model(), index as int),
{
    match values.value_at(index) {
        Some(Bridged::Number(value)) => Some(*value),
        _ => None,
    }
}

/// The number at a position, where it is finite as a single.
pub fn finite_number(values: &BridgedList, index: usize) -> (r: Option<number::Number>)
    ensures
        r == finite_at(values.model(), index as int),
{
    match number_of(values, index) {
        Some(value) => if value.narrow_is_finite() {
            Some(value)
        } else {
            None
        },
        None => None,
    }
}

/// The number at a position, where it is a whole one.
pub fn finite_whole_number(values: &BridgedList, index: usize) -> (r: Option<number::Number>)
    ensures
        r == whole_at(values.model(), index as int),
{
    match number_of(values, index) {
        Some(value) => if value.is_whole() {
            Some(value)
        } else {
            None
        },
        None => None,
    }
}

fn text_of(values: &BridgedList) -> (r: Option<&String>)
    ensures
        match (r, first_text(values.model())) {
            (Some(value), Some(expected)) => value@ == expected,
            (None, None) => true,
            _ => false,
        },
{
    match values.value_at(0) {
        Some(Bridged::Str(value)) => Some(value),
        _ => None,
    }
}

/// Whether a place and a number of places go together: whole numbers, the place from one up to the
/// number, which an index can hold.
pub open spec fn position_fits(values: Seq<Bridged<Seq<char>>>) -> bool {
    match (whole_at(values, 0), whole_at(values, 1)) {
        (Some(position), Some(size)) => {
            &&& number::narrow_value(position.narrow) >= vstd::arithmetic::power2::pow2(149)
            &&& number::narrow_value(size.narrow) >= number::narrow_value(position.narrow)
            &&& number::narrow_value(size.narrow) <= vstd::arithmetic::power2::pow2(
                (149 + usize::BITS) as nat,
            )
        },
        _ => false,
    }
}

/// Whether a count is a whole number from zero up to what an index can hold.
pub open spec fn count_fits(values: Seq<Bridged<Seq<char>>>) -> bool {
    match whole_at(values, 0) {
        Some(count) => {
            &&& number::narrow_value(count.narrow) >= 0
            &&& number::narrow_value(count.narrow) <= vstd::arithmetic::power2::pow2(
                (149 + usize::BITS) as nat,
            )
        },
        None => false,
    }
}

/// What is wrong with the bounds of a size, if anything is.
pub open spec fn size_range_fault(values: Seq<Bridged<Seq<char>>>) -> Option<Fault> {
    match finite_at(values, 0) {
        None => Some(Fault::SizeRangeMinimum),
        Some(minimum) => if values.len() < 2 {
            None
        } else {
            match finite_at(values, 1) {
                None => Some(Fault::SizeRangeMaximum),
                Some(maximum) => if number::narrow_value(maximum.narrow) < number::narrow_value(
                    minimum.narrow,
                ) {
                    Some(Fault::SizeRangeOrder)
                } else {
                    None
                },
            }
        },
    }
}

/// What is wrong with an accessibility role, if anything is. `roles` are the names that exist.
pub open spec fn role_error(values: Seq<Bridged<Seq<char>>>, roles: Seq<Seq<char>>) -> Option<
    ScriptError<Seq<char>>,
> {
    match first_text(values) {
        None => Some(ScriptError::Fixed(Fault::RoleString)),
        Some(name) => if name == "generic_container"@ {
            Some(ScriptError::Fixed(Fault::RoleFiltered))
        } else if !roles.contains(name) {
            Some(ScriptError::UnknownRole { name })
        } else {
            None
        },
    }
}

/// What is wrong with the target of a link, if anything is.
pub open spec fn href_error(values: Seq<Bridged<Seq<char>>>) -> Option<ScriptError<Seq<char>>> {
    match first_text(values) {
        None => Some(ScriptError::Fixed(Fault::HrefString)),
        Some(target) => if linkable(url_parts(target)) {
            None
        } else {
            Some(ScriptError::Fixed(Fault::HrefUrl))
        },
    }
}

/// The given error, unless the condition holds.
pub open spec fn unless(fine: bool, fault: Fault) -> Option<ScriptError<Seq<char>>> {
    if fine {
        None
    } else {
        Some(ScriptError::Fixed(fault))
    }
}

/// What is wrong with the values of a property, if anything is.
pub open spec fn property_error(
    method: Seq<char>,
    values: Seq<Bridged<Seq<char>>>,
    roles: Seq<Seq<char>>,
) -> Option<ScriptError<Seq<char>>> {
    if method == "id"@ {
        unless(first_text(values) is Some, Fault::IdString)
    } else if method == "tooltip"@ {
        unless(first_text(values) is Some, Fault::TooltipString)
    } else if method == "value"@ {
        unless(finite_at(values, 0) is Some, Fault::ValueNumber)
    } else if method == "set_position"@ {
        unless(position_fits(values), Fault::SetPosition)
    } else if method == "size_range"@ {
        match size_range_fault(values) {
            Some(fault) => Some(ScriptError::Fixed(fault)),
            None => None,
        }
    } else if method == "row_count"@ || method == "column_count"@ {
        if count_fits(values) {
            None
        } else {
            Some(ScriptError::CountNumber { method })
        }
    } else if method == "role"@ {
        role_error(values, roles)
    } else if method == "tab_index"@ {
        unless(whole_at(values, 0) is Some, Fault::TabIndex)
    } else if method == "href"@ {
        href_error(values)
    } else {
        None
    }
}

/// The view of an error that may be missing.
pub open spec fn wrong_view(wrong: Option<ScriptError<String>>) -> Option<ScriptError<Seq<char>>> {
    match wrong {
        Some(error) => Some(error::error_view(error)),
        None => None,
    }
}

fn check(fine: bool, fault: Fault) -> (r: Option<ScriptError<String>>)
    ensures
        wrong_view(r) == unless(fine, fault),
{
    if fine {
        None
    } else {
        Some(ScriptError::Fixed(fault))
    }
}

/// What is wrong with the values of a property, if anything is.
pub fn check_property(method: &str, values: &BridgedList, roles: &Vec<String>) -> (r: Option<
    ScriptError<String>,
>)
    ensures
        wrong_view(r) == property_error(method@, values.model(), text::texts(roles@)),
{
    if text::same(method, "id") {
        check(text_of(values).is_some(), Fault::IdString)
    } else if text::same(method, "tooltip") {
        check(text_of(values).is_some(), Fault::TooltipString)
    } else if text::same(method, "value") {
        check(finite_number(values, 0).is_some(), Fault::ValueNumber)
    } else if text::same(method, "set_position") {
        let fits = match (finite_whole_number(values, 0), finite_whole_number(values, 1)) {
            (Some(position), Some(size)) => position.at_least_one() && size.at_least(position)
                && size.fits_index(),
            _ => false,
        };
        check(fits, Fault::SetPosition)
    } else if text::same(method, "size_range") {
        match finite_number(values, 0) {
            None => Some(ScriptError::Fixed(Fault::SizeRangeMinimum)),
            Some(minimum) => match values.value_at(1) {
                None => None,
                Some(_) => match finite_number(values, 1) {
                    None => Some(ScriptError::Fixed(Fault::SizeRangeMaximum)),
                    Some(maximum) => if maximum.at_least(minimum) {
                        None
                    } else {
                        Some(ScriptError::Fixed(Fault::SizeRangeOrder))
                    },
                },
            },
        }
    } else if text::same(method, "row_count") || text::same(method, "column_count") {
        let fits = match finite_whole_number(values, 0) {
            Some(count) => count.not_below_zero() && count.fits_index(),
            None => false,
        };
        if fits {
            None
        } else {
            Some(ScriptError::CountNumber { method: method.to_owned() })
        }
    } else if text::same(method, "role") {
        match text_of(values) {
            None => Some(ScriptError::Fixed(Fault::RoleString)),
            Some(name) => if text::same(name.as_str(), "generic_container") {
                Some(ScriptError::Fixed(Fault::RoleFiltered))
            } else if !text::listed(roles, name.as_str()) {
                Some(ScriptError::UnknownRole { name: name.as_str().to_owned() })
            } else {
                None
            },
        }
    } else if text::same(method, "tab_index") {
        check(finite_whole_number(values, 0).is_some(), Fault::TabIndex)
    } else if text::same(method, "href") {
        match text_of(values) {
            None => Some(ScriptError::Fixed(Fault::HrefString)),
            Some(target) => if href_allowed(target.as_str()) {
                None
            } else {
                Some(ScriptError::Fixed(Fault::HrefUrl))
            },
        }
    } else {
        None
    }
}

proof fn lemma_property_names()
    ensures
        "id"@ != "tooltip"@,
        "id"@ != "value"@,
        "id"@ != "set_position"@,
        "id"@ != "size_range"@,
        "id"@ != "row_count"@,
        "id"@ != "column_count"@,
        "id"@ != "role"@,
        "id"@ != "tab_index"@,
        "id"@ != "href"@,
        "tooltip"@ != "value"@,
        "tooltip"@ != "set_position"@,
        "tooltip"@ != "size_range"@,
        "tooltip"@ != "row_count"@,
        "tooltip"@ != "column_count"@,
        "tooltip"@ != "role"@,
        "tooltip"@ != "tab_index"@,
        "tooltip"@ != "href"@,
        "value"@ != "set_position"@,
        "value"@ != "size_range"@,
        "value"@ != "row_count"@,
        "value"@ != "column_count"@,
        "value"@ != "role"@,
        "value"@ != "tab_index"@,
        "value"@ != "href"@,
        "set_position"@ != "size_range"@,
        "set_position"@ != "row_count"@,
        "set_position"@ != "column_count"@,
        "set_position"@ != "role"@,
        "set_position"@ != "tab_index"@,
        "set_position"@ != "href"@,
        "size_range"@ != "row_count"@,
        "size_range"@ != "column_count"@,
        "size_range"@ != "role"@,
        "size_range"@ != "tab_index"@,
        "size_range"@ != "href"@,
        "row_count"@ != "column_count"@,
        "row_count"@ != "role"@,
        "row_count"@ != "tab_index"@,
        "row_count"@ != "href"@,
        "column_count"@ != "role"@,
        "column_count"@ != "tab_index"@,
        "column_count"@ != "href"@,
        "role"@ != "tab_index"@,
        "role"@ != "href"@,
        "tab_index"@ != "href"@,
{
    reveal_strlit("id");
    assert("id"@.len() == 2);
    reveal_strlit("tooltip");
    assert("tooltip"@.len() == 7);
    reveal_strlit("value");
    assert("value"@.len() == 5);
    reveal_strlit("set_position");
    assert("set_position"@.len() == 12);
    reveal_strlit("size_range");
    assert("size_range"@.len() == 10);
    reveal_strlit("row_count");
    assert("row_count"@.len() == 9);
    reveal_strlit("column_count");
    assert("column_count"@.len() == 12);
    reveal_strlit("role");
    assert("role"@.len() == 4);
    reveal_strlit("tab_index");
    assert("tab_index"@.len() == 9);
    reveal_strlit("href");
    assert("href"@.len() == 4);
    assert("set_position"@[0] != "column_count"@[0]);
    assert("row_count"@[0] != "tab_index"@[0]);
    assert("role"@[0] != "href"@[0]);
}

/// A mouse button's function is recorded under the name of the event followed by that of the button,
/// for each of the two events and three buttons and for no others.
pub proof fn law_a_button_is_part_of_its_name(method: Seq<char>, button: Seq<char>)
    ensures
        mouse_op(method, button) matches Some(name) ==> name == method + "_"@ + button,
        mouse_op(method, button) is Some <==> (method == "on_mouse_down"@ || method
            == "on_mouse_up"@) && (button == "left"@ || button == "right"@ || button == "middle"@),
{
    reveal_strlit("on_mouse_down");
    reveal_strlit("on_mouse_up");
    reveal_strlit("left");
    reveal_strlit("right");
    reveal_strlit("middle");
    reveal_strlit("_");
    reveal_strlit("on_mouse_down_left");
    reveal_strlit("on_mouse_down_right");
    reveal_strlit("on_mouse_down_middle");
    reveal_strlit("on_mouse_up_left");
    reveal_strlit("on_mouse_up_right");
    reveal_strlit("on_mouse_up_middle");
    assert("on_mouse_down_left"@ =~= "on_mouse_down"@ + "_"@ + "left"@);
    assert("on_mouse_down_right"@ =~= "on_mouse_down"@ + "_"@ + "right"@);
    assert("on_mouse_down_middle"@ =~= "on_mouse_down"@ + "_"@ + "middle"@);
    assert("on_mouse_up_left"@ =~= "on_mouse_up"@ + "_"@ + "left"@);
    assert("on_mouse_up_right"@ =~= "on_mouse_up"@ + "_"@ + "right"@);
    assert("on_mouse_up_middle"@ =~= "on_mouse_up"@ + "_"@ + "middle"@);
}

/// A link leads to the web only: whatever the host is, it has one, and the scheme is one of the two
/// that the web has.
pub proof fn law_a_link_leads_to_the_web(
    scheme: Seq<char>,
    host: Option<Seq<char>>,
    other: Option<Seq<char>>,
)
    ensures
        linkable(Some((scheme, host))) ==> scheme == "http"@ || scheme == "https"@,
        linkable(Some((scheme, None))) == false,
        host is Some && other is Some ==> linkable(Some((scheme, host))) == linkable(
            Some((scheme, other)),
        ),
        host is Some ==> linkable(Some(("http"@, host))) && linkable(Some(("https"@, host))),
        !linkable(None),
{
}

/// Whether the first of some values is a text.
pub open spec fn opens_with_text(values: Seq<Bridged<Seq<char>>>) -> bool {
    values.len() > 0 && values[0] is Str
}

/// Whether the value at a position is a number that is finite as a single.
pub open spec fn is_single_at(values: Seq<Bridged<Seq<char>>>, index: int) -> bool {
    0 <= index < values.len() && (values[index] matches Bridged::Number(value) && value.narrow
        % 0x8000_0000 < 0x7F80_0000)
}

proof fn lemma_finite_at(values: Seq<Bridged<Seq<char>>>, index: int)
    ensures
        finite_at(values, index) is Some <==> is_single_at(values, index),
        finite_at(values, index) matches Some(value) ==> values[index] == Bridged::Number::<
            Seq<char>,
        >(value),
        whole_at(values, index) is Some ==> is_single_at(values, index),
        whole_at(values, index) matches Some(value) ==> values[index] == Bridged::Number::<
            Seq<char>,
        >(value),
{
    if 0 <= index < values.len() {
        match values[index] {
            Bridged::Number(value) => {
                number::law_singles_are_read_off_their_bits(value.narrow);
            },
            _ => {},
        }
    }
}

/// A property that takes a text is refused exactly without one; a value is to be a finite number;
/// the bounds of a size are finite numbers, the second of which may be missing and is not below the
/// first; a place in the order of focus is a whole number. Each has errors of its own, and no
/// property but those that are checked is ever refused.
pub proof fn law_properties_are_refused_for_their_values(
    method: Seq<char>,
    values: Seq<Bridged<Seq<char>>>,
    roles: Seq<Seq<char>>,
)
    ensures
        property_error("id"@, values, roles) is None <==> opens_with_text(values),
        property_error("tooltip"@, values, roles) is None <==> opens_with_text(values),
        property_error("value"@, values, roles) is None <==> is_single_at(values, 0),
        property_error("size_range"@, values, roles) is None <==> is_single_at(values, 0) && (
        values.len() == 1 || (is_single_at(values, 1) && number::narrow_value(
            values[1]->Number_0.narrow,
        ) >= number::narrow_value(values[0]->Number_0.narrow))),
        property_error("tab_index"@, values, roles) is None <==> is_single_at(values, 0)
            && number::narrow_whole(values[0]->Number_0.narrow),
        property_error("role"@, values, roles) is None <==> opens_with_text(values)
            && roles.contains(values[0]->Str_0) && values[0]->Str_0 != "generic_container"@,
        property_error("href"@, values, roles) is None <==> opens_with_text(values) && linkable(
            url_parts(values[0]->Str_0),
        ),
        property_error(method, values, roles) is Some ==> method == "id"@ || method == "tooltip"@
            || method == "value"@ || method == "set_position"@ || method == "size_range"@ || method
            == "row_count"@ || method == "column_count"@ || method == "role"@ || method
            == "tab_index"@ || method == "href"@,
{
    lemma_property_names();
    lemma_finite_at(values, 0);
    lemma_finite_at(values, 1);
}

/// What a property is refused with tells which it is: each check has errors that no other gives.
pub proof fn law_a_refusal_names_its_property(
    method: Seq<char>,
    values: Seq<Bridged<Seq<char>>>,
    roles: Seq<Seq<char>>,
)
    ensures
        property_error(method, values, roles) matches Some(error) ==> match error {
            ScriptError::Fixed(Fault::IdString) => method == "id"@,
            ScriptError::Fixed(Fault::TooltipString) => method == "tooltip"@,
            ScriptError::Fixed(Fault::ValueNumber) => method == "value"@,
            ScriptError::Fixed(Fault::SetPosition) => method == "set_position"@,
            ScriptError::Fixed(Fault::SizeRangeMinimum) => method == "size_range"@
                && !is_single_at(values, 0),
            ScriptError::Fixed(Fault::SizeRangeMaximum) => method == "size_range"@ && is_single_at(
                values,
                0,
            ) && values.len() > 1 && !is_single_at(values, 1),
            ScriptError::Fixed(Fault::SizeRangeOrder) => method == "size_range"@ && is_single_at(
                values,
                0,
            ) && is_single_at(values, 1),
            ScriptError::CountNumber { method: named } => named == method && (method
                == "row_count"@ || method == "column_count"@),
            ScriptError::Fixed(Fault::RoleString) => method == "role"@ && !opens_with_text(values),
            ScriptError::Fixed(Fault::RoleFiltered) => method == "role"@ && opens_with_text(values)
                && values[0]->Str_0 == "generic_container"@,
            ScriptError::UnknownRole { name } => method == "role"@ && opens_with_text(values)
                && values[0]->Str_0 == name && !roles.contains(name),
            ScriptError::Fixed(Fault::TabIndex) => method == "tab_index"@,
            ScriptError::Fixed(Fault::HrefString) => method == "href"@ && !opens_with_text(values),
            ScriptError::Fixed(Fault::HrefUrl) => method == "href"@ && opens_with_text(values),
            _ => false,
        },
{
    lemma_finite_at(values, 0);
    lemma_finite_at(values, 1);
}

/// A place among others is accepted where it and their number are whole and the place lies between
/// the first and the last of them; their number is one that an index can hold, up to rounding.
pub proof fn law_a_place_lies_among_its_number(
    position: number::Number,
    size: number::Number,
    place: int,
    count: int,
    roles: Seq<Seq<char>>,
)
    requires
        position.narrow % 0x8000_0000 < 0x7F80_0000,
        size.narrow % 0x8000_0000 < 0x7F80_0000,
        number::narrow_value(position.narrow) == place * vstd::arithmetic::power2::pow2(149),
        number::narrow_value(size.narrow) == count * vstd::arithmetic::power2::pow2(149),
    ensures
        property_error(
            "set_position"@,
            seq![Bridged::Number(position), Bridged::Number(size)],
            roles,
        ) is None <==> 1 <= place <= count <= vstd::arithmetic::power2::pow2(usize::BITS as nat),
        property_error("row_count"@, seq![Bridged::Number(size)], roles) is None <==> 0 <= count
            <= vstd::arithmetic::power2::pow2(usize::BITS as nat),
        property_error("column_count"@, seq![Bridged::Number(size)], roles) is None <==> 0 <= count
            <= vstd::arithmetic::power2::pow2(usize::BITS as nat),
{
    let p = vstd::arithmetic::power2::pow2(149) as int;
    let top = vstd::arithmetic::power2::pow2(usize::BITS as nat) as int;
    vstd::arithmetic::power2::lemma_pow2_pos(149);
    vstd::arithmetic::power2::lemma_pow2_adds(149, usize::BITS as nat);
    number::law_a_whole_single_counts_ones(position.narrow, place);
    number::law_a_whole_single_counts_ones(size.narrow, count);
    number::law_singles_are_read_off_their_bits(position.narrow);
    number::law_singles_are_read_off_their_bits(size.narrow);
    lemma_property_names();
    assert((place * p >= p) == (place >= 1)) by (nonlinear_arith)
        requires
            p > 0,
    ;
    assert((count * p >= place * p) == (count >= place)) by (nonlinear_arith)
        requires
            p > 0,
    ;
    assert((count * p <= p * top) == (count <= top)) by (nonlinear_arith)
        requires
            p > 0,
    ;
    assert((count * p >= 0) == (count >= 0)) by (nonlinear_arith)
        requires
            p > 0,
    ;
    let both = seq![Bridged::<Seq<char>>::Number(position), Bridged::Number(size)];
    let one = seq![Bridged::<Seq<char>>::Number(size)];
    assert(whole_at(both, 0) == Some(position));
    assert(whole_at(both, 1) == Some(size));
    assert(whole_at(one, 0) == Some(size));
}

/// A method that does not exist is told by its name, and with the nearest one where there is one.
pub proof fn law_an_unknown_method_is_named(name: Seq<char>, suggestion: Option<Seq<char>>)
    ensures
        match unknown(name, suggestion) {
            ScriptError::UnknownMethodHint { name: asked, candidate } => asked == name && suggestion
                == Some(candidate),
            ScriptError::UnknownMethod { name: asked } => asked == name && suggestion is None,
            _ => false,
        },
{
}

#[verifier::rlimit(60)]
#[verifier::spinoff_prover]
proof fn lemma_names_slot_or_takes_handler(method: Seq<char>)
    ensures
        !(names_slot(method) && takes_handler(method)),
{
    reveal_strlit("content");
    reveal_strlit("trigger");
    reveal_strlit("input");
    reveal_strlit("decrement_button");
    reveal_strlit("increment_button");
    reveal_strlit("image");
    reveal_strlit("fallback");
    reveal_strlit("header");
    reveal_strlit("footer");
    reveal_strlit("panel");
    reveal_strlit("on_click");
    reveal_strlit("on_link_click");
    reveal_strlit("on_mouse_move");
    reveal_strlit("on_hover");
    reveal_strlit("on_key_down");
    reveal_strlit("on_key_up");
    reveal_strlit("on_modifiers_changed");
    reveal_strlit("on_mouse_down_out");
    reveal_strlit("on_scroll_wheel");
    reveal_strlit("on_item_click");
    reveal_strlit("on_item_secondary_click");
    reveal_strlit("on_resize");
    reveal_strlit("tab_bar");
    reveal_strlit("empty_group");
    reveal_strlit("drop_indicator");
    reveal_strlit("dock");
    reveal_strlit("tile_drag_bar");
    reveal_strlit("tile_resize_handles");
    reveal_strlit("on_change");
    reveal_strlit("on_confirm");
    reveal_strlit("on_dismiss");
    reveal_strlit("on_step");
    reveal_strlit("on_open_change");
    assert("content"@.len() == 7);
    assert("trigger"@.len() == 7);
    assert("input"@.len() == 5);
    assert("decrement_button"@.len() == 16);
    assert("increment_button"@.len() == 16);
    assert("image"@.len() == 5);
    assert("fallback"@.len() == 8);
    assert("header"@.len() == 6);
    assert("footer"@.len() == 6);
    assert("panel"@.len() == 5);
    assert("on_click"@.len() == 8);
    assert("on_link_click"@.len() == 13);
    assert("on_mouse_move"@.len() == 13);
    assert("on_hover"@.len() == 8);
    assert("on_key_down"@.len() == 11);
    assert("on_key_up"@.len() == 9);
    assert("on_modifiers_changed"@.len() == 20);
    assert("on_mouse_down_out"@.len() == 17);
    assert("on_scroll_wheel"@.len() == 15);
    assert("on_item_click"@.len() == 13);
    assert("on_item_secondary_click"@.len() == 23);
    assert("on_resize"@.len() == 9);
    assert("tab_bar"@.len() == 7);
    assert("empty_group"@.len() == 11);
    assert("drop_indicator"@.len() == 14);
    assert("dock"@.len() == 4);
    assert("tile_drag_bar"@.len() == 13);
    assert("tile_resize_handles"@.len() == 19);
    assert("on_change"@.len() == 9);
    assert("on_confirm"@.len() == 10);
    assert("on_dismiss"@.len() == 10);
    assert("on_step"@.len() == 7);
    assert("on_open_change"@.len() == 14);
    assert("content"@[0] != "tab_bar"@[0]);
    assert("content"@[0] != "on_step"@[0]);
    assert("trigger"@[1] != "tab_bar"@[1]);
    assert("trigger"@[0] != "on_step"@[0]);
    assert("fallback"@[0] != "on_click"@[0]);
    assert("fallback"@[0] != "on_hover"@[0]);
}

#[verifier::rlimit(60)]
#[verifier::spinoff_prover]
proof fn lemma_names_slot_or_sets_property(method: Seq<char>)
    ensures
        !(names_slot(method) && sets_property(method)),
{
    reveal_strlit("content");
    reveal_strlit("trigger");
    reveal_strlit("input");
    reveal_strlit("decrement_button");
    reveal_strlit("increment_button");
    reveal_strlit("image");
    reveal_strlit("fallback");
    reveal_strlit("header");
    reveal_strlit("footer");
    reveal_strlit("panel");
    reveal_strlit("disabled");
    reveal_strlit("selectable");
    reveal_strlit("scrollable");
    reveal_strlit("selected");
    reveal_strlit("checked");
    reveal_strlit("accessibility_label");
    reveal_strlit("tooltip");
    reveal_strlit("role");
    reveal_strlit("aria_selected");
    reveal_strlit("aria_active_descendant");
    reveal_strlit("track_focus");
    reveal_strlit("track_scroll");
    reveal_strlit("with_item_to_measure_index");
    reveal_strlit("content_focus_handle");
    reveal_strlit("key_context");
    reveal_strlit("aria_level");
    reveal_strlit("keep_mounted");
    reveal_strlit("tab_index");
    reveal_strlit("tab_stop");
    reveal_strlit("href");
    reveal_strlit("id");
    reveal_strlit("overflow_scroll");
    reveal_strlit("overflow_x_scroll");
    reveal_strlit("overflow_y_scroll");
    reveal_strlit("overflow_scrollbar");
    reveal_strlit("overflow_x_scrollbar");
    reveal_strlit("overflow_y_scrollbar");
    reveal_strlit("mode");
    reveal_strlit("scroll_size");
    reveal_strlit("viewport_from_layout");
    reveal_strlit("controls_right");
    reveal_strlit("panel_visible");
    reveal_strlit("panel_size");
    reveal_strlit("size_range");
    reveal_strlit("set_position");
    reveal_strlit("pressed");
    reveal_strlit("start");
    reveal_strlit("value");
    reveal_strlit("indeterminate");
    reveal_strlit("axis");
    reveal_strlit("row_count");
    reveal_strlit("column_count");
    reveal_strlit("open");
    reveal_strlit("default_open");
    reveal_strlit("overlay_closable");
    reveal_strlit("anchor");
    reveal_strlit("frame_budget");
    reveal_strlit("mouse_button");
    reveal_strlit("open_delay");
    reveal_strlit("close_delay");
    reveal_strlit("transition");
    reveal_strlit("spring");
    assert("content"@.len() == 7);
    assert("trigger"@.len() == 7);
    assert("input"@.len() == 5);
    assert("decrement_button"@.len() == 16);
    assert("increment_button"@.len() == 16);
    assert("image"@.len() == 5);
    assert("fallback"@.len() == 8);
    assert("header"@.len() == 6);
    assert("footer"@.len() == 6);
    assert("panel"@.len() == 5);
    assert("disabled"@.len() == 8);
    assert("selectable"@.len() == 10);
    assert("scrollable"@.len() == 10);
    assert("selected"@.len() == 8);
    assert("checked"@.len() == 7);
    assert("accessibility_label"@.len() == 19);
    assert("tooltip"@.len() == 7);
    assert("role"@.len() == 4);
    assert("aria_selected"@.len() == 13);
    assert("aria_active_descendant"@.len() == 22);
    assert("track_focus"@.len() == 11);
    assert("track_scroll"@.len() == 12);
    assert("with_item_to_measure_index"@.len() == 26);
    assert("content_focus_handle"@.len() == 20);
    assert("key_context"@.len() == 11);
    assert("aria_level"@.len() == 10);
    assert("keep_mounted"@.len() == 12);
    assert("tab_index"@.len() == 9);
    assert("tab_stop"@.len() == 8);
    assert("href"@.len() == 4);
    assert("id"@.len() == 2);
    assert("overflow_scroll"@.len() == 15);
    assert("overflow_x_scroll"@.len() == 17);
    assert("overflow_y_scroll"@.len() == 17);
    assert("overflow_scrollbar"@.len() == 18);
    assert("overflow_x_scrollbar"@.len() == 20);
    assert("overflow_y_scrollbar"@.len() == 20);
    assert("mode"@.len() == 4);
    assert("scroll_size"@.len() == 11);
    assert("viewport_from_layout"@.len() == 20);
    assert("controls_right"@.len() == 14);
    assert("panel_visible"@.len() == 13);
    assert("panel_size"@.len() == 10);
    assert("size_range"@.len() == 10);
    assert("set_position"@.len() == 12);
    assert("pressed"@.len() == 7);
    assert("start"@.len() == 5);
    assert("value"@.len() == 5);
    assert("indeterminate"@.len() == 13);
    assert("axis"@.len() == 4);
    assert("row_count"@.len() == 9);
    assert("column_count"@.len() == 12);
    assert("open"@.len() == 4);
    assert("default_open"@.len() == 12);
    assert("overlay_closable"@.len() == 16);
    assert("anchor"@.len() == 6);
    assert("frame_budget"@.len() == 12);
    assert("mouse_button"@.len() == 12);
    assert("open_delay"@.len() == 10);
    assert("close_delay"@.len() == 11);
    assert("transition"@.len() == 10);
    assert("spring"@.len() == 6);
    assert("content"@[1] != "checked"@[1]);
    assert("content"@[0] != "tooltip"@[0]);
    assert("content"@[0] != "pressed"@[0]);
    assert("trigger"@[0] != "checked"@[0]);
    assert("trigger"@[1] != "tooltip"@[1]);
    assert("trigger"@[0] != "pressed"@[0]);
    assert("input"@[0] != "start"@[0]);
    assert("input"@[0] != "value"@[0]);
    assert("decrement_button"@[0] != "overlay_closable"@[0]);
    assert("increment_button"@[0] != "overlay_closable"@[0]);
    assert("image"@[0] != "start"@[0]);
    assert("image"@[0] != "value"@[0]);
    assert("fallback"@[0] != "disabled"@[0]);
    assert("fallback"@[0] != "selected"@[0]);
    assert("fallback"@[0] != "tab_stop"@[0]);
    assert("header"@[0] != "anchor"@[0]);
    assert("header"@[0] != "spring"@[0]);
    assert("footer"@[0] != "anchor"@[0]);
    assert("footer"@[0] != "spring"@[0]);
    assert("panel"@[0] != "start"@[0]);
    assert("panel"@[0] != "value"@[0]);
}

#[verifier::rlimit(60)]
#[verifier::spinoff_prover]
proof fn lemma_names_slot_or_commands_dock(method: Seq<char>)
    ensures
        !(names_slot(method) && commands_dock(method)),
{
    reveal_strlit("content");
    reveal_strlit("trigger");
    reveal_strlit("input");
    reveal_strlit("decrement_button");
    reveal_strlit("increment_button");
    reveal_strlit("image");
    reveal_strlit("fallback");
    reveal_strlit("header");
    reveal_strlit("footer");
    reveal_strlit("panel");
    reveal_strlit("select_tab");
    reveal_strlit("close_panel");
    reveal_strlit("toggle_zoom");
    reveal_strlit("drag_tab");
    reveal_strlit("drop_tab");
    reveal_strlit("toggle_dock");
    reveal_strlit("resize_dock");
    reveal_strlit("move_tile");
    reveal_strlit("resize_tile");
    reveal_strlit("raise_tile");
    reveal_strlit("toggle_tile_zoom");
    reveal_strlit("close_tile");
    assert("content"@.len() == 7);
    assert("trigger"@.len() == 7);
    assert("input"@.len() == 5);
    assert("decrement_button"@.len() == 16);
    assert("increment_button"@.len() == 16);
    assert("image"@.len() == 5);
    assert("fallback"@.len() == 8);
    assert("header"@.len() == 6);
    assert("footer"@.len() == 6);
    assert("panel"@.len() == 5);
    assert("select_tab"@.len() == 10);
    assert("close_panel"@.len() == 11);
    assert("toggle_zoom"@.len() == 11);
    assert("drag_tab"@.len() == 8);
    assert("drop_tab"@.len() == 8);
    assert("toggle_dock"@.len() == 11);
    assert("resize_dock"@.len() == 11);
    assert("move_tile"@.len() == 9);
    assert("resize_tile"@.len() == 11);
    assert("raise_tile"@.len() == 10);
    assert("toggle_tile_zoom"@.len() == 16);
    assert("close_tile"@.len() == 10);
    assert("decrement_button"@[0] != "toggle_tile_zoom"@[0]);
    assert("increment_button"@[0] != "toggle_tile_zoom"@[0]);
    assert("fallback"@[0] != "drag_tab"@[0]);
    assert("fallback"@[0] != "drop_tab"@[0]);
}

#[verifier::rlimit(60)]
#[verifier::spinoff_prover]
proof fn lemma_names_slot_or_draws_path(method: Seq<char>)
    ensures
        !(names_slot(method) && draws_path(method)),
{
    reveal_strlit("content");
    reveal_strlit("trigger");
    reveal_strlit("input");
    reveal_strlit("decrement_button");
    reveal_strlit("increment_button");
    reveal_strlit("image");
    reveal_strlit("fallback");
    reveal_strlit("header");
    reveal_strlit("footer");
    reveal_strlit("panel");
    reveal_strlit("move_to");
    reveal_strlit("line_to");
    reveal_strlit("curve_to");
    reveal_strlit("cubic_bezier_to");
    reveal_strlit("arc_to");
    reveal_strlit("close");
    reveal_strlit("dash_array");
    assert("content"@.len() == 7);
    assert("trigger"@.len() == 7);
    assert("input"@.len() == 5);
    assert("decrement_button"@.len() == 16);
    assert("increment_button"@.len() == 16);
    assert("image"@.len() == 5);
    assert("fallback"@.len() == 8);
    assert("header"@.len() == 6);
    assert("footer"@.len() == 6);
    assert("panel"@.len() == 5);
    assert("move_to"@.len() == 7);
    assert("line_to"@.len() == 7);
    assert("curve_to"@.len() == 8);
    assert("cubic_bezier_to"@.len() == 15);
    assert("arc_to"@.len() == 6);
    assert("close"@.len() == 5);
    assert("dash_array"@.len() == 10);
    assert("content"@[0] != "move_to"@[0]);
    assert("content"@[0] != "line_to"@[0]);
    assert("trigger"@[0] != "move_to"@[0]);
    assert("trigger"@[0] != "line_to"@[0]);
    assert("input"@[0] != "close"@[0]);
    assert("image"@[0] != "close"@[0]);
    assert("fallback"@[0] != "curve_to"@[0]);
    assert("header"@[0] != "arc_to"@[0]);
    assert("footer"@[0] != "arc_to"@[0]);
    assert("panel"@[0] != "close"@[0]);
}

#[verifier::rlimit(60)]
#[verifier::spinoff_prover]
proof fn lemma_names_slot_or_names_state(method: Seq<char>)
    ensures
        !(names_slot(method) && names_state(method)),
{
    reveal_strlit("content");
    reveal_strlit("trigger");
    reveal_strlit("input");
    reveal_strlit("decrement_button");
    reveal_strlit("increment_button");
    reveal_strlit("image");
    reveal_strlit("fallback");
    reveal_strlit("header");
    reveal_strlit("footer");
    reveal_strlit("panel");
    reveal_strlit("hover");
    reveal_strlit("active");
    reveal_strlit("focus");
    reveal_strlit("range_style");
    reveal_strlit("cell_style");
    reveal_strlit("cell_active_style");
    reveal_strlit("caret_style");
    assert("content"@.len() == 7);
    assert("trigger"@.len() == 7);
    assert("input"@.len() == 5);
    assert("decrement_button"@.len() == 16);
    assert("increment_button"@.len() == 16);
    assert("image"@.len() == 5);
    assert("fallback"@.len() == 8);
    assert("header"@.len() == 6);
    assert("footer"@.len() == 6);
    assert("panel"@.len() == 5);
    assert("hover"@.len() == 5);
    assert("active"@.len() == 6);
    assert("focus"@.len() == 5);
    assert("range_style"@.len() == 11);
    assert("cell_style"@.len() == 10);
    assert("cell_active_style"@.len() == 17);
    assert("caret_style"@.len() == 11);
    assert("input"@[0] != "hover"@[0]);
    assert("input"@[0] != "focus"@[0]);
    assert("image"@[0] != "hover"@[0]);
    assert("image"@[0] != "focus"@[0]);
    assert("header"@[0] != "active"@[0]);
    assert("footer"@[0] != "active"@[0]);
    assert("panel"@[0] != "hover"@[0]);
    assert("panel"@[0] != "focus"@[0]);
}

#[verifier::rlimit(60)]
#[verifier::spinoff_prover]
proof fn lemma_takes_handler_or_sets_property(method: Seq<char>)
    ensures
        !(takes_handler(method) && sets_property(method)),
{
    reveal_strlit("on_click");
    reveal_strlit("on_link_click");
    reveal_strlit("on_mouse_move");
    reveal_strlit("on_hover");
    reveal_strlit("on_key_down");
    reveal_strlit("on_key_up");
    reveal_strlit("on_modifiers_changed");
    reveal_strlit("on_mouse_down_out");
    reveal_strlit("on_scroll_wheel");
    reveal_strlit("on_item_click");
    reveal_strlit("on_item_secondary_click");
    reveal_strlit("on_resize");
    reveal_strlit("tab_bar");
    reveal_strlit("empty_group");
    reveal_strlit("drop_indicator");
    reveal_strlit("dock");
    reveal_strlit("tile_drag_bar");
    reveal_strlit("tile_resize_handles");
    reveal_strlit("on_change");
    reveal_strlit("on_confirm");
    reveal_strlit("on_dismiss");
    reveal_strlit("on_step");
    reveal_strlit("on_open_change");
    reveal_strlit("disabled");
    reveal_strlit("selectable");
    reveal_strlit("scrollable");
    reveal_strlit("selected");
    reveal_strlit("checked");
    reveal_strlit("accessibility_label");
    reveal_strlit("tooltip");
    reveal_strlit("role");
    reveal_strlit("aria_selected");
    reveal_strlit("aria_active_descendant");
    reveal_strlit("track_focus");
    reveal_strlit("track_scroll");
    reveal_strlit("with_item_to_measure_index");
    reveal_strlit("content_focus_handle");
    reveal_strlit("key_context");
    reveal_strlit("aria_level");
    reveal_strlit("keep_mounted");
    reveal_strlit("tab_index");
    reveal_strlit("tab_stop");
    reveal_strlit("href");
    reveal_strlit("id");
    reveal_strlit("overflow_scroll");
    reveal_strlit("overflow_x_scroll");
    reveal_strlit("overflow_y_scroll");
    reveal_strlit("overflow_scrollbar");
    reveal_strlit("overflow_x_scrollbar");
    reveal_strlit("overflow_y_scrollbar");
    reveal_strlit("mode");
    reveal_strlit("scroll_size");
    reveal_strlit("viewport_from_layout");
    reveal_strlit("controls_right");
    reveal_strlit("panel_visible");
    reveal_strlit("panel_size");
    reveal_strlit("size_range");
    reveal_strlit("set_position");
    reveal_strlit("pressed");
    reveal_strlit("start");
    reveal_strlit("value");
    reveal_strlit("indeterminate");
    reveal_strlit("axis");
    reveal_strlit("row_count");
    reveal_strlit("column_count");
    reveal_strlit("open");
    reveal_strlit("default_open");
    reveal_strlit("overlay_closable");
    reveal_strlit("anchor");
    reveal_strlit("frame_budget");
    reveal_strlit("mouse_button");
    reveal_strlit("open_delay");
    reveal_strlit("close_delay");
    reveal_strlit("transition");
    reveal_strlit("spring");
    assert("on_click"@.len() == 8);
    assert("on_link_click"@.len() == 13);
    assert("on_mouse_move"@.len() == 13);
    assert("on_hover"@.len() == 8);
    assert("on_key_down"@.len() == 11);
    assert("on_key_up"@.len() == 9);
    assert("on_modifiers_changed"@.len() == 20);
    assert("on_mouse_down_out"@.len() == 17);
    assert("on_scroll_wheel"@.len() == 15);
    assert("on_item_click"@.len() == 13);
    assert("on_item_secondary_click"@.len() == 23);
    assert("on_resize"@.len() == 9);
    assert("tab_bar"@.len() == 7);
    assert("empty_group"@.len() == 11);
    assert("drop_indicator"@.len() == 14);
    assert("dock"@.len() == 4);
    assert("tile_drag_bar"@.len() == 13);
    assert("tile_resize_handles"@.len() == 19);
    assert("on_change"@.len() == 9);
    assert("on_confirm"@.len() == 10);
    assert("on_dismiss"@.len() == 10);
    assert("on_step"@.len() == 7);
    assert("on_open_change"@.len() == 14);
    assert("disabled"@.len() == 8);
    assert("selectable"@.len() == 10);
    assert("scrollable"@.len() == 10);
    assert("selected"@.len() == 8);
    assert("checked"@.len() == 7);
    assert("accessibility_label"@.len() == 19);
    assert("tooltip"@.len() == 7);
    assert("role"@.len() == 4);
    assert("aria_selected"@.len() == 13);
    assert("aria_active_descendant"@.len() == 22);
    assert("track_focus"@.len() == 11);
    assert("track_scroll"@.len() == 12);
    assert("with_item_to_measure_index"@.len() == 26);
    assert("content_focus_handle"@.len() == 20);
    assert("key_context"@.len() == 11);
    assert("aria_level"@.len() == 10);
    assert("keep_mounted"@.len() == 12);
    assert("tab_index"@.len() == 9);
    assert("tab_stop"@.len() == 8);
    assert("href"@.len() == 4);
    assert("id"@.len() == 2);
    assert("overflow_scroll"@.len() == 15);
    assert("overflow_x_scroll"@.len() == 17);
    assert("overflow_y_scroll"@.len() == 17);
    assert("overflow_scrollbar"@.len() == 18);
    assert("overflow_x_scrollbar"@.len() == 20);
    assert("overflow_y_scrollbar"@.len() == 20);
    assert("mode"@.len() == 4);
    assert("scroll_size"@.len() == 11);
    assert("viewport_from_layout"@.len() == 20);
    assert("controls_right"@.len() == 14);
    assert("panel_visible"@.len() == 13);
    assert("panel_size"@.len() == 10);
    assert("size_range"@.len() == 10);
    assert("set_position"@.len() == 12);
    assert("pressed"@.len() == 7);
    assert("start"@.len() == 5);
    assert("value"@.len() == 5);
    assert("indeterminate"@.len() == 13);
    assert("axis"@.len() == 4);
    assert("row_count"@.len() == 9);
    assert("column_count"@.len() == 12);
    assert("open"@.len() == 4);
    assert("default_open"@.len() == 12);
    assert("overlay_closable"@.len() == 16);
    assert("anchor"@.len() == 6);
    assert("frame_budget"@.len() == 12);
    assert("mouse_button"@.len() == 12);
    assert("open_delay"@.len() == 10);
    assert("close_delay"@.len() == 11);
    assert("transition"@.len() == 10);
    assert("spring"@.len() == 6);
    assert("on_click"@[0] != "disabled"@[0]);
    assert("on_click"@[0] != "selected"@[0]);
    assert("on_click"@[0] != "tab_stop"@[0]);
    assert("on_link_click"@[0] != "aria_selected"@[0]);
    assert("on_link_click"@[0] != "panel_visible"@[0]);
    assert("on_link_click"@[0] != "indeterminate"@[0]);
    assert("on_mouse_move"@[0] != "aria_selected"@[0]);
    assert("on_mouse_move"@[0] != "panel_visible"@[0]);
    assert("on_mouse_move"@[0] != "indeterminate"@[0]);
    assert("on_hover"@[0] != "disabled"@[0]);
    assert("on_hover"@[0] != "selected"@[0]);
    assert("on_hover"@[0] != "tab_stop"@[0]);
    assert("on_key_down"@[0] != "track_focus"@[0]);
    assert("on_key_down"@[0] != "key_context"@[0]);
    assert("on_key_down"@[0] != "scroll_size"@[0]);
    assert("on_key_down"@[0] != "close_delay"@[0]);
    assert("on_key_up"@[0] != "tab_index"@[0]);
    assert("on_key_up"@[0] != "row_count"@[0]);
    assert("on_modifiers_changed"@[0] != "content_focus_handle"@[0]);
    assert("on_modifiers_changed"@[1] != "overflow_x_scrollbar"@[1]);
    assert("on_modifiers_changed"@[1] != "overflow_y_scrollbar"@[1]);
    assert("on_modifiers_changed"@[0] != "viewport_from_layout"@[0]);
    assert("on_mouse_down_out"@[1] != "overflow_x_scroll"@[1]);
    assert("on_mouse_down_out"@[1] != "overflow_y_scroll"@[1]);
    assert("on_scroll_wheel"@[1] != "overflow_scroll"@[1]);
    assert("on_item_click"@[0] != "aria_selected"@[0]);
    assert("on_item_click"@[0] != "panel_visible"@[0]);
    assert("on_item_click"@[0] != "indeterminate"@[0]);
    assert("on_resize"@[0] != "tab_index"@[0]);
    assert("on_resize"@[0] != "row_count"@[0]);
    assert("tab_bar"@[0] != "checked"@[0]);
    assert("tab_bar"@[1] != "tooltip"@[1]);
    assert("tab_bar"@[0] != "pressed"@[0]);
    assert("empty_group"@[0] != "track_focus"@[0]);
    assert("empty_group"@[0] != "key_context"@[0]);
    assert("empty_group"@[0] != "scroll_size"@[0]);
    assert("empty_group"@[0] != "close_delay"@[0]);
    assert("drop_indicator"@[0] != "controls_right"@[0]);
    assert("dock"@[0] != "role"@[0]);
    assert("dock"@[0] != "href"@[0]);
    assert("dock"@[0] != "mode"@[0]);
    assert("dock"@[0] != "axis"@[0]);
    assert("dock"@[0] != "open"@[0]);
    assert("tile_drag_bar"@[0] != "aria_selected"@[0]);
    assert("tile_drag_bar"@[0] != "panel_visible"@[0]);
    assert("tile_drag_bar"@[0] != "indeterminate"@[0]);
    assert("tile_resize_handles"@[0] != "accessibility_label"@[0]);
    assert("on_change"@[0] != "tab_index"@[0]);
    assert("on_change"@[0] != "row_count"@[0]);
    assert("on_confirm"@[0] != "selectable"@[0]);
    assert("on_confirm"@[0] != "scrollable"@[0]);
    assert("on_confirm"@[0] != "aria_level"@[0]);
    assert("on_confirm"@[0] != "panel_size"@[0]);
    assert("on_confirm"@[0] != "size_range"@[0]);
    assert("on_confirm"@[1] != "open_delay"@[1]);
    assert("on_confirm"@[0] != "transition"@[0]);
    assert("on_dismiss"@[0] != "selectable"@[0]);
    assert("on_dismiss"@[0] != "scrollable"@[0]);
    assert("on_dismiss"@[0] != "aria_level"@[0]);
    assert("on_dismiss"@[0] != "panel_size"@[0]);
    assert("on_dismiss"@[0] != "size_range"@[0]);
    assert("on_dismiss"@[1] != "open_delay"@[1]);
    assert("on_dismiss"@[0] != "transition"@[0]);
    assert("on_step"@[0] != "checked"@[0]);
    assert("on_step"@[0] != "tooltip"@[0]);
    assert("on_step"@[0] != "pressed"@[0]);
    assert("on_open_change"@[0] != "controls_right"@[0]);
}

#[verifier::rlimit(60)]
#[verifier::spinoff_prover]
proof fn lemma_takes_handler_or_commands_dock(method: Seq<char>)
    ensures
        !(takes_handler(method) && commands_dock(method)),
{
    reveal_strlit("on_click");
    reveal_strlit("on_link_click");
    reveal_strlit("on_mouse_move");
    reveal_strlit("on_hover");
    reveal_strlit("on_key_down");
    reveal_strlit("on_key_up");
    reveal_strlit("on_modifiers_changed");
    reveal_strlit("on_mouse_down_out");
    reveal_strlit("on_scroll_wheel");
    reveal_strlit("on_item_click");
    reveal_strlit("on_item_secondary_click");
    reveal_strlit("on_resize");
    reveal_strlit("tab_bar");
    reveal_strlit("empty_group");
    reveal_strlit("drop_indicator");
    reveal_strlit("dock");
    reveal_strlit("tile_drag_bar");
    reveal_strlit("tile_resize_handles");
    reveal_strlit("on_change");
    reveal_strlit("on_confirm");
    reveal_strlit("on_dismiss");
    reveal_strlit("on_step");
    reveal_strlit("on_open_change");
    reveal_strlit("select_tab");
    reveal_strlit("close_panel");
    reveal_strlit("toggle_zoom");
    reveal_strlit("drag_tab");
    reveal_strlit("drop_tab");
    reveal_strlit("toggle_dock");
    reveal_strlit("resize_dock");
    reveal_strlit("move_tile");
    reveal_strlit("resize_tile");
    reveal_strlit("raise_tile");
    reveal_strlit("toggle_tile_zoom");
    reveal_strlit("close_tile");
    assert("on_click"@.len() == 8);
    assert("on_link_click"@.len() == 13);
    assert("on_mouse_move"@.len() == 13);
    assert("on_hover"@.len() == 8);
    assert("on_key_down"@.len() == 11);
    assert("on_key_up"@.len() == 9);
    assert("on_modifiers_changed"@.len() == 20);
    assert("on_mouse_down_out"@.len() == 17);
    assert("on_scroll_wheel"@.len() == 15);
    assert("on_item_click"@.len() == 13);
    assert("on_item_secondary_click"@.len() == 23);
    assert("on_resize"@.len() == 9);
    assert("tab_bar"@.len() == 7);
    assert("empty_group"@.len() == 11);
    assert("drop_indicator"@.len() == 14);
    assert("dock"@.len() == 4);
    assert("tile_drag_bar"@.len() == 13);
    assert("tile_resize_handles"@.len() == 19);
    assert("on_change"@.len() == 9);
    assert("on_confirm"@.len() == 10);
    assert("on_dismiss"@.len() == 10);
    assert("on_step"@.len() == 7);
    assert("on_open_change"@.len() == 14);
    assert("select_tab"@.len() == 10);
    assert("close_panel"@.len() == 11);
    assert("toggle_zoom"@.len() == 11);
    assert("drag_tab"@.len() == 8);
    assert("drop_tab"@.len() == 8);
    assert("toggle_dock"@.len() == 11);
    assert("resize_dock"@.len() == 11);
    assert("move_tile"@.len() == 9);
    assert("resize_tile"@.len() == 11);
    assert("raise_tile"@.len() == 10);
    assert("toggle_tile_zoom"@.len() == 16);
    assert("close_tile"@.len() == 10);
    assert("on_click"@[0] != "drag_tab"@[0]);
    assert("on_click"@[0] != "drop_tab"@[0]);
    assert("on_hover"@[0] != "drag_tab"@[0]);
    assert("on_hover"@[0] != "drop_tab"@[0]);
    assert("on_key_down"@[0] != "close_panel"@[0]);
    assert("on_key_down"@[0] != "toggle_zoom"@[0]);
    assert("on_key_down"@[0] != "toggle_dock"@[0]);
    assert("on_key_down"@[0] != "resize_dock"@[0]);
    assert("on_key_down"@[0] != "resize_tile"@[0]);
    assert("on_key_up"@[0] != "move_tile"@[0]);
    assert("on_resize"@[0] != "move_tile"@[0]);
    assert("empty_group"@[0] != "close_panel"@[0]);
    assert("empty_group"@[0] != "toggle_zoom"@[0]);
    assert("empty_group"@[0] != "toggle_dock"@[0]);
    assert("empty_group"@[0] != "resize_dock"@[0]);
    assert("empty_group"@[0] != "resize_tile"@[0]);
    assert("on_change"@[0] != "move_tile"@[0]);
    assert("on_confirm"@[0] != "select_tab"@[0]);
    assert("on_confirm"@[0] != "raise_tile"@[0]);
    assert("on_confirm"@[0] != "close_tile"@[0]);
    assert("on_dismiss"@[0] != "select_tab"@[0]);
    assert("on_dismiss"@[0] != "raise_tile"@[0]);
    assert("on_dismiss"@[0] != "close_tile"@[0]);
}

#[verifier::rlimit(60)]
#[verifier::spinoff_prover]
proof fn lemma_takes_handler_or_draws_path(method: Seq<char>)
    ensures
        !(takes_handler(method) && draws_path(method)),
{
    reveal_strlit("on_click");
    reveal_strlit("on_link_click");
    reveal_strlit("on_mouse_move");
    reveal_strlit("on_hover");
    reveal_strlit("on_key_down");
    reveal_strlit("on_key_up");
    reveal_strlit("on_modifiers_changed");
    reveal_strlit("on_mouse_down_out");
    reveal_strlit("on_scroll_wheel");
    reveal_strlit("on_item_click");
    reveal_strlit("on_item_secondary_click");
    reveal_strlit("on_resize");
    reveal_strlit("tab_bar");
    reveal_strlit("empty_group");
    reveal_strlit("drop_indicator");
    reveal_strlit("dock");
    reveal_strlit("tile_drag_bar");
    reveal_strlit("tile_resize_handles");
    reveal_strlit("on_change");
    reveal_strlit("on_confirm");
    reveal_strlit("on_dismiss");
    reveal_strlit("on_step");
    reveal_strlit("on_open_change");
    reveal_strlit("move_to");
    reveal_strlit("line_to");
    reveal_strlit("curve_to");
    reveal_strlit("cubic_bezier_to");
    reveal_strlit("arc_to");
    reveal_strlit("close");
    reveal_strlit("dash_array");
    assert("on_click"@.len() == 8);
    assert("on_link_click"@.len() == 13);
    assert("on_mouse_move"@.len() == 13);
    assert("on_hover"@.len() == 8);
    assert("on_key_down"@.len() == 11);
    assert("on_key_up"@.len() == 9);
    assert("on_modifiers_changed"@.len() == 20);
    assert("on_mouse_down_out"@.len() == 17);
    assert("on_scroll_wheel"@.len() == 15);
    assert("on_item_click"@.len() == 13);
    assert("on_item_secondary_click"@.len() == 23);
    assert("on_resize"@.len() == 9);
    assert("tab_bar"@.len() == 7);
    assert("empty_group"@.len() == 11);
    assert("drop_indicator"@.len() == 14);
    assert("dock"@.len() == 4);
    assert("tile_drag_bar"@.len() == 13);
    assert("tile_resize_handles"@.len() == 19);
    assert("on_change"@.len() == 9);
    assert("on_confirm"@.len() == 10);
    assert("on_dismiss"@.len() == 10);
    assert("on_step"@.len() == 7);
    assert("on_open_change"@.len() == 14);
    assert("move_to"@.len() == 7);
    assert("line_to"@.len() == 7);
    assert("curve_to"@.len() == 8);
    assert("cubic_bezier_to"@.len() == 15);
    assert("arc_to"@.len() == 6);
    assert("close"@.len() == 5);
    assert("dash_array"@.len() == 10);
    assert("on_click"@[0] != "curve_to"@[0]);
    assert("on_hover"@[0] != "curve_to"@[0]);
    assert("on_scroll_wheel"@[0] != "cubic_bezier_to"@[0]);
    assert("tab_bar"@[0] != "move_to"@[0]);
    assert("tab_bar"@[0] != "line_to"@[0]);
    assert("on_confirm"@[0] != "dash_array"@[0]);
    assert("on_dismiss"@[0] != "dash_array"@[0]);
    assert("on_step"@[0] != "move_to"@[0]);
    assert("on_step"@[0] != "line_to"@[0]);
}

#[verifier::rlimit(60)]
#[verifier::spinoff_prover]
proof fn lemma_takes_handler_or_names_state(method: Seq<char>)
    ensures
        !(takes_handler(method) && names_state(method)),
{
    reveal_strlit("on_click");
    reveal_strlit("on_link_click");
    reveal_strlit("on_mouse_move");
    reveal_strlit("on_hover");
    reveal_strlit("on_key_down");
    reveal_strlit("on_key_up");
    reveal_strlit("on_modifiers_changed");
    reveal_strlit("on_mouse_down_out");
    reveal_strlit("on_scroll_wheel");
    reveal_strlit("on_item_click");
    reveal_strlit("on_item_secondary_click");
    reveal_strlit("on_resize");
    reveal_strlit("tab_bar");
    reveal_strlit("empty_group");
    reveal_strlit("drop_indicator");
    reveal_strlit("dock");
    reveal_strlit("tile_drag_bar");
    reveal_strlit("tile_resize_handles");
    reveal_strlit("on_change");
    reveal_strlit("on_confirm");
    reveal_strlit("on_dismiss");
    reveal_strlit("on_step");
    reveal_strlit("on_open_change");
    reveal_strlit("hover");
    reveal_strlit("active");
    reveal_strlit("focus");
    reveal_strlit("range_style");
    reveal_strlit("cell_style");
    reveal_strlit("cell_active_style");
    reveal_strlit("caret_style");
    assert("on_click"@.len() == 8);
    assert("on_link_click"@.len() == 13);
    assert("on_mouse_move"@.len() == 13);
    assert("on_hover"@.len() == 8);
    assert("on_key_down"@.len() == 11);
    assert("on_key_up"@.len() == 9);
    assert("on_modifiers_changed"@.len() == 20);
    assert("on_mouse_down_out"@.len() == 17);
    assert("on_scroll_wheel"@.len() == 15);
    assert("on_item_click"@.len() == 13);
    assert("on_item_secondary_click"@.len() == 23);
    assert("on_resize"@.len() == 9);
    assert("tab_bar"@.len() == 7);
    assert("empty_group"@.len() == 11);
    assert("drop_indicator"@.len() == 14);
    assert("dock"@.len() == 4);
    assert("tile_drag_bar"@.len() == 13);
    assert("tile_resize_handles"@.len() == 19);
    assert("on_change"@.len() == 9);
    assert("on_confirm"@.len() == 10);
    assert("on_dismiss"@.len() == 10);
    assert("on_step"@.len() == 7);
    assert("on_open_change"@.len() == 14);
    assert("hover"@.len() == 5);
    assert("active"@.len() == 6);
    assert("focus"@.len() == 5);
    assert("range_style"@.len() == 11);
    assert("cell_style"@.len() == 10);
    assert("cell_active_style"@.len() == 17);
    assert("caret_style"@.len() == 11);
    assert("on_key_down"@[0] != "range_style"@[0]);
    assert("on_key_down"@[0] != "caret_style"@[0]);
    assert("on_mouse_down_out"@[0] != "cell_active_style"@[0]);
    assert("empty_group"@[0] != "range_style"@[0]);
    assert("empty_group"@[0] != "caret_style"@[0]);
    assert("on_confirm"@[0] != "cell_style"@[0]);
    assert("on_dismiss"@[0] != "cell_style"@[0]);
}

#[verifier::rlimit(60)]
#[verifier::spinoff_prover]
proof fn lemma_sets_property_or_commands_dock(method: Seq<char>)
    ensures
        !(sets_property(method) && commands_dock(method)),
{
    reveal_strlit("disabled");
    reveal_strlit("selectable");
    reveal_strlit("scrollable");
    reveal_strlit("selected");
    reveal_strlit("checked");
    reveal_strlit("accessibility_label");
    reveal_strlit("tooltip");
    reveal_strlit("role");
    reveal_strlit("aria_selected");
    reveal_strlit("aria_active_descendant");
    reveal_strlit("track_focus");
    reveal_strlit("track_scroll");
    reveal_strlit("with_item_to_measure_index");
    reveal_strlit("content_focus_handle");
    reveal_strlit("key_context");
    reveal_strlit("aria_level");
    reveal_strlit("keep_mounted");
    reveal_strlit("tab_index");
    reveal_strlit("tab_stop");
    reveal_strlit("href");
    reveal_strlit("id");
    reveal_strlit("overflow_scroll");
    reveal_strlit("overflow_x_scroll");
    reveal_strlit("overflow_y_scroll");
    reveal_strlit("overflow_scrollbar");
    reveal_strlit("overflow_x_scrollbar");
    reveal_strlit("overflow_y_scrollbar");
    reveal_strlit("mode");
    reveal_strlit("scroll_size");
    reveal_strlit("viewport_from_layout");
    reveal_strlit("controls_right");
    reveal_strlit("panel_visible");
    reveal_strlit("panel_size");
    reveal_strlit("size_range");
    reveal_strlit("set_position");
    reveal_strlit("pressed");
    reveal_strlit("start");
    reveal_strlit("value");
    reveal_strlit("indeterminate");
    reveal_strlit("axis");
    reveal_strlit("row_count");
    reveal_strlit("column_count");
    reveal_strlit("open");
    reveal_strlit("default_open");
    reveal_strlit("overlay_closable");
    reveal_strlit("anchor");
    reveal_strlit("frame_budget");
    reveal_strlit("mouse_button");
    reveal_strlit("open_delay");
    reveal_strlit("close_delay");
    reveal_strlit("transition");
    reveal_strlit("spring");
    reveal_strlit("select_tab");
    reveal_strlit("close_panel");
    reveal_strlit("toggle_zoom");
    reveal_strlit("drag_tab");
    reveal_strlit("drop_tab");
    reveal_strlit("toggle_dock");
    reveal_strlit("resize_dock");
    reveal_strlit("move_tile");
    reveal_strlit("resize_tile");
    reveal_strlit("raise_tile");
    reveal_strlit("toggle_tile_zoom");
    reveal_strlit("close_tile");
    assert("disabled"@.len() == 8);
    assert("selectable"@.len() == 10);
    assert("scrollable"@.len() == 10);
    assert("selected"@.len() == 8);
    assert("checked"@.len() == 7);
    assert("accessibility_label"@.len() == 19);
    assert("tooltip"@.len() == 7);
    assert("role"@.len() == 4);
    assert("aria_selected"@.len() == 13);
    assert("aria_active_descendant"@.len() == 22);
    assert("track_focus"@.len() == 11);
    assert("track_scroll"@.len() == 12);
    assert("with_item_to_measure_index"@.len() == 26);
    assert("content_focus_handle"@.len() == 20);
    assert("key_context"@.len() == 11);
    assert("aria_level"@.len() == 10);
    assert("keep_mounted"@.len() == 12);
    assert("tab_index"@.len() == 9);
    assert("tab_stop"@.len() == 8);
    assert("href"@.len() == 4);
    assert("id"@.len() == 2);
    assert("overflow_scroll"@.len() == 15);
    assert("overflow_x_scroll"@.len() == 17);
    assert("overflow_y_scroll"@.len() == 17);
    assert("overflow_scrollbar"@.len() == 18);
    assert("overflow_x_scrollbar"@.len() == 20);
    assert("overflow_y_scrollbar"@.len() == 20);
    assert("mode"@.len() == 4);
    assert("scroll_size"@.len() == 11);
    assert("viewport_from_layout"@.len() == 20);
    assert("controls_right"@.len() == 14);
    assert("panel_visible"@.len() == 13);
    assert("panel_size"@.len() == 10);
    assert("size_range"@.len() == 10);
    assert("set_position"@.len() == 12);
    assert("pressed"@.len() == 7);
    assert("start"@.len() == 5);
    assert("value"@.len() == 5);
    assert("indeterminate"@.len() == 13);
    assert("axis"@.len() == 4);
    assert("row_count"@.len() == 9);
    assert("column_count"@.len() == 12);
    assert("open"@.len() == 4);
    assert("default_open"@.len() == 12);
    assert("overlay_closable"@.len() == 16);
    assert("anchor"@.len() == 6);
    assert("frame_budget"@.len() == 12);
    assert("mouse_button"@.len() == 12);
    assert("open_delay"@.len() == 10);
    assert("close_delay"@.len() == 11);
    assert("transition"@.len() == 10);
    assert("spring"@.len() == 6);
    assert("select_tab"@.len() == 10);
    assert("close_panel"@.len() == 11);
    assert("toggle_zoom"@.len() == 11);
    assert("drag_tab"@.len() == 8);
    assert("drop_tab"@.len() == 8);
    assert("toggle_dock"@.len() == 11);
    assert("resize_dock"@.len() == 11);
    assert("move_tile"@.len() == 9);
    assert("resize_tile"@.len() == 11);
    assert("raise_tile"@.len() == 10);
    assert("toggle_tile_zoom"@.len() == 16);
    assert("close_tile"@.len() == 10);
    assert("disabled"@[1] != "drag_tab"@[1]);
    assert("disabled"@[1] != "drop_tab"@[1]);
    assert("selectable"@[6] != "select_tab"@[6]);
    assert("selectable"@[0] != "raise_tile"@[0]);
    assert("selectable"@[0] != "close_tile"@[0]);
    assert("scrollable"@[1] != "select_tab"@[1]);
    assert("scrollable"@[0] != "raise_tile"@[0]);
    assert("scrollable"@[0] != "close_tile"@[0]);
    assert("selected"@[0] != "drag_tab"@[0]);
    assert("selected"@[0] != "drop_tab"@[0]);
    assert("track_focus"@[0] != "close_panel"@[0]);
    assert("track_focus"@[1] != "toggle_zoom"@[1]);
    assert("track_focus"@[1] != "toggle_dock"@[1]);
    assert("track_focus"@[0] != "resize_dock"@[0]);
    assert("track_focus"@[0] != "resize_tile"@[0]);
    assert("key_context"@[0] != "close_panel"@[0]);
    assert("key_context"@[0] != "toggle_zoom"@[0]);
    assert("key_context"@[0] != "toggle_dock"@[0]);
    assert("key_context"@[0] != "resize_dock"@[0]);
    assert("key_context"@[0] != "resize_tile"@[0]);
    assert("aria_level"@[0] != "select_tab"@[0]);
    assert("aria_level"@[0] != "raise_tile"@[0]);
    assert("aria_level"@[0] != "close_tile"@[0]);
    assert("tab_index"@[0] != "move_tile"@[0]);
    assert("tab_stop"@[0] != "drag_tab"@[0]);
    assert("tab_stop"@[0] != "drop_tab"@[0]);
    assert("scroll_size"@[0] != "close_panel"@[0]);
    assert("scroll_size"@[0] != "toggle_zoom"@[0]);
    assert("scroll_size"@[0] != "toggle_dock"@[0]);
    assert("scroll_size"@[0] != "resize_dock"@[0]);
    assert("scroll_size"@[0] != "resize_tile"@[0]);
    assert("panel_size"@[0] != "select_tab"@[0]);
    assert("panel_size"@[0] != "raise_tile"@[0]);
    assert("panel_size"@[0] != "close_tile"@[0]);
    assert("size_range"@[1] != "select_tab"@[1]);
    assert("size_range"@[0] != "raise_tile"@[0]);
    assert("size_range"@[0] != "close_tile"@[0]);
    assert("row_count"@[0] != "move_tile"@[0]);
    assert("overlay_closable"@[0] != "toggle_tile_zoom"@[0]);
    assert("open_delay"@[0] != "select_tab"@[0]);
    assert("open_delay"@[0] != "raise_tile"@[0]);
    assert("open_delay"@[0] != "close_tile"@[0]);
    assert("close_delay"@[6] != "close_panel"@[6]);
    assert("close_delay"@[0] != "toggle_zoom"@[0]);
    assert("close_delay"@[0] != "toggle_dock"@[0]);
    assert("close_delay"@[0] != "resize_dock"@[0]);
    assert("close_delay"@[0] != "resize_tile"@[0]);
    assert("transition"@[0] != "select_tab"@[0]);
    assert("transition"@[0] != "raise_tile"@[0]);
    assert("transition"@[0] != "close_tile"@[0]);
}

#[verifier::rlimit(60)]
#[verifier::spinoff_prover]
proof fn lemma_sets_property_or_draws_path(method: Seq<char>)
    ensures
        !(sets_property(method) && draws_path(method)),
{
    reveal_strlit("disabled");
    reveal_strlit("selectable");
    reveal_strlit("scrollable");
    reveal_strlit("selected");
    reveal_strlit("checked");
    reveal_strlit("accessibility_label");
    reveal_strlit("tooltip");
    reveal_strlit("role");
    reveal_strlit("aria_selected");
    reveal_strlit("aria_active_descendant");
    reveal_strlit("track_focus");
    reveal_strlit("track_scroll");
    reveal_strlit("with_item_to_measure_index");
    reveal_strlit("content_focus_handle");
    reveal_strlit("key_context");
    reveal_strlit("aria_level");
    reveal_strlit("keep_mounted");
    reveal_strlit("tab_index");
    reveal_strlit("tab_stop");
    reveal_strlit("href");
    reveal_strlit("id");
    reveal_strlit("overflow_scroll");
    reveal_strlit("overflow_x_scroll");
    reveal_strlit("overflow_y_scroll");
    reveal_strlit("overflow_scrollbar");
    reveal_strlit("overflow_x_scrollbar");
    reveal_strlit("overflow_y_scrollbar");
    reveal_strlit("mode");
    reveal_strlit("scroll_size");
    reveal_strlit("viewport_from_layout");
    reveal_strlit("controls_right");
    reveal_strlit("panel_visible");
    reveal_strlit("panel_size");
    reveal_strlit("size_range");
    reveal_strlit("set_position");
    reveal_strlit("pressed");
    reveal_strlit("start");
    reveal_strlit("value");
    reveal_strlit("indeterminate");
    reveal_strlit("axis");
    reveal_strlit("row_count");
    reveal_strlit("column_count");
    reveal_strlit("open");
    reveal_strlit("default_open");
    reveal_strlit("overlay_closable");
    reveal_strlit("anchor");
    reveal_strlit("frame_budget");
    reveal_strlit("mouse_button");
    reveal_strlit("open_delay");
    reveal_strlit("close_delay");
    reveal_strlit("transition");
    reveal_strlit("spring");
    reveal_strlit("move_to");
    reveal_strlit("line_to");
    reveal_strlit("curve_to");
    reveal_strlit("cubic_bezier_to");
    reveal_strlit("arc_to");
    reveal_strlit("close");
    reveal_strlit("dash_array");
    assert("disabled"@.len() == 8);
    assert("selectable"@.len() == 10);
    assert("scrollable"@.len() == 10);
    assert("selected"@.len() == 8);
    assert("checked"@.len() == 7);
    assert("accessibility_label"@.len() == 19);
    assert("tooltip"@.len() == 7);
    assert("role"@.len() == 4);
    assert("aria_selected"@.len() == 13);
    assert("aria_active_descendant"@.len() == 22);
    assert("track_focus"@.len() == 11);
    assert("track_scroll"@.len() == 12);
    assert("with_item_to_measure_index"@.len() == 26);
    assert("content_focus_handle"@.len() == 20);
    assert("key_context"@.len() == 11);
    assert("aria_level"@.len() == 10);
    assert("keep_mounted"@.len() == 12);
    assert("tab_index"@.len() == 9);
    assert("tab_stop"@.len() == 8);
    assert("href"@.len() == 4);
    assert("id"@.len() == 2);
    assert("overflow_scroll"@.len() == 15);
    assert("overflow_x_scroll"@.len() == 17);
    assert("overflow_y_scroll"@.len() == 17);
    assert("overflow_scrollbar"@.len() == 18);
    assert("overflow_x_scrollbar"@.len() == 20);
    assert("overflow_y_scrollbar"@.len() == 20);
    assert("mode"@.len() == 4);
    assert("scroll_size"@.len() == 11);
    assert("viewport_from_layout"@.len() == 20);
    assert("controls_right"@.len() == 14);
    assert("panel_visible"@.len() == 13);
    assert("panel_size"@.len() == 10);
    assert("size_range"@.len() == 10);
    assert("set_position"@.len() == 12);
    assert("pressed"@.len() == 7);
    assert("start"@.len() == 5);
    assert("value"@.len() == 5);
    assert("indeterminate"@.len() == 13);
    assert("axis"@.len() == 4);
    assert("row_count"@.len() == 9);
    assert("column_count"@.len() == 12);
    assert("open"@.len() == 4);
    assert("default_open"@.len() == 12);
    assert("overlay_closable"@.len() == 16);
    assert("anchor"@.len() == 6);
    assert("frame_budget"@.len() == 12);
    assert("mouse_button"@.len() == 12);
    assert("open_delay"@.len() == 10);
    assert("close_delay"@.len() == 11);
    assert("transition"@.len() == 10);
    assert("spring"@.len() == 6);
    assert("move_to"@.len() == 7);
    assert("line_to"@.len() == 7);
    assert("curve_to"@.len() == 8);
    assert("cubic_bezier_to"@.len() == 15);
    assert("arc_to"@.len() == 6);
    assert("close"@.len() == 5);
    assert("dash_array"@.len() == 10);
    assert("disabled"@[0] != "curve_to"@[0]);
    assert("selectable"@[0] != "dash_array"@[0]);
    assert("scrollable"@[0] != "dash_array"@[0]);
    assert("selected"@[0] != "curve_to"@[0]);
    assert("checked"@[0] != "move_to"@[0]);
    assert("checked"@[0] != "line_to"@[0]);
    assert("tooltip"@[0] != "move_to"@[0]);
    assert("tooltip"@[0] != "line_to"@[0]);
    assert("aria_level"@[0] != "dash_array"@[0]);
    assert("tab_stop"@[0] != "curve_to"@[0]);
    assert("overflow_scroll"@[0] != "cubic_bezier_to"@[0]);
    assert("panel_size"@[0] != "dash_array"@[0]);
    assert("size_range"@[0] != "dash_array"@[0]);
    assert("pressed"@[0] != "move_to"@[0]);
    assert("pressed"@[0] != "line_to"@[0]);
    assert("start"@[0] != "close"@[0]);
    assert("value"@[0] != "close"@[0]);
    assert("anchor"@[1] != "arc_to"@[1]);
    assert("open_delay"@[0] != "dash_array"@[0]);
    assert("transition"@[0] != "dash_array"@[0]);
    assert("spring"@[0] != "arc_to"@[0]);
}

#[verifier::rlimit(60)]
#[verifier::spinoff_prover]
proof fn lemma_sets_property_or_names_state(method: Seq<char>)
    ensures
        !(sets_property(method) && names_state(method)),
{
    reveal_strlit("disabled");
    reveal_strlit("selectable");
    reveal_strlit("scrollable");
    reveal_strlit("selected");
    reveal_strlit("checked");
    reveal_strlit("accessibility_label");
    reveal_strlit("tooltip");
    reveal_strlit("role");
    reveal_strlit("aria_selected");
    reveal_strlit("aria_active_descendant");
    reveal_strlit("track_focus");
    reveal_strlit("track_scroll");
    reveal_strlit("with_item_to_measure_index");
    reveal_strlit("content_focus_handle");
    reveal_strlit("key_context");
    reveal_strlit("aria_level");
    reveal_strlit("keep_mounted");
    reveal_strlit("tab_index");
    reveal_strlit("tab_stop");
    reveal_strlit("href");
    reveal_strlit("id");
    reveal_strlit("overflow_scroll");
    reveal_strlit("overflow_x_scroll");
    reveal_strlit("overflow_y_scroll");
    reveal_strlit("overflow_scrollbar");
    reveal_strlit("overflow_x_scrollbar");
    reveal_strlit("overflow_y_scrollbar");
    reveal_strlit("mode");
    reveal_strlit("scroll_size");
    reveal_strlit("viewport_from_layout");
    reveal_strlit("controls_right");
    reveal_strlit("panel_visible");
    reveal_strlit("panel_size");
    reveal_strlit("size_range");
    reveal_strlit("set_position");
    reveal_strlit("pressed");
    reveal_strlit("start");
    reveal_strlit("value");
    reveal_strlit("indeterminate");
    reveal_strlit("axis");
    reveal_strlit("row_count");
    reveal_strlit("column_count");
    reveal_strlit("open");
    reveal_strlit("default_open");
    reveal_strlit("overlay_closable");
    reveal_strlit("anchor");
    reveal_strlit("frame_budget");
    reveal_strlit("mouse_button");
    reveal_strlit("open_delay");
    reveal_strlit("close_delay");
    reveal_strlit("transition");
    reveal_strlit("spring");
    reveal_strlit("hover");
    reveal_strlit("active");
    reveal_strlit("focus");
    reveal_strlit("range_style");
    reveal_strlit("cell_style");
    reveal_strlit("cell_active_style");
    reveal_strlit("caret_style");
    assert("disabled"@.len() == 8);
    assert("selectable"@.len() == 10);
    assert("scrollable"@.len() == 10);
    assert("selected"@.len() == 8);
    assert("checked"@.len() == 7);
    assert("accessibility_label"@.len() == 19);
    assert("tooltip"@.len() == 7);
    assert("role"@.len() == 4);
    assert("aria_selected"@.len() == 13);
    assert("aria_active_descendant"@.len() == 22);
    assert("track_focus"@.len() == 11);
    assert("track_scroll"@.len() == 12);
    assert("with_item_to_measure_index"@.len() == 26);
    assert("content_focus_handle"@.len() == 20);
    assert("key_context"@.len() == 11);
    assert("aria_level"@.len() == 10);
    assert("keep_mounted"@.len() == 12);
    assert("tab_index"@.len() == 9);
    assert("tab_stop"@.len() == 8);
    assert("href"@.len() == 4);
    assert("id"@.len() == 2);
    assert("overflow_scroll"@.len() == 15);
    assert("overflow_x_scroll"@.len() == 17);
    assert("overflow_y_scroll"@.len() == 17);
    assert("overflow_scrollbar"@.len() == 18);
    assert("overflow_x_scrollbar"@.len() == 20);
    assert("overflow_y_scrollbar"@.len() == 20);
    assert("mode"@.len() == 4);
    assert("scroll_size"@.len() == 11);
    assert("viewport_from_layout"@.len() == 20);
    assert("controls_right"@.len() == 14);
    assert("panel_visible"@.len() == 13);
    assert("panel_size"@.len() == 10);
    assert("size_range"@.len() == 10);
    assert("set_position"@.len() == 12);
    assert("pressed"@.len() == 7);
    assert("start"@.len() == 5);
    assert("value"@.len() == 5);
    assert("indeterminate"@.len() == 13);
    assert("axis"@.len() == 4);
    assert("row_count"@.len() == 9);
    assert("column_count"@.len() == 12);
    assert("open"@.len() == 4);
    assert("default_open"@.len() == 12);
    assert("overlay_closable"@.len() == 16);
    assert("anchor"@.len() == 6);
    assert("frame_budget"@.len() == 12);
    assert("mouse_button"@.len() == 12);
    assert("open_delay"@.len() == 10);
    assert("close_delay"@.len() == 11);
    assert("transition"@.len() == 10);
    assert("spring"@.len() == 6);
    assert("hover"@.len() == 5);
    assert("active"@.len() == 6);
    assert("focus"@.len() == 5);
    assert("range_style"@.len() == 11);
    assert("cell_style"@.len() == 10);
    assert("cell_active_style"@.len() == 17);
    assert("caret_style"@.len() == 11);
    assert("selectable"@[0] != "cell_style"@[0]);
    assert("scrollable"@[0] != "cell_style"@[0]);
    assert("track_focus"@[0] != "range_style"@[0]);
    assert("track_focus"@[0] != "caret_style"@[0]);
    assert("key_context"@[0] != "range_style"@[0]);
    assert("key_context"@[0] != "caret_style"@[0]);
    assert("aria_level"@[0] != "cell_style"@[0]);
    assert("overflow_x_scroll"@[0] != "cell_active_style"@[0]);
    assert("overflow_y_scroll"@[0] != "cell_active_style"@[0]);
    assert("scroll_size"@[0] != "range_style"@[0]);
    assert("scroll_size"@[0] != "caret_style"@[0]);
    assert("panel_size"@[0] != "cell_style"@[0]);
    assert("size_range"@[0] != "cell_style"@[0]);
    assert("start"@[0] != "hover"@[0]);
    assert("start"@[0] != "focus"@[0]);
    assert("value"@[0] != "hover"@[0]);
    assert("value"@[0] != "focus"@[0]);
    assert("anchor"@[1] != "active"@[1]);
    assert("open_delay"@[0] != "cell_style"@[0]);
    assert("close_delay"@[0] != "range_style"@[0]);
    assert("close_delay"@[1] != "caret_style"@[1]);
    assert("transition"@[0] != "cell_style"@[0]);
    assert("spring"@[0] != "active"@[0]);
}

#[verifier::rlimit(60)]
#[verifier::spinoff_prover]
proof fn lemma_commands_dock_or_draws_path(method: Seq<char>)
    ensures
        !(commands_dock(method) && draws_path(method)),
{
    reveal_strlit("select_tab");
    reveal_strlit("close_panel");
    reveal_strlit("toggle_zoom");
    reveal_strlit("drag_tab");
    reveal_strlit("drop_tab");
    reveal_strlit("toggle_dock");
    reveal_strlit("resize_dock");
    reveal_strlit("move_tile");
    reveal_strlit("resize_tile");
    reveal_strlit("raise_tile");
    reveal_strlit("toggle_tile_zoom");
    reveal_strlit("close_tile");
    reveal_strlit("move_to");
    reveal_strlit("line_to");
    reveal_strlit("curve_to");
    reveal_strlit("cubic_bezier_to");
    reveal_strlit("arc_to");
    reveal_strlit("close");
    reveal_strlit("dash_array");
    assert("select_tab"@.len() == 10);
    assert("close_panel"@.len() == 11);
    assert("toggle_zoom"@.len() == 11);
    assert("drag_tab"@.len() == 8);
    assert("drop_tab"@.len() == 8);
    assert("toggle_dock"@.len() == 11);
    assert("resize_dock"@.len() == 11);
    assert("move_tile"@.len() == 9);
    assert("resize_tile"@.len() == 11);
    assert("raise_tile"@.len() == 10);
    assert("toggle_tile_zoom"@.len() == 16);
    assert("close_tile"@.len() == 10);
    assert("move_to"@.len() == 7);
    assert("line_to"@.len() == 7);
    assert("curve_to"@.len() == 8);
    assert("cubic_bezier_to"@.len() == 15);
    assert("arc_to"@.len() == 6);
    assert("close"@.len() == 5);
    assert("dash_array"@.len() == 10);
    assert("select_tab"@[0] != "dash_array"@[0]);
    assert("drag_tab"@[0] != "curve_to"@[0]);
    assert("drop_tab"@[0] != "curve_to"@[0]);
    assert("raise_tile"@[0] != "dash_array"@[0]);
    assert("close_tile"@[0] != "dash_array"@[0]);
}

#[verifier::rlimit(60)]
#[verifier::spinoff_prover]
proof fn lemma_commands_dock_or_names_state(method: Seq<char>)
    ensures
        !(commands_dock(method) && names_state(method)),
{
    reveal_strlit("select_tab");
    reveal_strlit("close_panel");
    reveal_strlit("toggle_zoom");
    reveal_strlit("drag_tab");
    reveal_strlit("drop_tab");
    reveal_strlit("toggle_dock");
    reveal_strlit("resize_dock");
    reveal_strlit("move_tile");
    reveal_strlit("resize_tile");
    reveal_strlit("raise_tile");
    reveal_strlit("toggle_tile_zoom");
    reveal_strlit("close_tile");
    reveal_strlit("hover");
    reveal_strlit("active");
    reveal_strlit("focus");
    reveal_strlit("range_style");
    reveal_strlit("cell_style");
    reveal_strlit("cell_active_style");
    reveal_strlit("caret_style");
    assert("select_tab"@.len() == 10);
    assert("close_panel"@.len() == 11);
    assert("toggle_zoom"@.len() == 11);
    assert("drag_tab"@.len() == 8);
    assert("drop_tab"@.len() == 8);
    assert("toggle_dock"@.len() == 11);
    assert("resize_dock"@.len() == 11);
    assert("move_tile"@.len() == 9);
    assert("resize_tile"@.len() == 11);
    assert("raise_tile"@.len() == 10);
    assert("toggle_tile_zoom"@.len() == 16);
    assert("close_tile"@.len() == 10);
    assert("hover"@.len() == 5);
    assert("active"@.len() == 6);
    assert("focus"@.len() == 5);
    assert("range_style"@.len() == 11);
    assert("cell_style"@.len() == 10);
    assert("cell_active_style"@.len() == 17);
    assert("caret_style"@.len() == 11);
    assert("select_tab"@[0] != "cell_style"@[0]);
    assert("close_panel"@[0] != "range_style"@[0]);
    assert("close_panel"@[1] != "caret_style"@[1]);
    assert("toggle_zoom"@[0] != "range_style"@[0]);
    assert("toggle_zoom"@[0] != "caret_style"@[0]);
    assert("toggle_dock"@[0] != "range_style"@[0]);
    assert("toggle_dock"@[0] != "caret_style"@[0]);
    assert("resize_dock"@[1] != "range_style"@[1]);
    assert("resize_dock"@[0] != "caret_style"@[0]);
    assert("resize_tile"@[1] != "range_style"@[1]);
    assert("resize_tile"@[0] != "caret_style"@[0]);
    assert("raise_tile"@[0] != "cell_style"@[0]);
    assert("close_tile"@[1] != "cell_style"@[1]);
}

#[verifier::rlimit(60)]
#[verifier::spinoff_prover]
proof fn lemma_draws_path_or_names_state(method: Seq<char>)
    ensures
        !(draws_path(method) && names_state(method)),
{
    reveal_strlit("move_to");
    reveal_strlit("line_to");
    reveal_strlit("curve_to");
    reveal_strlit("cubic_bezier_to");
    reveal_strlit("arc_to");
    reveal_strlit("close");
    reveal_strlit("dash_array");
    reveal_strlit("hover");
    reveal_strlit("active");
    reveal_strlit("focus");
    reveal_strlit("range_style");
    reveal_strlit("cell_style");
    reveal_strlit("cell_active_style");
    reveal_strlit("caret_style");
    assert("move_to"@.len() == 7);
    assert("line_to"@.len() == 7);
    assert("curve_to"@.len() == 8);
    assert("cubic_bezier_to"@.len() == 15);
    assert("arc_to"@.len() == 6);
    assert("close"@.len() == 5);
    assert("dash_array"@.len() == 10);
    assert("hover"@.len() == 5);
    assert("active"@.len() == 6);
    assert("focus"@.len() == 5);
    assert("range_style"@.len() == 11);
    assert("cell_style"@.len() == 10);
    assert("cell_active_style"@.len() == 17);
    assert("caret_style"@.len() == 11);
    assert("arc_to"@[1] != "active"@[1]);
    assert("close"@[0] != "hover"@[0]);
    assert("close"@[0] != "focus"@[0]);
    assert("dash_array"@[0] != "cell_style"@[0]);
}

#[verifier::rlimit(60)]
#[verifier::spinoff_prover]
proof fn lemma_names_slot_or_buttons(method: Seq<char>)
    ensures
        !(names_slot(method) && (method == "on_mouse_down"@ || method == "on_mouse_up"@ || method == "on_action"@)),
{
    reveal_strlit("content");
    reveal_strlit("trigger");
    reveal_strlit("input");
    reveal_strlit("decrement_button");
    reveal_strlit("increment_button");
    reveal_strlit("image");
    reveal_strlit("fallback");
    reveal_strlit("header");
    reveal_strlit("footer");
    reveal_strlit("panel");
    reveal_strlit("on_mouse_down");
    reveal_strlit("on_mouse_up");
    reveal_strlit("on_action");
    assert("content"@.len() == 7);
    assert("trigger"@.len() == 7);
    assert("input"@.len() == 5);
    assert("decrement_button"@.len() == 16);
    assert("increment_button"@.len() == 16);
    assert("image"@.len() == 5);
    assert("fallback"@.len() == 8);
    assert("header"@.len() == 6);
    assert("footer"@.len() == 6);
    assert("panel"@.len() == 5);
    assert("on_mouse_down"@.len() == 13);
    assert("on_mouse_up"@.len() == 11);
    assert("on_action"@.len() == 9);
}

#[verifier::rlimit(60)]
#[verifier::spinoff_prover]
proof fn lemma_takes_handler_or_buttons(method: Seq<char>)
    ensures
        !(takes_handler(method) && (method == "on_mouse_down"@ || method == "on_mouse_up"@ || method == "on_action"@)),
{
    reveal_strlit("on_click");
    reveal_strlit("on_link_click");
    reveal_strlit("on_mouse_move");
    reveal_strlit("on_hover");
    reveal_strlit("on_key_down");
    reveal_strlit("on_key_up");
    reveal_strlit("on_modifiers_changed");
    reveal_strlit("on_mouse_down_out");
    reveal_strlit("on_scroll_wheel");
    reveal_strlit("on_item_click");
    reveal_strlit("on_item_secondary_click");
    reveal_strlit("on_resize");
    reveal_strlit("tab_bar");
    reveal_strlit("empty_group");
    reveal_strlit("drop_indicator");
    reveal_strlit("dock");
    reveal_strlit("tile_drag_bar");
    reveal_strlit("tile_resize_handles");
    reveal_strlit("on_change");
    reveal_strlit("on_confirm");
    reveal_strlit("on_dismiss");
    reveal_strlit("on_step");
    reveal_strlit("on_open_change");
    reveal_strlit("on_mouse_down");
    reveal_strlit("on_mouse_up");
    reveal_strlit("on_action");
    assert("on_click"@.len() == 8);
    assert("on_link_click"@.len() == 13);
    assert("on_mouse_move"@.len() == 13);
    assert("on_hover"@.len() == 8);
    assert("on_key_down"@.len() == 11);
    assert("on_key_up"@.len() == 9);
    assert("on_modifiers_changed"@.len() == 20);
    assert("on_mouse_down_out"@.len() == 17);
    assert("on_scroll_wheel"@.len() == 15);
    assert("on_item_click"@.len() == 13);
    assert("on_item_secondary_click"@.len() == 23);
    assert("on_resize"@.len() == 9);
    assert("tab_bar"@.len() == 7);
    assert("empty_group"@.len() == 11);
    assert("drop_indicator"@.len() == 14);
    assert("dock"@.len() == 4);
    assert("tile_drag_bar"@.len() == 13);
    assert("tile_resize_handles"@.len() == 19);
    assert("on_change"@.len() == 9);
    assert("on_confirm"@.len() == 10);
    assert("on_dismiss"@.len() == 10);
    assert("on_step"@.len() == 7);
    assert("on_open_change"@.len() == 14);
    assert("on_mouse_down"@.len() == 13);
    assert("on_mouse_up"@.len() == 11);
    assert("on_action"@.len() == 9);
    assert("on_link_click"@[3] != "on_mouse_down"@[3]);
    assert("on_mouse_move"@[9] != "on_mouse_down"@[9]);
    assert("on_key_down"@[3] != "on_mouse_up"@[3]);
    assert("on_key_up"@[3] != "on_action"@[3]);
    assert("on_item_click"@[3] != "on_mouse_down"@[3]);
    assert("on_resize"@[3] != "on_action"@[3]);
    assert("empty_group"@[0] != "on_mouse_up"@[0]);
    assert("tile_drag_bar"@[0] != "on_mouse_down"@[0]);
    assert("on_change"@[3] != "on_action"@[3]);
}

#[verifier::rlimit(60)]
#[verifier::spinoff_prover]
proof fn lemma_sets_property_or_buttons(method: Seq<char>)
    ensures
        !(sets_property(method) && (method == "on_mouse_down"@ || method == "on_mouse_up"@ || method == "on_action"@)),
{
    reveal_strlit("disabled");
    reveal_strlit("selectable");
    reveal_strlit("scrollable");
    reveal_strlit("selected");
    reveal_strlit("checked");
    reveal_strlit("accessibility_label");
    reveal_strlit("tooltip");
    reveal_strlit("role");
    reveal_strlit("aria_selected");
    reveal_strlit("aria_active_descendant");
    reveal_strlit("track_focus");
    reveal_strlit("track_scroll");
    reveal_strlit("with_item_to_measure_index");
    reveal_strlit("content_focus_handle");
    reveal_strlit("key_context");
    reveal_strlit("aria_level");
    reveal_strlit("keep_mounted");
    reveal_strlit("tab_index");
    reveal_strlit("tab_stop");
    reveal_strlit("href");
    reveal_strlit("id");
    reveal_strlit("overflow_scroll");
    reveal_strlit("overflow_x_scroll");
    reveal_strlit("overflow_y_scroll");
    reveal_strlit("overflow_scrollbar");
    reveal_strlit("overflow_x_scrollbar");
    reveal_strlit("overflow_y_scrollbar");
    reveal_strlit("mode");
    reveal_strlit("scroll_size");
    reveal_strlit("viewport_from_layout");
    reveal_strlit("controls_right");
    reveal_strlit("panel_visible");
    reveal_strlit("panel_size");
    reveal_strlit("size_range");
    reveal_strlit("set_position");
    reveal_strlit("pressed");
    reveal_strlit("start");
    reveal_strlit("value");
    reveal_strlit("indeterminate");
    reveal_strlit("axis");
    reveal_strlit("row_count");
    reveal_strlit("column_count");
    reveal_strlit("open");
    reveal_strlit("default_open");
    reveal_strlit("overlay_closable");
    reveal_strlit("anchor");
    reveal_strlit("frame_budget");
    reveal_strlit("mouse_button");
    reveal_strlit("open_delay");
    reveal_strlit("close_delay");
    reveal_strlit("transition");
    reveal_strlit("spring");
    reveal_strlit("on_mouse_down");
    reveal_strlit("on_mouse_up");
    reveal_strlit("on_action");
    assert("disabled"@.len() == 8);
    assert("selectable"@.len() == 10);
    assert("scrollable"@.len() == 10);
    assert("selected"@.len() == 8);
    assert("checked"@.len() == 7);
    assert("accessibility_label"@.len() == 19);
    assert("tooltip"@.len() == 7);
    assert("role"@.len() == 4);
    assert("aria_selected"@.len() == 13);
    assert("aria_active_descendant"@.len() == 22);
    assert("track_focus"@.len() == 11);
    assert("track_scroll"@.len() == 12);
    assert("with_item_to_measure_index"@.len() == 26);
    assert("content_focus_handle"@.len() == 20);
    assert("key_context"@.len() == 11);
    assert("aria_level"@.len() == 10);
    assert("keep_mounted"@.len() == 12);
    assert("tab_index"@.len() == 9);
    assert("tab_stop"@.len() == 8);
    assert("href"@.len() == 4);
    assert("id"@.len() == 2);
    assert("overflow_scroll"@.len() == 15);
    assert("overflow_x_scroll"@.len() == 17);
    assert("overflow_y_scroll"@.len() == 17);
    assert("overflow_scrollbar"@.len() == 18);
    assert("overflow_x_scrollbar"@.len() == 20);
    assert("overflow_y_scrollbar"@.len() == 20);
    assert("mode"@.len() == 4);
    assert("scroll_size"@.len() == 11);
    assert("viewport_from_layout"@.len() == 20);
    assert("controls_right"@.len() == 14);
    assert("panel_visible"@.len() == 13);
    assert("panel_size"@.len() == 10);
    assert("size_range"@.len() == 10);
    assert("set_position"@.len() == 12);
    assert("pressed"@.len() == 7);
    assert("start"@.len() == 5);
    assert("value"@.len() == 5);
    assert("indeterminate"@.len() == 13);
    assert("axis"@.len() == 4);
    assert("row_count"@.len() == 9);
    assert("column_count"@.len() == 12);
    assert("open"@.len() == 4);
    assert("default_open"@.len() == 12);
    assert("overlay_closable"@.len() == 16);
    assert("anchor"@.len() == 6);
    assert("frame_budget"@.len() == 12);
    assert("mouse_button"@.len() == 12);
    assert("open_delay"@.len() == 10);
    assert("close_delay"@.len() == 11);
    assert("transition"@.len() == 10);
    assert("spring"@.len() == 6);
    assert("on_mouse_down"@.len() == 13);
    assert("on_mouse_up"@.len() == 11);
    assert("on_action"@.len() == 9);
    assert("aria_selected"@[0] != "on_mouse_down"@[0]);
    assert("track_focus"@[0] != "on_mouse_up"@[0]);
    assert("key_context"@[0] != "on_mouse_up"@[0]);
    assert("tab_index"@[0] != "on_action"@[0]);
    assert("scroll_size"@[0] != "on_mouse_up"@[0]);
    assert("panel_visible"@[0] != "on_mouse_down"@[0]);
    assert("indeterminate"@[0] != "on_mouse_down"@[0]);
    assert("row_count"@[0] != "on_action"@[0]);
    assert("close_delay"@[0] != "on_mouse_up"@[0]);
}

#[verifier::rlimit(60)]
#[verifier::spinoff_prover]
proof fn lemma_commands_dock_or_buttons(method: Seq<char>)
    ensures
        !(commands_dock(method) && (method == "on_mouse_down"@ || method == "on_mouse_up"@ || method == "on_action"@)),
{
    reveal_strlit("select_tab");
    reveal_strlit("close_panel");
    reveal_strlit("toggle_zoom");
    reveal_strlit("drag_tab");
    reveal_strlit("drop_tab");
    reveal_strlit("toggle_dock");
    reveal_strlit("resize_dock");
    reveal_strlit("move_tile");
    reveal_strlit("resize_tile");
    reveal_strlit("raise_tile");
    reveal_strlit("toggle_tile_zoom");
    reveal_strlit("close_tile");
    reveal_strlit("on_mouse_down");
    reveal_strlit("on_mouse_up");
    reveal_strlit("on_action");
    assert("select_tab"@.len() == 10);
    assert("close_panel"@.len() == 11);
    assert("toggle_zoom"@.len() == 11);
    assert("drag_tab"@.len() == 8);
    assert("drop_tab"@.len() == 8);
    assert("toggle_dock"@.len() == 11);
    assert("resize_dock"@.len() == 11);
    assert("move_tile"@.len() == 9);
    assert("resize_tile"@.len() == 11);
    assert("raise_tile"@.len() == 10);
    assert("toggle_tile_zoom"@.len() == 16);
    assert("close_tile"@.len() == 10);
    assert("on_mouse_down"@.len() == 13);
    assert("on_mouse_up"@.len() == 11);
    assert("on_action"@.len() == 9);
    assert("close_panel"@[0] != "on_mouse_up"@[0]);
    assert("toggle_zoom"@[0] != "on_mouse_up"@[0]);
    assert("toggle_dock"@[0] != "on_mouse_up"@[0]);
    assert("resize_dock"@[0] != "on_mouse_up"@[0]);
    assert("move_tile"@[0] != "on_action"@[0]);
    assert("resize_tile"@[0] != "on_mouse_up"@[0]);
}

#[verifier::rlimit(60)]
#[verifier::spinoff_prover]
proof fn lemma_draws_path_or_buttons(method: Seq<char>)
    ensures
        !(draws_path(method) && (method == "on_mouse_down"@ || method == "on_mouse_up"@ || method == "on_action"@)),
{
    reveal_strlit("move_to");
    reveal_strlit("line_to");
    reveal_strlit("curve_to");
    reveal_strlit("cubic_bezier_to");
    reveal_strlit("arc_to");
    reveal_strlit("close");
    reveal_strlit("dash_array");
    reveal_strlit("on_mouse_down");
    reveal_strlit("on_mouse_up");
    reveal_strlit("on_action");
    assert("move_to"@.len() == 7);
    assert("line_to"@.len() == 7);
    assert("curve_to"@.len() == 8);
    assert("cubic_bezier_to"@.len() == 15);
    assert("arc_to"@.len() == 6);
    assert("close"@.len() == 5);
    assert("dash_array"@.len() == 10);
    assert("on_mouse_down"@.len() == 13);
    assert("on_mouse_up"@.len() == 11);
    assert("on_action"@.len() == 9);
}

#[verifier::rlimit(60)]
#[verifier::spinoff_prover]
proof fn lemma_names_state_or_buttons(method: Seq<char>)
    ensures
        !(names_state(method) && (method == "on_mouse_down"@ || method == "on_mouse_up"@ || method == "on_action"@)),
{
    reveal_strlit("hover");
    reveal_strlit("active");
    reveal_strlit("focus");
    reveal_strlit("range_style");
    reveal_strlit("cell_style");
    reveal_strlit("cell_active_style");
    reveal_strlit("caret_style");
    reveal_strlit("on_mouse_down");
    reveal_strlit("on_mouse_up");
    reveal_strlit("on_action");
    assert("hover"@.len() == 5);
    assert("active"@.len() == 6);
    assert("focus"@.len() == 5);
    assert("range_style"@.len() == 11);
    assert("cell_style"@.len() == 10);
    assert("cell_active_style"@.len() == 17);
    assert("caret_style"@.len() == 11);
    assert("on_mouse_down"@.len() == 13);
    assert("on_mouse_up"@.len() == 11);
    assert("on_action"@.len() == 9);
    assert("range_style"@[0] != "on_mouse_up"@[0]);
    assert("caret_style"@[0] != "on_mouse_up"@[0]);
}

/// A method has one meaning: what takes a function, sets a property, fills a place, commands a dock,
/// draws or names a state style does nothing else.
pub proof fn law_a_method_has_one_meaning(method: Seq<char>)
    ensures
        !(names_slot(method) && takes_handler(method)),
        !(names_slot(method) && sets_property(method)),
        !(names_slot(method) && commands_dock(method)),
        !(names_slot(method) && draws_path(method)),
        !(names_slot(method) && names_state(method)),
        !(takes_handler(method) && sets_property(method)),
        !(takes_handler(method) && commands_dock(method)),
        !(takes_handler(method) && draws_path(method)),
        !(takes_handler(method) && names_state(method)),
        !(sets_property(method) && commands_dock(method)),
        !(sets_property(method) && draws_path(method)),
        !(sets_property(method) && names_state(method)),
        !(commands_dock(method) && draws_path(method)),
        !(commands_dock(method) && names_state(method)),
        !(draws_path(method) && names_state(method)),
        !(names_slot(method) && (method == "on_mouse_down"@ || method == "on_mouse_up"@ || method == "on_action"@)),
        !(takes_handler(method) && (method == "on_mouse_down"@ || method == "on_mouse_up"@ || method == "on_action"@)),
        !(sets_property(method) && (method == "on_mouse_down"@ || method == "on_mouse_up"@ || method == "on_action"@)),
        !(commands_dock(method) && (method == "on_mouse_down"@ || method == "on_mouse_up"@ || method == "on_action"@)),
        !(draws_path(method) && (method == "on_mouse_down"@ || method == "on_mouse_up"@ || method == "on_action"@)),
        !(names_state(method) && (method == "on_mouse_down"@ || method == "on_mouse_up"@ || method == "on_action"@)),
{
    lemma_names_slot_or_takes_handler(method);
    lemma_names_slot_or_sets_property(method);
    lemma_names_slot_or_commands_dock(method);
    lemma_names_slot_or_draws_path(method);
    lemma_names_slot_or_names_state(method);
    lemma_takes_handler_or_sets_property(method);
    lemma_takes_handler_or_commands_dock(method);
    lemma_takes_handler_or_draws_path(method);
    lemma_takes_handler_or_names_state(method);
    lemma_sets_property_or_commands_dock(method);
    lemma_sets_property_or_draws_path(method);
    lemma_sets_property_or_names_state(method);
    lemma_commands_dock_or_draws_path(method);
    lemma_commands_dock_or_names_state(method);
    lemma_draws_path_or_names_state(method);
    lemma_names_slot_or_buttons(method);
    lemma_takes_handler_or_buttons(method);
    lemma_sets_property_or_buttons(method);
    lemma_commands_dock_or_buttons(method);
    lemma_draws_path_or_buttons(method);
    lemma_names_state_or_buttons(method);
}

/// The behaviors that a registered component has only where it declares them are methods that all
/// other elements have.
pub proof fn law_common_behaviors_are_methods_of_all_elements(method: Seq<char>)
    ensures
        common_behavior(method) ==> takes_handler(method) || sets_property(method),
        common_behavior(method) ==> exports::names(exports::behavior_names(), method),
{
    let list = exports::behavior_names();
    assert(list[0] == "on_click");
    assert(list[22] == "disabled");
    assert(list[25] == "selected");
}

/// Every method that elements are given besides their styles is understood: it takes a function, or
/// sets a property, or takes a mouse button or an action with its function.
#[verifier::rlimit(60)]
pub proof fn law_every_behavior_is_understood(i: int)
    requires
        0 <= i < exports::behavior_names().len(),
    ensures
        ({
            let method = exports::behavior_names()[i]@;
            takes_handler(method) || sets_property(method) || method == "on_mouse_down"@ || method == "on_mouse_up"@ || method == "on_action"@
        }),
{
    let list = exports::behavior_names();
    assert(list.len() == 56);
    assert(list[0]@ == "on_click"@);
    assert(list[1]@ == "on_link_click"@);
    assert(list[2]@ == "on_mouse_move"@);
    assert(list[3]@ == "on_hover"@);
    assert(list[4]@ == "on_key_down"@);
    assert(list[5]@ == "on_key_up"@);
    assert(list[6]@ == "on_modifiers_changed"@);
    assert(list[7]@ == "on_mouse_down"@);
    assert(list[8]@ == "on_mouse_up"@);
    assert(list[9]@ == "on_mouse_down_out"@);
    assert(list[10]@ == "on_scroll_wheel"@);
    assert(list[11]@ == "on_action"@);
    assert(list[12]@ == "key_context"@);
    assert(list[13]@ == "aria_level"@);
    assert(list[14]@ == "keep_mounted"@);
    assert(list[15]@ == "on_item_click"@);
    assert(list[16]@ == "on_item_secondary_click"@);
    assert(list[17]@ == "on_change"@);
    assert(list[18]@ == "on_open_change"@);
    assert(list[19]@ == "on_confirm"@);
    assert(list[20]@ == "on_dismiss"@);
    assert(list[21]@ == "on_step"@);
    assert(list[22]@ == "disabled"@);
    assert(list[23]@ == "selectable"@);
    assert(list[24]@ == "scrollable"@);
    assert(list[25]@ == "selected"@);
    assert(list[26]@ == "checked"@);
    assert(list[27]@ == "accessibility_label"@);
    assert(list[28]@ == "tooltip"@);
    assert(list[29]@ == "role"@);
    assert(list[30]@ == "aria_selected"@);
    assert(list[31]@ == "aria_active_descendant"@);
    assert(list[32]@ == "tab_index"@);
    assert(list[33]@ == "tab_stop"@);
    assert(list[34]@ == "href"@);
    assert(list[35]@ == "id"@);
    assert(list[36]@ == "overflow_scroll"@);
    assert(list[37]@ == "overflow_x_scroll"@);
    assert(list[38]@ == "overflow_y_scroll"@);
    assert(list[39]@ == "overflow_scrollbar"@);
    assert(list[40]@ == "overflow_x_scrollbar"@);
    assert(list[41]@ == "overflow_y_scrollbar"@);
    assert(list[42]@ == "viewport_from_layout"@);
    assert(list[43]@ == "controls_right"@);
    assert(list[44]@ == "on_resize"@);
    assert(list[45]@ == "set_position"@);
    assert(list[46]@ == "pressed"@);
    assert(list[47]@ == "start"@);
    assert(list[48]@ == "value"@);
    assert(list[49]@ == "indeterminate"@);
    assert(list[50]@ == "row_count"@);
    assert(list[51]@ == "column_count"@);
    assert(list[52]@ == "open"@);
    assert(list[53]@ == "default_open"@);
    assert(list[54]@ == "overlay_closable"@);
    assert(list[55]@ == "with_item_to_measure_index"@);
}

} // verus!
