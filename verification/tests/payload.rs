use gpui_shell::number::Number;
use gpui_shell::payload::{
    callback_argument_to_js, click_payload, input_payload, key_payload, modifiers_changed_payload,
    modifiers_object, mouse_button_payload, mouse_move_payload, range_payload, resize_payload,
    script_keystroke, scroll_payload, slider_payload, Area, ComponentCallbackArgument, InputEvent,
    Keystroke, Modifiers, MouseButton, MousePress, Painted, Payload, Pointer, Scroll, SliderValue,
    Spot, TouchPhase,
};

const NONE: Modifiers =
    Modifiers { shift: false, control: false, alt: false, platform: false, function: false };

fn bits(value: f32) -> u32 {
    value.to_bits()
}

fn fields(payload: &Payload) -> Vec<&str> {
    match payload {
        Payload::Record(fields) => fields.iter().map(|field| field.name.as_str()).collect(),
        _ => panic!("a record"),
    }
}

fn field<'a>(payload: &'a Payload, name: &str) -> &'a Payload {
    match payload {
        Payload::Record(fields) => {
            &fields.iter().find(|field| field.name == name).expect("a field").value
        }
        _ => panic!("a record"),
    }
}

fn text(payload: &Payload) -> &str {
    match payload {
        Payload::Text(text) => text,
        _ => panic!("a text"),
    }
}

#[test]
fn the_platform_modifier_is_spelled_cmd_everywhere() {
    let chord = |modifiers: Modifiers, key: &str| {
        script_keystroke(&Keystroke { modifiers, key: key.to_owned(), key_char: None })
    };

    assert_eq!(chord(Modifiers { platform: true, ..NONE }, "s"), "cmd-s");
    assert_eq!(
        chord(Modifiers { platform: true, shift: true, ..NONE }, "p"),
        "cmd-shift-p",
        "the modifier order is the platform's own, so a chord round-trips"
    );
    assert_eq!(chord(Modifiers { control: true, ..NONE }, "c"), "ctrl-c");
    assert_eq!(chord(Modifiers { alt: true, ..NONE }, "f"), "alt-f");
    assert_eq!(chord(NONE, "escape"), "escape");
}

/// Reads a chord: its modifiers, in any order, and its key behind the last hyphen.
fn parse(chord: &str) -> Keystroke {
    let (modifiers, key) = chord.rsplit_once('-').unwrap_or(("", chord));
    let has = |name: &str| modifiers.split('-').any(|part| part == name);
    Keystroke {
        modifiers: Modifiers {
            shift: has("shift"),
            control: has("ctrl"),
            alt: has("alt"),
            platform: has("cmd"),
            function: has("fn"),
        },
        key: key.to_owned(),
        key_char: None,
    }
}

#[test]
fn the_spelling_round_trips_through_gpui_parse() {
    for chord in ["cmd-s", "cmd-shift-p", "ctrl-alt-delete", "escape"] {
        assert_eq!(script_keystroke(&parse(chord)), chord, "`{chord}` must come back as it went in");
    }
}

#[test]
fn every_modifier_has_its_place_in_a_chord() {
    let all = Modifiers { shift: true, control: true, alt: true, platform: true, function: true };
    let keystroke = Keystroke { modifiers: all, key: "x".to_owned(), key_char: None };
    assert_eq!(script_keystroke(&keystroke), "fn-ctrl-alt-cmd-shift-x");
}

#[test]
fn modifiers_are_five_flags() {
    let object = modifiers_object(Modifiers { alt: true, ..NONE });
    assert_eq!(fields(&object), ["shift", "control", "alt", "platform", "function"]);
    assert!(matches!(field(&object, "alt"), Payload::Boolean(true)));
    assert!(matches!(field(&object, "shift"), Payload::Boolean(false)));
}

#[test]
fn a_click_tells_how_often_and_with_which_modifiers() {
    let click = click_payload(2, NONE);
    assert_eq!(fields(&click), ["click_count", "modifiers"]);
    assert!(matches!(field(&click, "click_count"), Payload::Count(2)));
}

#[test]
fn a_press_on_an_element_that_was_not_painted_has_no_place_in_it() {
    let press = MousePress {
        button: MouseButton::Navigate,
        click_count: 0x1_0000_0003,
        pointer: Pointer { position: Spot { x: bits(4.0), y: bits(8.0) }, painted: None },
        modifiers: NONE,
    };
    let payload = mouse_button_payload(&press);
    assert_eq!(
        fields(&payload),
        ["button", "click_count", "position", "local_position", "bounds", "modifiers"]
    );
    assert_eq!(text(field(&payload, "button")), "left");
    assert!(matches!(field(&payload, "click_count"), Payload::Count(3)));
    assert!(matches!(field(&payload, "local_position"), Payload::Undefined));
    assert!(matches!(field(&payload, "bounds"), Payload::Undefined));
}

#[test]
fn buttons_are_named() {
    let press = |button: MouseButton| {
        let pointer = Pointer { position: Spot { x: 0, y: 0 }, painted: None };
        let press = MousePress { button, click_count: 1, pointer, modifiers: NONE };
        text(field(&mouse_button_payload(&press), "button")).to_owned()
    };
    assert_eq!(press(MouseButton::Left), "left");
    assert_eq!(press(MouseButton::Right), "right");
    assert_eq!(press(MouseButton::Middle), "middle");
}

#[test]
fn a_movement_tells_where_in_the_element_it_was() {
    let painted = Painted {
        local: Spot { x: bits(1.0), y: bits(2.0) },
        bounds: Area { x: bits(3.0), y: bits(4.0), width: bits(5.0), height: bits(6.0) },
    };
    let payload = mouse_move_payload(Spot { x: bits(4.0), y: bits(6.0) }, painted, NONE);
    assert_eq!(fields(&payload), ["position", "local_position", "bounds", "modifiers"]);
    let bounds = field(&payload, "bounds");
    assert_eq!(fields(bounds), ["x", "y", "width", "height"]);
    assert!(matches!(field(bounds, "width"), Payload::Single(value) if *value == bits(5.0)));
    let local = field(&payload, "local_position");
    assert!(matches!(field(local, "y"), Payload::Single(value) if *value == bits(2.0)));
}

#[test]
fn a_turn_of_the_wheel_counts_lines_where_the_device_does() {
    let scroll = |lines: Option<Spot>, touch_phase: TouchPhase| {
        scroll_payload(&Scroll {
            delta: Spot { x: 0, y: bits(12.0) },
            lines,
            touch_phase,
            pointer: Pointer { position: Spot { x: 0, y: 0 }, painted: None },
            modifiers: NONE,
        })
    };
    let pixels = scroll(None, TouchPhase::Moved);
    assert!(matches!(field(&pixels, "delta_lines"), Payload::Undefined));
    assert_eq!(text(field(&pixels, "touch_phase")), "moved");
    let lines = scroll(Some(Spot { x: 0, y: bits(1.0) }), TouchPhase::Cancelled);
    assert_eq!(fields(field(&lines, "delta_lines")), ["x", "y"]);
    assert_eq!(text(field(&lines, "touch_phase")), "cancelled");
    assert_eq!(text(field(&scroll(None, TouchPhase::Started), "touch_phase")), "started");
    assert_eq!(text(field(&scroll(None, TouchPhase::Ended), "touch_phase")), "ended");
}

#[test]
fn a_key_tells_whether_it_is_held_only_when_it_is_pressed() {
    let keystroke = Keystroke {
        modifiers: Modifiers { platform: true, ..NONE },
        key: "s".to_owned(),
        key_char: Some("s".to_owned()),
    };
    let pressed = key_payload(&keystroke, Some(true));
    assert_eq!(fields(&pressed), ["key", "keystroke", "key_char", "is_held", "modifiers"]);
    assert_eq!(text(field(&pressed, "keystroke")), "cmd-s");
    let released = key_payload(&keystroke, None);
    assert_eq!(fields(&released), ["key", "keystroke", "key_char", "modifiers"]);
    let silent = Keystroke { modifiers: NONE, key: "escape".to_owned(), key_char: None };
    assert!(matches!(field(&key_payload(&silent, None), "key_char"), Payload::Undefined));
}

#[test]
fn a_change_of_the_modifiers_tells_of_the_lock_too() {
    let payload = modifiers_changed_payload(NONE, true);
    assert_eq!(fields(&payload), ["modifiers", "capslock"]);
    assert!(matches!(field(field(&payload, "capslock"), "on"), Payload::Boolean(true)));
}

#[test]
fn only_the_enter_key_tells_more_than_that_it_happened() {
    let enter = input_payload(InputEvent::PressEnter { secondary: true, shift: false });
    assert_eq!(fields(&enter), ["secondary", "shift"]);
    assert!(fields(&input_payload(InputEvent::Change)).is_empty());
    assert!(fields(&input_payload(InputEvent::Blur)).is_empty());
}

#[test]
fn a_slider_tells_one_number_or_two() {
    assert!(matches!(
        slider_payload(SliderValue::Single(bits(0.5))),
        Payload::Single(value) if value == bits(0.5)
    ));
    match slider_payload(SliderValue::Range(bits(0.25), bits(0.75))) {
        Payload::List(items) => {
            assert_eq!(items.len(), 2);
            assert!(matches!(items[1], Payload::Single(value) if value == bits(0.75)));
        }
        _ => panic!("a list"),
    }
}

#[test]
fn sizes_are_listed_in_order() {
    match resize_payload(&vec![bits(100.0), bits(50.0)]) {
        Payload::List(items) => {
            assert!(matches!(items[0], Payload::Single(value) if value == bits(100.0)));
            assert!(matches!(items[1], Payload::Single(value) if value == bits(50.0)));
        }
        _ => panic!("a list"),
    }
}

#[test]
fn a_range_has_a_start_and_an_end() {
    let range = range_payload(4, 9);
    assert!(matches!(field(&range, "start"), Payload::Count(4)));
    assert!(matches!(field(&range, "end"), Payload::Count(9)));
}

#[test]
fn callback_arguments_keep_their_shape() {
    let number = Number { wide: 1.5f64.to_bits(), narrow: 1.5f32.to_bits() };
    let argument = ComponentCallbackArgument::Array(vec![
        ComponentCallbackArgument::String("a".to_owned()),
        ComponentCallbackArgument::Array(vec![ComponentCallbackArgument::Number(number)]),
        ComponentCallbackArgument::Boolean(true),
    ]);
    match callback_argument_to_js(&argument) {
        Payload::List(items) => {
            assert_eq!(text(&items[0]), "a");
            assert!(matches!(&items[1], Payload::List(inner)
                if matches!(inner[0], Payload::Number(value) if value == number)));
            assert!(matches!(items[2], Payload::Boolean(true)));
        }
        _ => panic!("a list"),
    }
}
