use gpui_shell::argument::{bridge, element_id, slot_index, Argument, Arguments, Bridged};
use gpui_shell::argument::{RenderedRoot, StyleArgument};
use gpui_shell::data::{
    component_data_from_js, component_data_into_js, is_reserved_key, no_marks, ComponentDataBudget,
    ComponentDataField, ComponentDataValue, MAX_COMPONENT_DATA_DEPTH, MAX_COMPONENT_DATA_NODES,
    MAX_COMPONENT_DATA_STRING_BYTES,
};
use gpui_shell::error::ErrorKind;
use gpui_shell::number::Number;
use gpui_shell::value::{Prototype, ScriptMarks, ScriptObject, ScriptProperty, ScriptValue};

fn number(value: f64) -> Number {
    Number { wide: value.to_bits(), narrow: (value as f32).to_bits() }
}

fn text(value: &str) -> ScriptValue {
    ScriptValue::Text(value.to_owned())
}

fn array(items: Vec<ScriptValue>) -> ScriptValue {
    ScriptValue::Array { slot: None, items }
}

fn property(key: &str, value: ScriptValue) -> ScriptProperty {
    ScriptProperty { key: key.to_owned(), accessor: false, value }
}

fn plain(properties: Vec<ScriptProperty>) -> ScriptObject {
    ScriptObject {
        marks: no_marks(),
        promise: false,
        prototype: Prototype::Ordinary,
        symbols: false,
        properties,
    }
}

fn marked(marks: ScriptMarks) -> ScriptValue {
    ScriptValue::Object(ScriptObject { marks, ..plain(Vec::new()) })
}

fn read(value: &ScriptValue) -> Result<ComponentDataValue, String> {
    component_data_from_js(value, 0, &mut ComponentDataBudget::new())
        .map_err(|error| error.message())
}

fn refusal(value: ScriptValue) -> String {
    match read(&value) {
        Ok(_) => panic!("the value is refused"),
        Err(message) => message,
    }
}

#[test]
fn plain_data_is_read_with_its_shape() {
    let value = ScriptValue::Object(plain(vec![
        property("id", text("a")),
        property(
            "cells",
            array(vec![
                ScriptValue::Number(number(1.0)),
                ScriptValue::Boolean(true),
                ScriptValue::Null,
                ScriptValue::Undefined,
            ]),
        ),
    ]));
    match read(&value) {
        Ok(ComponentDataValue::Object(fields)) => {
            assert_eq!(fields[0].key, "id");
            assert!(matches!(&fields[0].value, ComponentDataValue::String(text) if text == "a"));
            match &fields[1].value {
                ComponentDataValue::Array(items) => {
                    assert!(matches!(items[0], ComponentDataValue::Number(n) if n == number(1.0)));
                    assert!(matches!(items[1], ComponentDataValue::Boolean(true)));
                    assert!(matches!(items[2], ComponentDataValue::Null));
                    assert!(matches!(items[3], ComponentDataValue::Null));
                }
                _ => panic!("an array"),
            }
        }
        _ => panic!("an object"),
    }
}

#[test]
fn what_is_no_plain_data_is_refused() {
    assert_eq!(
        refusal(ScriptValue::Number(number(f64::INFINITY))),
        "component delegate numbers must be finite"
    );
    assert_eq!(
        refusal(ScriptValue::Function(1)),
        "component delegate data cannot contain functions"
    );
    assert_eq!(
        refusal(ScriptValue::Object(ScriptObject { promise: true, ..plain(Vec::new()) })),
        "component delegate data cannot contain promises"
    );
    assert_eq!(
        refusal(ScriptValue::Object(ScriptObject {
            prototype: Prototype::Foreign,
            ..plain(Vec::new())
        })),
        "component delegate objects must have Object.prototype or null prototype"
    );
    assert_eq!(
        refusal(ScriptValue::Object(ScriptObject { symbols: true, ..plain(Vec::new()) })),
        "component delegate objects cannot contain symbol keys"
    );
    let accessor = ScriptProperty { accessor: true, ..property("value", ScriptValue::Null) };
    assert_eq!(
        refusal(ScriptValue::Object(plain(vec![accessor]))),
        "component delegate objects cannot contain accessors"
    );
    assert_eq!(
        refusal(ScriptValue::Object(plain(vec![property("__id", ScriptValue::Number(number(7.0)))]))),
        "component delegate data cannot contain shell handles or elements"
    );
    assert_eq!(refusal(ScriptValue::Other), "component delegate callbacks may return only plain data");
    assert_eq!(refusal(ScriptValue::Raised("getter ran".to_owned())), "getter ran");
}

#[test]
fn data_has_limits() {
    let mut nested = ScriptValue::Null;
    for _ in 0..16 {
        nested = array(vec![nested]);
    }
    assert!(read(&nested).is_ok());
    assert_eq!(refusal(array(vec![nested])), "component delegate data is nested too deeply");

    let many = |count: usize| array((0..count).map(|_| ScriptValue::Null).collect());
    assert!(read(&many(4095)).is_ok());
    assert_eq!(refusal(many(4096)), "component delegate data contains too many values");

    let long = "x".repeat(1024 * 1024);
    assert!(read(&text(&long)).is_ok());
    assert_eq!(
        refusal(array(vec![text(&long), text("x")])),
        "component delegate strings exceed the byte limit"
    );

    let keys = |count: usize| {
        let fields = (0..count).map(|key| property(&key.to_string(), ScriptValue::Null));
        ScriptValue::Object(plain(fields.collect()))
    };
    assert!(read(&keys(1024)).is_ok());
    assert_eq!(refusal(keys(1025)), "component delegate objects contain too many keys");
}

#[test]
fn bytes_are_counted_and_not_characters() {
    let wide = "\u{1f600}".repeat(256 * 1024);
    assert!(read(&text(&wide)).is_ok());
    assert!(read(&array(vec![text(&wide), text("x")])).is_err());
}

#[test]
fn data_comes_back_as_it_went_to_a_script() {
    let data = ComponentDataValue::Object(vec![
        ComponentDataField {
            key: "label".to_owned(),
            value: ComponentDataValue::String("Ada".to_owned()),
        },
        ComponentDataField {
            key: "__proto__".to_owned(),
            value: ComponentDataValue::String("safe".to_owned()),
        },
        ComponentDataField {
            key: "row".to_owned(),
            value: ComponentDataValue::Array(vec![ComponentDataValue::Number(number(2.0))]),
        },
    ]);
    let shown = component_data_into_js(&data);
    match &shown {
        ScriptValue::Object(object) => {
            assert!(matches!(object.prototype, Prototype::Null));
            assert_eq!(object.properties[1].key, "__proto__");
        }
        _ => panic!("an object"),
    }
    match read(&shown) {
        Ok(ComponentDataValue::Object(fields)) => {
            let keys: Vec<&str> = fields.iter().map(|field| field.key.as_str()).collect();
            assert_eq!(keys, ["label", "__proto__", "row"]);
        }
        _ => panic!("an object"),
    }
}

#[test]
fn data_at_the_limits_comes_back() {
    let long = "x".repeat(MAX_COMPONENT_DATA_STRING_BYTES);
    let mut deepest = ComponentDataValue::String(long);
    for _ in 0..MAX_COMPONENT_DATA_DEPTH {
        deepest = ComponentDataValue::Array(vec![deepest]);
    }
    let wide = ComponentDataValue::Array(
        (1..MAX_COMPONENT_DATA_NODES).map(|_| ComponentDataValue::Null).collect(),
    );
    for sent in [deepest, wide] {
        let mut budget = ComponentDataBudget::new();
        let shown = component_data_into_js(&sent);
        assert!(component_data_from_js(&shown, 0, &mut budget).is_ok());
    }
}

#[test]
fn handles_have_reserved_keys() {
    assert!(is_reserved_key("__id"));
    assert!(is_reserved_key("__handle"));
    assert!(is_reserved_key("__componentStateHandle"));
    assert!(!is_reserved_key("__proto__"));
}

#[test]
fn arguments_are_a_list_of_what_a_script_can_pass() {
    let list = array(vec![
        text("left"),
        ScriptValue::Function(8),
        marked(ScriptMarks { element: Some(3), ..no_marks() }),
        marked(ScriptMarks { handle: Some(11), ..no_marks() }),
        array(vec![ScriptValue::Null]),
    ]);
    let arguments = Arguments::from_js(&list).unwrap_or_else(|_| panic!("arguments"));
    assert_eq!(arguments.len(), 5);
    assert!(matches!(arguments.first_value(), Some(Bridged::Str(text)) if text == "left"));
    assert_eq!(arguments.handler_at(1), Some(8));
    assert_eq!(arguments.first_handler(), None);
    assert!(matches!(arguments.get(2), Some(Argument::Element(3))));
    assert!(matches!(arguments.get(3), Some(Argument::Entity(11))));
    assert!(matches!(arguments.get(4), Some(Argument::Array(items)) if items.len() == 1));
    assert!(arguments.get(5).is_none());
}

#[test]
fn a_component_state_is_passed_with_its_proof() {
    let with_proof = marked(ScriptMarks {
        state_handle: Some(6),
        state_proof: Some("secret".to_owned()),
        ..no_marks()
    });
    let arguments =
        Arguments::from_js(&array(vec![with_proof])).unwrap_or_else(|_| panic!("arguments"));
    assert!(matches!(
        arguments.get(0),
        Some(Argument::RetainedState { handle: 6, proof }) if proof == "secret"
    ));
    let without = marked(ScriptMarks { state_handle: Some(6), ..no_marks() });
    assert!(Arguments::from_js(&array(vec![without])).is_err());
}

#[test]
fn arguments_have_limits() {
    assert_eq!(
        Arguments::from_js(&text("x")).err().map(|error| error.message()),
        Some("expected an argument list".to_owned())
    );
    let mut nested = ScriptValue::Null;
    for _ in 0..34 {
        nested = array(vec![nested]);
    }
    let deep = Arguments::from_js(&array(vec![nested])).err().expect("too deep");
    assert_eq!(deep.message(), "component arguments are nested too deeply");
    assert_eq!(deep.kind(), ErrorKind::Range);
    let many = array((0..10_001).map(|_| ScriptValue::Null).collect());
    let wide = Arguments::from_js(&many).err().expect("too many");
    assert_eq!(wide.message(), "component arguments contain too many nested values");
}

#[test]
fn only_values_are_values() {
    let arguments = |item: ScriptValue| {
        Arguments::from_js(&array(vec![item])).unwrap_or_else(|_| panic!("arguments"))
    };
    let message = |item: ScriptValue| match arguments(item).values("bg") {
        Ok(_) => panic!("no value"),
        Err(error) => error.message(),
    };
    assert!(message(ScriptValue::Function(1)).contains("`bg` does not take a function"));
    assert!(message(array(Vec::new())).contains("`bg` does not take an object or array"));
    let values = arguments(text("red")).values("bg").unwrap_or_else(|_| panic!("values"));
    assert!(matches!(values.value_at(0), Some(Bridged::Str(text)) if text == "red"));
    assert!(values.value_at(1).is_none());
}

#[test]
fn a_placeholder_stands_for_a_template_argument() {
    let slot = marked(ScriptMarks { slot: Some(number(2.0)), ..no_marks() });
    assert_eq!(slot_index(&slot), Some(2));
    let index = |value: f64| {
        slot_index(&marked(ScriptMarks { slot: Some(number(value)), ..no_marks() }))
    };
    assert_eq!(index(2.5), Some(2));
    assert_eq!(index(65535.0), Some(65535));
    assert_eq!(index(65536.0), None);
    assert_eq!(index(-1.0), None);
    assert_eq!(index(f64::NAN), None);
    let arguments = Arguments::from_js(&array(vec![ScriptValue::Null, slot]))
        .unwrap_or_else(|_| panic!("arguments"));
    assert_eq!(arguments.first_slot(), Some((1, 2)));
    assert!(Arguments::none().first_slot().is_none());
}

#[test]
fn a_style_takes_one_value() {
    assert!(matches!(StyleArgument::from_js(&ScriptValue::Function(1)), Ok(StyleArgument::Handler)));
    assert!(matches!(
        StyleArgument::from_js(&text("red")),
        Ok(StyleArgument::Value(Bridged::Str(_)))
    ));
}

#[test]
fn simple_values_cross_as_they_are() {
    assert!(matches!(bridge(&ScriptValue::Null), Ok(Bridged::Nil)));
    assert!(matches!(bridge(&ScriptValue::Boolean(true)), Ok(Bridged::Bool(true))));
    assert!(matches!(bridge(&ScriptValue::Other), Err(error) if error.kind() == ErrorKind::Type));
}

#[test]
fn a_render_answers_an_element_a_view_or_a_text() {
    assert!(matches!(element_id(&text("hi")), Ok(RenderedRoot::Text(text)) if text == "hi"));
    let element = marked(ScriptMarks { element: Some(7), ..no_marks() });
    assert!(matches!(element_id(&element), Ok(RenderedRoot::Element(7))));
    let view = marked(ScriptMarks { entity: true, token: Ok(4), ..no_marks() });
    assert!(matches!(element_id(&view), Ok(RenderedRoot::ChildView(4))));
    let error = element_id(&ScriptValue::Null).err().expect("nothing is no element");
    assert_eq!(error.message(), "render(cx) must return an element, an Entity, or a string");
}
