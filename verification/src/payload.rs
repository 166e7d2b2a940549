//! What the handler of an event is handed.
use crate::number::Number;
use vstd::prelude::*;
use vstd::string::*;

verus! {

/// A named value of a record.
pub struct PayloadField {
    pub name: String,
    pub value: Payload,
}

/// A value that a handler is handed.
pub enum Payload {
    Undefined,
    Boolean(bool),
    /// A number of things.
    Count(u64),
    /// A single-precision number, by its bits: a length or position in pixels, or a value.
    Single(u32),
    Number(Number),
    Text(String),
    List(Vec<Payload>),
    Record(Vec<PayloadField>),
}

/// A value that a handler is handed, with sequences in place of strings and vectors.
pub enum PayloadModel {
    Undefined,
    Boolean(bool),
    Count(u64),
    Single(u32),
    Number(Number),
    Text(Seq<char>),
    List(Seq<PayloadModel>),
    Record(Seq<(Seq<char>, PayloadModel)>),
}

impl Payload {
    /// The value, with sequences in place of strings and vectors.
    pub open spec fn model(self) -> PayloadModel
        decreases self,
    {
        match self {
            Payload::Undefined => PayloadModel::Undefined,
            Payload::Boolean(value) => PayloadModel::Boolean(value),
            Payload::Count(value) => PayloadModel::Count(value),
            Payload::Single(value) => PayloadModel::Single(value),
            Payload::Number(value) => PayloadModel::Number(value),
            Payload::Text(value) => PayloadModel::Text(value@),
            Payload::List(items) => PayloadModel::List(
                Seq::new(
                    items@.len(),
                    |i: int|
                        if 0 <= i < items@.len() {
                            items@[i].model()
                        } else {
                            arbitrary()
                        },
                ),
            ),
            Payload::Record(fields) => PayloadModel::Record(
                Seq::new(
                    fields@.len(),
                    |i: int|
                        if 0 <= i < fields@.len() {
                            (fields@[i].name@, fields@[i].value.model())
                        } else {
                            arbitrary()
                        },
                ),
            ),
        }
    }

    /// A record without fields.
    pub fn empty() -> (r: Self)
        ensures
            r.model() == PayloadModel::Record(Seq::empty()),
    {
        let fields: Vec<PayloadField> = Vec::new();
        let r = Payload::Record(fields);
        assert(r.model()->Record_0 =~= Seq::empty());
        r
    }

    /// A record with one more field.
    pub fn with(self, name: &str, value: Payload) -> (r: Self)
        requires
            self is Record,
        ensures
            r.model() == PayloadModel::Record(
                self.model()->Record_0.push((name@, value.model())),
            ),
    {
        let ghost before = self.model()->Record_0;
        let ghost added = (name@, value.model());
        match self {
            Payload::Record(old_fields) => {
                let mut fields = old_fields;
                fields.push(PayloadField { name: name.to_owned(), value });
                let r = Payload::Record(fields);
                assert(r.model()->Record_0 =~= before.push(added));
                r
            },
            other => other,
        }
    }

    /// A text.
    pub fn text(value: &str) -> (r: Self)
        ensures
            r.model() == PayloadModel::Text(value@),
    {
        Payload::Text(value.to_owned())
    }
}

/// Several values, with sequences in place of strings and vectors.
pub open spec fn payload_models(list: Seq<Payload>) -> Seq<PayloadModel> {
    list.map_values(|payload: Payload| payload.model())
}

/// The modifier keys that are held.
#[derive(Clone, Copy, PartialEq, Eq, Structural, Debug)]
pub struct Modifiers {
    pub shift: bool,
    pub control: bool,
    pub alt: bool,
    pub platform: bool,
    pub function: bool,
}

/// A key, the modifiers held with it, and the text it types.
pub struct Keystroke {
    pub modifiers: Modifiers,
    pub key: String,
    pub key_char: Option<String>,
}

/// A prefix, or nothing where its modifier is not held.
pub open spec fn prefix(held: bool, name: Seq<char>) -> Seq<char> {
    if held {
        name
    } else {
        Seq::empty()
    }
}

/// A chord, spelled the same way on every platform.
pub open spec fn spelled(modifiers: Modifiers, key: Seq<char>) -> Seq<char> {
    prefix(modifiers.function, "fn-"@) + prefix(modifiers.control, "ctrl-"@) + prefix(
        modifiers.alt,
        "alt-"@,
    ) + prefix(modifiers.platform, "cmd-"@) + prefix(modifiers.shift, "shift-"@) + key
}

/// A chord, spelled the same way on every platform, so that a script can compare it with a text.
pub fn script_keystroke(keystroke: &Keystroke) -> (r: String)
    ensures
        r@ == spelled(keystroke.modifiers, keystroke.key@),
{
    let mut out = String::new();
    if keystroke.modifiers.function {
        out.append("fn-");
    }
    if keystroke.modifiers.control {
        out.append("ctrl-");
    }
    if keystroke.modifiers.alt {
        out.append("alt-");
    }
    if keystroke.modifiers.platform {
        out.append("cmd-");
    }
    if keystroke.modifiers.shift {
        out.append("shift-");
    }
    out.append(keystroke.key.as_str());
    assert(out@ =~= spelled(keystroke.modifiers, keystroke.key@));
    out
}

/// The modifier keys, in the shape in which every event carries them.
pub open spec fn modifiers_model(modifiers: Modifiers) -> PayloadModel {
    PayloadModel::Record(
        seq![
            ("shift"@, PayloadModel::Boolean(modifiers.shift)),
            ("control"@, PayloadModel::Boolean(modifiers.control)),
            ("alt"@, PayloadModel::Boolean(modifiers.alt)),
            ("platform"@, PayloadModel::Boolean(modifiers.platform)),
            ("function"@, PayloadModel::Boolean(modifiers.function)),
        ],
    )
}

/// The modifier keys, in the shape in which every event carries them.
pub fn modifiers_object(modifiers: Modifiers) -> (r: Payload)
    ensures
        r.model() == modifiers_model(modifiers),
{
    let r = Payload::empty().with("shift", Payload::Boolean(modifiers.shift)).with(
        "control",
        Payload::Boolean(modifiers.control),
    ).with("alt", Payload::Boolean(modifiers.alt)).with(
        "platform",
        Payload::Boolean(modifiers.platform),
    ).with("function", Payload::Boolean(modifiers.function));
    assert(r.model()->Record_0 =~= modifiers_model(modifiers)->Record_0);
    r
}

/// A point, by the bits of its single-precision coordinates.
#[derive(Clone, Copy, PartialEq, Eq, Structural, Debug)]
pub struct Spot {
    pub x: u32,
    pub y: u32,
}

/// A box, by the bits of its single-precision coordinates.
#[derive(Clone, Copy, PartialEq, Eq, Structural, Debug)]
pub struct Area {
    pub x: u32,
    pub y: u32,
    pub width: u32,
    pub height: u32,
}

/// Where an event happened within an element that has been painted.
#[derive(Clone, Copy, PartialEq, Eq, Structural, Debug)]
pub struct Painted {
    pub local: Spot,
    pub bounds: Area,
}

/// Where an event happened in the window and, if the element has been painted, within it.
#[derive(Clone, Copy, PartialEq, Eq, Structural, Debug)]
pub struct Pointer {
    pub position: Spot,
    pub painted: Option<Painted>,
}

/// A point, as an event carries it.
pub open spec fn spot_model(spot: Spot) -> PayloadModel {
    PayloadModel::Record(
        seq![("x"@, PayloadModel::Single(spot.x)), ("y"@, PayloadModel::Single(spot.y))],
    )
}

fn spot_object(spot: Spot) -> (r: Payload)
    ensures
        r.model() == spot_model(spot),
{
    let r = Payload::empty().with("x", Payload::Single(spot.x)).with("y", Payload::Single(spot.y));
    assert(r.model()->Record_0 =~= spot_model(spot)->Record_0);
    r
}

/// A box, as an event carries it.
pub open spec fn area_model(area: Area) -> PayloadModel {
    PayloadModel::Record(
        seq![
            ("x"@, PayloadModel::Single(area.x)),
            ("y"@, PayloadModel::Single(area.y)),
            ("width"@, PayloadModel::Single(area.width)),
            ("height"@, PayloadModel::Single(area.height)),
        ],
    )
}

fn area_object(area: Area) -> (r: Payload)
    ensures
        r.model() == area_model(area),
{
    let r = Payload::empty().with("x", Payload::Single(area.x)).with(
        "y",
        Payload::Single(area.y),
    ).with("width", Payload::Single(area.width)).with("height", Payload::Single(area.height));
    assert(r.model()->Record_0 =~= area_model(area)->Record_0);
    r
}

/// Where the pointer was. What lies within the element is undefined, and not zero, for one that has
/// not been painted yet.
pub open spec fn pointer_fields(pointer: Pointer) -> Seq<(Seq<char>, PayloadModel)> {
    seq![
        ("position"@, spot_model(pointer.position)),
        (
            "local_position"@,
            match pointer.painted {
                Some(painted) => spot_model(painted.local),
                None => PayloadModel::Undefined,
            },
        ),
        (
            "bounds"@,
            match pointer.painted {
                Some(painted) => area_model(painted.bounds),
                None => PayloadModel::Undefined,
            },
        ),
    ]
}

/// Adds to a record where the pointer was.
pub fn set_pointer_geometry(payload: Payload, pointer: &Pointer) -> (r: Payload)
    requires
        payload is Record,
    ensures
        r.model() == PayloadModel::Record(payload.model()->Record_0 + pointer_fields(*pointer)),
{
    let ghost before = payload.model()->Record_0;
    let (local, bounds) = match pointer.painted {
        Some(painted) => (spot_object(painted.local), area_object(painted.bounds)),
        None => (Payload::Undefined, Payload::Undefined),
    };
    let r = payload.with("position", spot_object(pointer.position)).with(
        "local_position",
        local,
    ).with("bounds", bounds);
    assert(r.model()->Record_0 =~= before + pointer_fields(*pointer));
    r
}

/// A button of the mouse.
#[derive(Clone, Copy, PartialEq, Eq, Structural, Debug)]
pub enum MouseButton {
    Left,
    Right,
    Middle,
    /// One of the buttons that turn pages.
    Navigate,
}

/// The name of a button. What is none of the others is called left.
pub open spec fn button_name(button: MouseButton) -> Seq<char> {
    match button {
        MouseButton::Right => "right"@,
        MouseButton::Middle => "middle"@,
        _ => "left"@,
    }
}

/// A press or release of a mouse button.
#[derive(Clone, Copy, PartialEq, Eq, Structural, Debug)]
pub struct MousePress {
    pub button: MouseButton,
    pub click_count: u64,
    pub pointer: Pointer,
    pub modifiers: Modifiers,
}

/// A press or release, as an event carries it. Clicks are counted in 32 bits.
pub open spec fn mouse_button_model(press: MousePress) -> PayloadModel {
    PayloadModel::Record(
        seq![
            ("button"@, PayloadModel::Text(button_name(press.button))),
            ("click_count"@, PayloadModel::Count(press.click_count % 0x1_0000_0000)),
        ] + pointer_fields(press.pointer) + seq![("modifiers"@, modifiers_model(press.modifiers))],
    )
}

/// What a handler of a press or release of a mouse button is handed.
pub fn mouse_button_payload(press: &MousePress) -> (r: Payload)
    ensures
        r.model() == mouse_button_model(*press),
{
    let name = match press.button {
        MouseButton::Right => "right",
        MouseButton::Middle => "middle",
        _ => "left",
    };
    let pressed = Payload::empty().with("button", Payload::text(name)).with(
        "click_count",
        Payload::Count(press.click_count % 0x1_0000_0000),
    );
    let placed = set_pointer_geometry(pressed, &press.pointer);
    let r = placed.with("modifiers", modifiers_object(press.modifiers));
    assert(r.model()->Record_0 =~= mouse_button_model(*press)->Record_0);
    r
}

/// A click, as an event carries it.
pub open spec fn click_model(click_count: u64, modifiers: Modifiers) -> PayloadModel {
    PayloadModel::Record(
        seq![
            ("click_count"@, PayloadModel::Count(click_count)),
            ("modifiers"@, modifiers_model(modifiers)),
        ],
    )
}

/// What a handler of a click is handed.
pub fn click_payload(click_count: u64, modifiers: Modifiers) -> (r: Payload)
    ensures
        r.model() == click_model(click_count, modifiers),
{
    let r = Payload::empty().with("click_count", Payload::Count(click_count)).with(
        "modifiers",
        modifiers_object(modifiers),
    );
    assert(r.model()->Record_0 =~= click_model(click_count, modifiers)->Record_0);
    r
}

/// The sizes of a group's panels, in order.
pub open spec fn sizes_model(sizes: Seq<u32>) -> PayloadModel {
    PayloadModel::List(sizes.map_values(|size: u32| PayloadModel::Single(size)))
}

/// What a handler of a change of sizes is handed: the size of each panel, in order.
pub fn resize_payload(sizes: &Vec<u32>) -> (r: Payload)
    ensures
        r.model() == sizes_model(sizes@),
{
    let mut items: Vec<Payload> = Vec::new();
    let mut i: usize = 0;
    while i < sizes.len()
        invariant
            i <= sizes@.len(),
            items@.len() == i,
            forall|j: int|
                0 <= j < i ==> (#[trigger] items@[j]).model() == PayloadModel::Single(sizes@[j]),
        decreases sizes@.len() - i,
    {
        let item = Payload::Single(sizes[i]);
        assert(item.model() == PayloadModel::Single(sizes@[i as int]));
        items.push(item);
        i += 1;
    }
    let r = Payload::List(items);
    assert(r.model()->List_0 =~= sizes_model(sizes@)->List_0);
    r
}

/// A movement of the pointer over a painted element, as an event carries it.
pub open spec fn mouse_move_model(
    position: Spot,
    painted: Painted,
    modifiers: Modifiers,
) -> PayloadModel {
    PayloadModel::Record(
        pointer_fields(Pointer { position, painted: Some(painted) }) + seq![
            ("modifiers"@, modifiers_model(modifiers)),
        ],
    )
}

/// What a handler of a movement of the pointer is handed.
pub fn mouse_move_payload(position: Spot, painted: Painted, modifiers: Modifiers) -> (r: Payload)
    ensures
        r.model() == mouse_move_model(position, painted, modifiers),
{
    let pointer = Pointer { position, painted: Some(painted) };
    let r = set_pointer_geometry(Payload::empty(), &pointer).with(
        "modifiers",
        modifiers_object(modifiers),
    );
    assert(r.model()->Record_0 =~= mouse_move_model(position, painted, modifiers)->Record_0);
    r
}

/// An action, as an event carries it.
pub open spec fn action_model(action: Seq<char>) -> PayloadModel {
    PayloadModel::Record(seq![("action"@, PayloadModel::Text(action))])
}

/// What a handler of an action is handed.
pub fn action_payload(action: &str) -> (r: Payload)
    ensures
        r.model() == action_model(action@),
{
    let r = Payload::empty().with("action", Payload::text(action));
    assert(r.model()->Record_0 =~= action_model(action@)->Record_0);
    r
}

/// How far along a gesture is.
#[derive(Clone, Copy, PartialEq, Eq, Structural, Debug)]
pub enum TouchPhase {
    Started,
    Moved,
    Ended,
    Cancelled,
}

/// The name of the stage of a gesture.
pub open spec fn touch_name(phase: TouchPhase) -> Seq<char> {
    match phase {
        TouchPhase::Started => "started"@,
        TouchPhase::Moved => "moved"@,
        TouchPhase::Ended => "ended"@,
        TouchPhase::Cancelled => "cancelled"@,
    }
}

/// A turn of the wheel: how far in pixels and, where the device counts lines, how far in lines.
#[derive(Clone, Copy, PartialEq, Eq, Structural, Debug)]
pub struct Scroll {
    pub delta: Spot,
    pub lines: Option<Spot>,
    pub touch_phase: TouchPhase,
    pub pointer: Pointer,
    pub modifiers: Modifiers,
}

/// A turn of the wheel, as an event carries it.
pub open spec fn scroll_model(scroll: Scroll) -> PayloadModel {
    PayloadModel::Record(
        seq![
            ("delta"@, spot_model(scroll.delta)),
            (
                "delta_lines"@,
                match scroll.lines {
                    Some(lines) => spot_model(lines),
                    None => PayloadModel::Undefined,
                },
            ),
            ("touch_phase"@, PayloadModel::Text(touch_name(scroll.touch_phase))),
        ] + pointer_fields(scroll.pointer) + seq![
            ("modifiers"@, modifiers_model(scroll.modifiers)),
        ],
    )
}

/// What a handler of a turn of the wheel is handed.
pub fn scroll_payload(scroll: &Scroll) -> (r: Payload)
    ensures
        r.model() == scroll_model(*scroll),
{
    let lines = match scroll.lines {
        Some(lines) => spot_object(lines),
        None => Payload::Undefined,
    };
    let phase = match scroll.touch_phase {
        TouchPhase::Started => "started",
        TouchPhase::Moved => "moved",
        TouchPhase::Ended => "ended",
        TouchPhase::Cancelled => "cancelled",
    };
    let turned = Payload::empty().with("delta", spot_object(scroll.delta)).with(
        "delta_lines",
        lines,
    ).with("touch_phase", Payload::text(phase));
    let r = set_pointer_geometry(turned, &scroll.pointer).with(
        "modifiers",
        modifiers_object(scroll.modifiers),
    );
    assert(r.model()->Record_0 =~= scroll_model(*scroll)->Record_0);
    r
}

/// A change of the modifier keys, as an event carries it.
pub open spec fn modifiers_changed_model(modifiers: Modifiers, capslock: bool) -> PayloadModel {
    PayloadModel::Record(
        seq![
            ("modifiers"@, modifiers_model(modifiers)),
            ("capslock"@, PayloadModel::Record(seq![("on"@, PayloadModel::Boolean(capslock))])),
        ],
    )
}

/// What a handler of a change of the modifier keys is handed.
pub fn modifiers_changed_payload(modifiers: Modifiers, capslock: bool) -> (r: Payload)
    ensures
        r.model() == modifiers_changed_model(modifiers, capslock),
{
    let lock = Payload::empty().with("on", Payload::Boolean(capslock));
    assert(lock.model()->Record_0 =~= seq![("on"@, PayloadModel::Boolean(capslock))]);
    let r = Payload::empty().with("modifiers", modifiers_object(modifiers)).with("capslock", lock);
    assert(r.model()->Record_0 =~= modifiers_changed_model(modifiers, capslock)->Record_0);
    r
}

/// The text that a key types, as an event carries it.
pub open spec fn key_char_model(key_char: Option<String>) -> PayloadModel {
    match key_char {
        Some(typed) => PayloadModel::Text(typed@),
        None => PayloadModel::Undefined,
    }
}

/// A press or release of a key, as an event carries it. Only a press tells whether the key is held.
pub open spec fn key_model(keystroke: Keystroke, is_held: Option<bool>) -> PayloadModel {
    PayloadModel::Record(
        seq![
            ("key"@, PayloadModel::Text(keystroke.key@)),
            ("keystroke"@, PayloadModel::Text(spelled(keystroke.modifiers, keystroke.key@))),
            ("key_char"@, key_char_model(keystroke.key_char)),
        ] + (match is_held {
            Some(held) => seq![("is_held"@, PayloadModel::Boolean(held))],
            None => Seq::empty(),
        }) + seq![("modifiers"@, modifiers_model(keystroke.modifiers))],
    )
}

/// What a handler of a press or release of a key is handed.
pub fn key_payload(keystroke: &Keystroke, is_held: Option<bool>) -> (r: Payload)
    ensures
        r.model() == key_model(*keystroke, is_held),
{
    let chord = script_keystroke(keystroke);
    let typed = match &keystroke.key_char {
        Some(typed) => Payload::text(typed.as_str()),
        None => Payload::Undefined,
    };
    let pressed = Payload::empty().with("key", Payload::text(keystroke.key.as_str())).with(
        "keystroke",
        Payload::Text(chord),
    ).with("key_char", typed);
    let r = match is_held {
        Some(held) => pressed.with("is_held", Payload::Boolean(held)).with(
            "modifiers",
            modifiers_object(keystroke.modifiers),
        ),
        None => pressed.with("modifiers", modifiers_object(keystroke.modifiers)),
    };
    assert(r.model()->Record_0 =~= key_model(*keystroke, is_held)->Record_0);
    r
}

/// What happened to an input.
#[derive(Clone, Copy, PartialEq, Eq, Structural, Debug)]
pub enum InputEvent {
    Change,
    PressEnter { secondary: bool, shift: bool },
    Focus,
    Blur,
    SelectionRangeChange,
}

/// An input's event, as its handler is handed it: only the enter key has something to tell.
pub open spec fn input_model(event: InputEvent) -> PayloadModel {
    match event {
        InputEvent::PressEnter { secondary, shift } => PayloadModel::Record(
            seq![
                ("secondary"@, PayloadModel::Boolean(secondary)),
                ("shift"@, PayloadModel::Boolean(shift)),
            ],
        ),
        _ => PayloadModel::Record(Seq::empty()),
    }
}

/// What a handler of an input's event is handed.
pub fn input_payload(event: InputEvent) -> (r: Payload)
    ensures
        r.model() == input_model(event),
{
    match event {
        InputEvent::PressEnter { secondary, shift } => {
            let r = Payload::empty().with("secondary", Payload::Boolean(secondary)).with(
                "shift",
                Payload::Boolean(shift),
            );
            assert(r.model()->Record_0 =~= input_model(event)->Record_0);
            r
        },
        _ => Payload::empty(),
    }
}

/// Where a slider stands, by the bits of the single-precision numbers.
#[derive(Clone, Copy, PartialEq, Eq, Structural, Debug)]
pub enum SliderValue {
    Single(u32),
    Range(u32, u32),
}

/// A slider's value, as its handler is handed it: one number, or the two between which it lies.
pub open spec fn slider_model(value: SliderValue) -> PayloadModel {
    match value {
        SliderValue::Single(value) => PayloadModel::Single(value),
        SliderValue::Range(start, end) => sizes_model(seq![start, end]),
    }
}

/// What a handler of a slider's movement is handed.
pub fn slider_payload(value: SliderValue) -> (r: Payload)
    ensures
        r.model() == slider_model(value),
{
    match value {
        SliderValue::Single(value) => Payload::Single(value),
        SliderValue::Range(start, end) => {
            let both = vec![start, end];
            assert(both@ =~= seq![start, end]);
            resize_payload(&both)
        },
    }
}

/// The part of a list that is to be described, as its renderer is handed it.
pub open spec fn range_model(start: u64, end: u64) -> PayloadModel {
    PayloadModel::Record(
        seq![("start"@, PayloadModel::Count(start)), ("end"@, PayloadModel::Count(end))],
    )
}

/// What the renderer of a list's items is handed.
pub fn range_payload(start: u64, end: u64) -> (r: Payload)
    ensures
        r.model() == range_model(start, end),
{
    let r = Payload::empty().with("start", Payload::Count(start)).with(
        "end",
        Payload::Count(end),
    );
    assert(r.model()->Record_0 =~= range_model(start, end)->Record_0);
    r
}

/// A value that a component hands to a script function.
pub enum ComponentCallbackArgument {
    String(String),
    Number(Number),
    Boolean(bool),
    Array(Vec<ComponentCallbackArgument>),
}

impl ComponentCallbackArgument {
    /// What the script function is handed.
    pub open spec fn model(self) -> PayloadModel
        decreases self,
    {
        match self {
            ComponentCallbackArgument::String(value) => PayloadModel::Text(value@),
            ComponentCallbackArgument::Number(value) => PayloadModel::Number(value),
            ComponentCallbackArgument::Boolean(value) => PayloadModel::Boolean(value),
            ComponentCallbackArgument::Array(items) => PayloadModel::List(
                Seq::new(
                    items@.len(),
                    |i: int|
                        if 0 <= i < items@.len() {
                            items@[i].model()
                        } else {
                            arbitrary()
                        },
                ),
            ),
        }
    }
}

/// What a script function is handed for a component's value.
pub fn callback_argument_to_js(argument: &ComponentCallbackArgument) -> (r: Payload)
    ensures
        r.model() == argument.model(),
    decreases argument,
{
    match argument {
        ComponentCallbackArgument::String(value) => Payload::text(value.as_str()),
        ComponentCallbackArgument::Number(value) => Payload::Number(*value),
        ComponentCallbackArgument::Boolean(value) => Payload::Boolean(*value),
        ComponentCallbackArgument::Array(items) => {
            let mut out: Vec<Payload> = Vec::new();
            let mut i: usize = 0;
            while i < items.len()
                invariant
                    argument is Array,
                    *items == argument->Array_0,
                    i <= items@.len(),
                    out@.len() == i,
                    forall|j: int|
                        0 <= j < i ==> (#[trigger] out@[j]).model() == items@[j].model(),
                decreases items@.len() - i,
            {
                out.push(callback_argument_to_js(&items[i]));
                i += 1;
            }
            let r = Payload::List(out);
            assert(r.model()->List_0 =~= argument.model()->List_0);
            r
        },
    }
}

/// What a script function is handed for a component's values.
pub open spec fn argument_models(list: Seq<ComponentCallbackArgument>) -> Seq<PayloadModel> {
    list.map_values(|argument: ComponentCallbackArgument| argument.model())
}

/// What a script function is handed for a component's values, in order.
pub fn push_component_callback_arguments(
    arguments: &mut Vec<Payload>,
    values: &Vec<ComponentCallbackArgument>,
)
    ensures
        payload_models(final(arguments)@) == payload_models(old(arguments)@) + argument_models(
            values@,
        ),
{
    let ghost before = payload_models(arguments@);
    let mut i: usize = 0;
    assert(before + argument_models(values@.take(0)) =~= before);
    while i < values.len()
        invariant
            i <= values@.len(),
            payload_models(arguments@) == before + argument_models(values@.take(i as int)),
        decreases values@.len() - i,
    {
        let ghost prior = arguments@;
        let argument = callback_argument_to_js(&values[i]);
        let ghost added = argument.model();
        arguments.push(argument);
        proof {
            assert(payload_models(arguments@) =~= payload_models(prior).push(added));
            assert(values@.take(i + 1) =~= values@.take(i as int).push(values@[i as int]));
            assert(argument_models(values@.take(i + 1)) =~= argument_models(
                values@.take(i as int),
            ).push(added));
            assert(payload_models(arguments@) =~= before + argument_models(values@.take(i + 1)));
        }
        i += 1;
    }
    assert(values@.take(i as int) =~= values@);
}

/// Two chords with the same modifiers and the same key are spelled alike, and the spelling of a
/// chord ends in its key.
pub proof fn law_a_chord_has_one_spelling(a: Keystroke, b: Keystroke)
    requires
        a.modifiers == b.modifiers,
    ensures
        spelled(a.modifiers, a.key@) == spelled(b.modifiers, b.key@) <==> a.key@ == b.key@,
{
    let front = spelled(a.modifiers, Seq::empty());
    assert(spelled(a.modifiers, a.key@) =~= front + a.key@);
    assert(spelled(b.modifiers, b.key@) =~= front + b.key@);
    if front + a.key@ == front + b.key@ {
        let whole = front + a.key@;
        assert(whole.len() == front.len() + b.key@.len());
        assert(a.key@ =~= whole.skip(front.len() as int));
        assert(b.key@ =~= whole.skip(front.len() as int));
    }
}

/// Whether a record has fields of a name, and what they hold is this.
pub open spec fn tells(payload: PayloadModel, name: Seq<char>, value: PayloadModel) -> bool {
    &&& payload is Record
    &&& exists|i: int|
        0 <= i < payload->Record_0.len() && (#[trigger] payload->Record_0[i]).0 == name
    &&& forall|i: int|
        0 <= i < payload->Record_0.len() && (#[trigger] payload->Record_0[i]).0 == name
            ==> payload->Record_0[i].1 == value
}

/// Whether a value is a point with these coordinates.
pub open spec fn is_spot(payload: PayloadModel, spot: Spot) -> bool {
    &&& tells(payload, "x"@, PayloadModel::Single(spot.x))
    &&& tells(payload, "y"@, PayloadModel::Single(spot.y))
}

/// Whether a value is a box with these coordinates.
pub open spec fn is_area(payload: PayloadModel, area: Area) -> bool {
    &&& tells(payload, "x"@, PayloadModel::Single(area.x))
    &&& tells(payload, "y"@, PayloadModel::Single(area.y))
    &&& tells(payload, "width"@, PayloadModel::Single(area.width))
    &&& tells(payload, "height"@, PayloadModel::Single(area.height))
}

/// Whether a value tells of each modifier key whether it is held.
pub open spec fn is_modifiers(payload: PayloadModel, modifiers: Modifiers) -> bool {
    &&& tells(payload, "shift"@, PayloadModel::Boolean(modifiers.shift))
    &&& tells(payload, "control"@, PayloadModel::Boolean(modifiers.control))
    &&& tells(payload, "alt"@, PayloadModel::Boolean(modifiers.alt))
    &&& tells(payload, "platform"@, PayloadModel::Boolean(modifiers.platform))
    &&& tells(payload, "function"@, PayloadModel::Boolean(modifiers.function))
}

/// Whether a record tells a point under a name.
pub open spec fn tells_spot(payload: PayloadModel, name: Seq<char>, spot: Spot) -> bool {
    exists|found: PayloadModel| #[trigger] tells(payload, name, found) && is_spot(found, spot)
}

/// Whether a record tells a box under a name.
pub open spec fn tells_area(payload: PayloadModel, name: Seq<char>, area: Area) -> bool {
    exists|found: PayloadModel| #[trigger] tells(payload, name, found) && is_area(found, area)
}

/// Whether a record tells the modifier keys.
pub open spec fn tells_modifiers(payload: PayloadModel, modifiers: Modifiers) -> bool {
    exists|found: PayloadModel| #[trigger]
        tells(payload, "modifiers"@, found) && is_modifiers(found, modifiers)
}

/// Whether a record tells where the pointer was: in the window, and within the element only where
/// that has been painted.
pub open spec fn tells_pointer(payload: PayloadModel, pointer: Pointer) -> bool {
    &&& tells_spot(payload, "position"@, pointer.position)
    &&& match pointer.painted {
        Some(painted) => tells_spot(payload, "local_position"@, painted.local) && tells_area(
            payload,
            "bounds"@,
            painted.bounds,
        ),
        None => tells(payload, "local_position"@, PayloadModel::Undefined) && tells(
            payload,
            "bounds"@,
            PayloadModel::Undefined,
        ),
    }
}

proof fn lemma_tells(payload: PayloadModel, at: int)
    requires
        payload is Record,
        0 <= at < payload->Record_0.len(),
        forall|i: int|
            0 <= i < payload->Record_0.len() && i != at ==> (#[trigger] payload->Record_0[i]).0
                != payload->Record_0[at].0,
    ensures
        tells(payload, payload->Record_0[at].0, payload->Record_0[at].1),
{
    assert(payload->Record_0[at].0 == payload->Record_0[at].0);
}

proof fn lemma_axes_names()
    ensures
        "x"@ != "y"@,
        "x"@ != "width"@,
        "x"@ != "height"@,
        "y"@ != "width"@,
        "y"@ != "height"@,
        "width"@ != "height"@,
{
    reveal_strlit("x");
    assert("x"@.len() == 1);
    reveal_strlit("y");
    assert("y"@.len() == 1);
    reveal_strlit("width");
    assert("width"@.len() == 5);
    reveal_strlit("height");
    assert("height"@.len() == 6);
    assert("x"@[0] != "y"@[0]);
}

proof fn lemma_modifier_names()
    ensures
        "shift"@ != "control"@,
        "shift"@ != "alt"@,
        "shift"@ != "platform"@,
        "shift"@ != "function"@,
        "control"@ != "alt"@,
        "control"@ != "platform"@,
        "control"@ != "function"@,
        "alt"@ != "platform"@,
        "alt"@ != "function"@,
        "platform"@ != "function"@,
{
    reveal_strlit("shift");
    assert("shift"@.len() == 5);
    reveal_strlit("control");
    assert("control"@.len() == 7);
    reveal_strlit("alt");
    assert("alt"@.len() == 3);
    reveal_strlit("platform");
    assert("platform"@.len() == 8);
    reveal_strlit("function");
    assert("function"@.len() == 8);
    assert("platform"@[0] != "function"@[0]);
}

proof fn lemma_event_names()
    ensures
        "position"@ != "local_position"@,
        "position"@ != "bounds"@,
        "position"@ != "modifiers"@,
        "position"@ != "button"@,
        "position"@ != "click_count"@,
        "position"@ != "delta"@,
        "position"@ != "delta_lines"@,
        "position"@ != "touch_phase"@,
        "position"@ != "key"@,
        "position"@ != "keystroke"@,
        "position"@ != "key_char"@,
        "position"@ != "is_held"@,
        "position"@ != "capslock"@,
        "local_position"@ != "bounds"@,
        "local_position"@ != "modifiers"@,
        "local_position"@ != "button"@,
        "local_position"@ != "click_count"@,
        "local_position"@ != "delta"@,
        "local_position"@ != "delta_lines"@,
        "local_position"@ != "touch_phase"@,
        "local_position"@ != "key"@,
        "local_position"@ != "keystroke"@,
        "local_position"@ != "key_char"@,
        "local_position"@ != "is_held"@,
        "local_position"@ != "capslock"@,
        "bounds"@ != "modifiers"@,
        "bounds"@ != "button"@,
        "bounds"@ != "click_count"@,
        "bounds"@ != "delta"@,
        "bounds"@ != "delta_lines"@,
        "bounds"@ != "touch_phase"@,
        "bounds"@ != "key"@,
        "bounds"@ != "keystroke"@,
        "bounds"@ != "key_char"@,
        "bounds"@ != "is_held"@,
        "bounds"@ != "capslock"@,
        "modifiers"@ != "button"@,
        "modifiers"@ != "click_count"@,
        "modifiers"@ != "delta"@,
        "modifiers"@ != "delta_lines"@,
        "modifiers"@ != "touch_phase"@,
        "modifiers"@ != "key"@,
        "modifiers"@ != "keystroke"@,
        "modifiers"@ != "key_char"@,
        "modifiers"@ != "is_held"@,
        "modifiers"@ != "capslock"@,
        "button"@ != "click_count"@,
        "button"@ != "delta"@,
        "button"@ != "delta_lines"@,
        "button"@ != "touch_phase"@,
        "button"@ != "key"@,
        "button"@ != "keystroke"@,
        "button"@ != "key_char"@,
        "button"@ != "is_held"@,
        "button"@ != "capslock"@,
        "click_count"@ != "delta"@,
        "click_count"@ != "delta_lines"@,
        "click_count"@ != "touch_phase"@,
        "click_count"@ != "key"@,
        "click_count"@ != "keystroke"@,
        "click_count"@ != "key_char"@,
        "click_count"@ != "is_held"@,
        "click_count"@ != "capslock"@,
        "delta"@ != "delta_lines"@,
        "delta"@ != "touch_phase"@,
        "delta"@ != "key"@,
        "delta"@ != "keystroke"@,
        "delta"@ != "key_char"@,
        "delta"@ != "is_held"@,
        "delta"@ != "capslock"@,
        "delta_lines"@ != "touch_phase"@,
        "delta_lines"@ != "key"@,
        "delta_lines"@ != "keystroke"@,
        "delta_lines"@ != "key_char"@,
        "delta_lines"@ != "is_held"@,
        "delta_lines"@ != "capslock"@,
        "touch_phase"@ != "key"@,
        "touch_phase"@ != "keystroke"@,
        "touch_phase"@ != "key_char"@,
        "touch_phase"@ != "is_held"@,
        "touch_phase"@ != "capslock"@,
        "key"@ != "keystroke"@,
        "key"@ != "key_char"@,
        "key"@ != "is_held"@,
        "key"@ != "capslock"@,
        "keystroke"@ != "key_char"@,
        "keystroke"@ != "is_held"@,
        "keystroke"@ != "capslock"@,
        "key_char"@ != "is_held"@,
        "key_char"@ != "capslock"@,
        "is_held"@ != "capslock"@,
{
    reveal_strlit("position");
    assert("position"@.len() == 8);
    reveal_strlit("local_position");
    assert("local_position"@.len() == 14);
    reveal_strlit("bounds");
    assert("bounds"@.len() == 6);
    reveal_strlit("modifiers");
    assert("modifiers"@.len() == 9);
    reveal_strlit("button");
    assert("button"@.len() == 6);
    reveal_strlit("click_count");
    assert("click_count"@.len() == 11);
    reveal_strlit("delta");
    assert("delta"@.len() == 5);
    reveal_strlit("delta_lines");
    assert("delta_lines"@.len() == 11);
    reveal_strlit("touch_phase");
    assert("touch_phase"@.len() == 11);
    reveal_strlit("key");
    assert("key"@.len() == 3);
    reveal_strlit("keystroke");
    assert("keystroke"@.len() == 9);
    reveal_strlit("key_char");
    assert("key_char"@.len() == 8);
    reveal_strlit("is_held");
    assert("is_held"@.len() == 7);
    reveal_strlit("capslock");
    assert("capslock"@.len() == 8);
    assert("position"@[0] != "key_char"@[0]);
    assert("position"@[0] != "capslock"@[0]);
    assert("bounds"@[1] != "button"@[1]);
    assert("modifiers"@[0] != "keystroke"@[0]);
    assert("click_count"@[0] != "delta_lines"@[0]);
    assert("click_count"@[0] != "touch_phase"@[0]);
    assert("delta_lines"@[0] != "touch_phase"@[0]);
    assert("key_char"@[0] != "capslock"@[0]);
}

proof fn lemma_pair_names()
    ensures
        "start"@ != "end"@,
{
    reveal_strlit("start");
    assert("start"@.len() == 5);
    reveal_strlit("end");
    assert("end"@.len() == 3);
}

proof fn lemma_enter_names()
    ensures
        "secondary"@ != "shift"@,
{
    reveal_strlit("secondary");
    assert("secondary"@.len() == 9);
    reveal_strlit("shift");
    assert("shift"@.len() == 5);
}

proof fn lemma_spot(spot: Spot)
    ensures
        is_spot(spot_model(spot), spot),
{
    lemma_axes_names();
    let told = spot_model(spot);
    assert(told->Record_0.len() == 2);
    lemma_tells(told, 0);
    lemma_tells(told, 1);
}

proof fn lemma_area(area: Area)
    ensures
        is_area(area_model(area), area),
{
    lemma_axes_names();
    let told = area_model(area);
    assert(told->Record_0.len() == 4);
    lemma_tells(told, 0);
    lemma_tells(told, 1);
    lemma_tells(told, 2);
    lemma_tells(told, 3);
}

proof fn lemma_modifiers(modifiers: Modifiers)
    ensures
        is_modifiers(modifiers_model(modifiers), modifiers),
{
    lemma_modifier_names();
    let told = modifiers_model(modifiers);
    assert(told->Record_0.len() == 5);
    lemma_tells(told, 0);
    lemma_tells(told, 1);
    lemma_tells(told, 2);
    lemma_tells(told, 3);
    lemma_tells(told, 4);
}

proof fn lemma_pointer(pointer: Pointer)
    ensures
        is_spot(spot_model(pointer.position), pointer.position),
        pointer.painted matches Some(painted) ==> is_spot(spot_model(painted.local), painted.local)
            && is_area(area_model(painted.bounds), painted.bounds),
{
    lemma_spot(pointer.position);
    match pointer.painted {
        Some(painted) => {
            lemma_spot(painted.local);
            lemma_area(painted.bounds);
        },
        None => {},
    }
}

/// A handler of a press or release is told the button, how often it was pressed, where the pointer
/// was in the window and within the element, and the modifier keys. The position in the window does
/// not depend on the element.
pub proof fn law_a_press_is_told_as_it_was(press: MousePress)
    ensures
        tells_pointer(mouse_button_model(press), press.pointer),
        tells_modifiers(mouse_button_model(press), press.modifiers),
        press.button == MouseButton::Right ==> tells(
            mouse_button_model(press),
            "button"@,
            PayloadModel::Text("right"@),
        ),
        press.button == MouseButton::Middle ==> tells(
            mouse_button_model(press),
            "button"@,
            PayloadModel::Text("middle"@),
        ),
        press.button == MouseButton::Left || press.button == MouseButton::Navigate ==> tells(
            mouse_button_model(press),
            "button"@,
            PayloadModel::Text("left"@),
        ),
        press.click_count <= u32::MAX ==> tells(
            mouse_button_model(press),
            "click_count"@,
            PayloadModel::Count(press.click_count),
        ),
{
    lemma_event_names();
    lemma_pointer(press.pointer);
    lemma_modifiers(press.modifiers);
    let told = mouse_button_model(press);
    assert(told->Record_0.len() == 6);
    lemma_tells(told, 0);
    lemma_tells(told, 1);
    lemma_tells(told, 2);
    lemma_tells(told, 3);
    lemma_tells(told, 4);
    lemma_tells(told, 5);
}

/// A handler of a movement is told where the pointer is in the window and within the element, and
/// the modifier keys.
pub proof fn law_a_movement_is_told_as_it_was(position: Spot, painted: Painted, modifiers: Modifiers)
    ensures
        tells_pointer(
            mouse_move_model(position, painted, modifiers),
            Pointer { position, painted: Some(painted) },
        ),
        tells_modifiers(mouse_move_model(position, painted, modifiers), modifiers),
{
    lemma_event_names();
    lemma_pointer(Pointer { position, painted: Some(painted) });
    lemma_modifiers(modifiers);
    let told = mouse_move_model(position, painted, modifiers);
    assert(told->Record_0.len() == 4);
    lemma_tells(told, 0);
    lemma_tells(told, 1);
    lemma_tells(told, 2);
    lemma_tells(told, 3);
}

/// A handler of a turn of the wheel is told how far it was turned, in lines only where the device
/// counts them, how far along the gesture is, where the pointer was, and the modifier keys.
pub proof fn law_a_turn_is_told_as_it_was(scroll: Scroll)
    ensures
        tells_pointer(scroll_model(scroll), scroll.pointer),
        tells_modifiers(scroll_model(scroll), scroll.modifiers),
        tells_spot(scroll_model(scroll), "delta"@, scroll.delta),
        match scroll.lines {
            Some(lines) => tells_spot(scroll_model(scroll), "delta_lines"@, lines),
            None => tells(scroll_model(scroll), "delta_lines"@, PayloadModel::Undefined),
        },
        match scroll.touch_phase {
            TouchPhase::Started => tells(
                scroll_model(scroll),
                "touch_phase"@,
                PayloadModel::Text("started"@),
            ),
            TouchPhase::Moved => tells(
                scroll_model(scroll),
                "touch_phase"@,
                PayloadModel::Text("moved"@),
            ),
            TouchPhase::Ended => tells(
                scroll_model(scroll),
                "touch_phase"@,
                PayloadModel::Text("ended"@),
            ),
            TouchPhase::Cancelled => tells(
                scroll_model(scroll),
                "touch_phase"@,
                PayloadModel::Text("cancelled"@),
            ),
        },
{
    lemma_event_names();
    lemma_pointer(scroll.pointer);
    lemma_modifiers(scroll.modifiers);
    lemma_spot(scroll.delta);
    match scroll.lines {
        Some(lines) => {
            lemma_spot(lines);
        },
        None => {},
    }
    let told = scroll_model(scroll);
    assert(told->Record_0.len() == 7);
    lemma_tells(told, 0);
    lemma_tells(told, 1);
    lemma_tells(told, 2);
    lemma_tells(told, 3);
    lemma_tells(told, 4);
    lemma_tells(told, 5);
    lemma_tells(told, 6);
}

/// A handler of a click is told how often was clicked, and the modifier keys.
pub proof fn law_a_click_is_told_as_it_was(click_count: u64, modifiers: Modifiers)
    ensures
        tells(click_model(click_count, modifiers), "click_count"@, PayloadModel::Count(click_count)),
        tells_modifiers(click_model(click_count, modifiers), modifiers),
{
    lemma_event_names();
    lemma_modifiers(modifiers);
    let told = click_model(click_count, modifiers);
    assert(told->Record_0.len() == 2);
    lemma_tells(told, 0);
    lemma_tells(told, 1);
}

/// A handler of a key is told the key, its chord, the text it types if it types any, the modifier
/// keys, and of a press whether the key is held.
pub proof fn law_a_key_is_told_as_it_was(keystroke: Keystroke, is_held: Option<bool>)
    ensures
        tells(key_model(keystroke, is_held), "key"@, PayloadModel::Text(keystroke.key@)),
        tells(
            key_model(keystroke, is_held),
            "keystroke"@,
            PayloadModel::Text(spelled(keystroke.modifiers, keystroke.key@)),
        ),
        match keystroke.key_char {
            Some(typed) => tells(
                key_model(keystroke, is_held),
                "key_char"@,
                PayloadModel::Text(typed@),
            ),
            None => tells(key_model(keystroke, is_held), "key_char"@, PayloadModel::Undefined),
        },
        match is_held {
            Some(held) => tells(
                key_model(keystroke, is_held),
                "is_held"@,
                PayloadModel::Boolean(held),
            ),
            None => forall|value: PayloadModel|
                !tells(key_model(keystroke, is_held), "is_held"@, value),
        },
        tells_modifiers(key_model(keystroke, is_held), keystroke.modifiers),
{
    lemma_event_names();
    lemma_modifiers(keystroke.modifiers);
    let told = key_model(keystroke, is_held);
    match is_held {
        Some(held) => {
            assert(told->Record_0.len() == 5);
        lemma_tells(told, 0);
            lemma_tells(told, 1);
            lemma_tells(told, 2);
            lemma_tells(told, 3);
            lemma_tells(told, 4);
        },
        None => {
            assert(told->Record_0.len() == 4);
        lemma_tells(told, 0);
            lemma_tells(told, 1);
            lemma_tells(told, 2);
            lemma_tells(told, 3);
            assert forall|value: PayloadModel| !tells(told, "is_held"@, value) by {
                if tells(told, "is_held"@, value) {
                    let i = choose|i: int|
                        0 <= i < told->Record_0.len() && (#[trigger] told->Record_0[i]).0
                            == "is_held"@;
                    assert(told->Record_0[i].0 == "is_held"@);
                }
            }
        },
    }
}

proof fn lemma_regrouped(
    a: Seq<char>,
    b: Seq<char>,
    c: Seq<char>,
    d: Seq<char>,
    e: Seq<char>,
    key: Seq<char>,
)
    ensures
        a + b + c + d + e + key == a + (b + (c + (d + (e + key)))),
{
    let last = e + key;
    assert(a + b + c + d + e + key =~= a + b + c + d + last);
    let more = d + last;
    assert(a + b + c + d + last =~= a + b + c + more);
    let rest = c + more;
    assert(a + b + c + more =~= a + b + rest);
    assert(a + b + rest =~= a + (b + rest));
}

proof fn lemma_spelled(modifiers: Modifiers, key: Seq<char>)
    ensures
        spelled(modifiers, key) == prefix(modifiers.function, "fn-"@) + (prefix(
            modifiers.control,
            "ctrl-"@,
        ) + (prefix(modifiers.alt, "alt-"@) + (prefix(modifiers.platform, "cmd-"@) + (prefix(
            modifiers.shift,
            "shift-"@,
        ) + key)))),
        forall|rest: Seq<char>| #[trigger] (Seq::<char>::empty() + rest) == rest,
{
    lemma_regrouped(
        prefix(modifiers.function, "fn-"@),
        prefix(modifiers.control, "ctrl-"@),
        prefix(modifiers.alt, "alt-"@),
        prefix(modifiers.platform, "cmd-"@),
        prefix(modifiers.shift, "shift-"@),
        key,
    );
    assert forall|rest: Seq<char>| #[trigger] (Seq::<char>::empty() + rest) == rest by {
        assert(Seq::<char>::empty() + rest =~= rest);
    }
}

/// The spelling of a chord is that of its key, with a mark for each modifier that is held: first that
/// of `function`, then of `control`, `alt`, `platform` and `shift`.
pub proof fn law_a_chord_is_spelled_modifier_by_modifier(modifiers: Modifiers, key: Seq<char>)
    ensures
        modifiers.function ==> spelled(modifiers, key) == "fn-"@ + spelled(
            Modifiers { function: false, ..modifiers },
            key,
        ),
        !modifiers.function && modifiers.control ==> spelled(modifiers, key) == "ctrl-"@ + spelled(
            Modifiers { control: false, ..modifiers },
            key,
        ),
        !modifiers.function && !modifiers.control && modifiers.alt ==> spelled(modifiers, key)
            == "alt-"@ + spelled(Modifiers { alt: false, ..modifiers }, key),
        !modifiers.function && !modifiers.control && !modifiers.alt && modifiers.platform ==> spelled(
            modifiers,
            key,
        ) == "cmd-"@ + spelled(Modifiers { platform: false, ..modifiers }, key),
        !modifiers.function && !modifiers.control && !modifiers.alt && !modifiers.platform
            && modifiers.shift ==> spelled(modifiers, key) == "shift-"@ + key,
        !modifiers.function && !modifiers.control && !modifiers.alt && !modifiers.platform
            && !modifiers.shift ==> spelled(modifiers, key) == key,
{
    lemma_spelled(modifiers, key);
    lemma_spelled(Modifiers { function: false, ..modifiers }, key);
    lemma_spelled(Modifiers { control: false, ..modifiers }, key);
    lemma_spelled(Modifiers { alt: false, ..modifiers }, key);
    lemma_spelled(Modifiers { platform: false, ..modifiers }, key);
}

/// A change of the modifier keys tells each of them, and whether capitals are locked.
pub proof fn law_held_modifiers_are_told(modifiers: Modifiers, capslock: bool)
    ensures
        tells_modifiers(modifiers_changed_model(modifiers, capslock), modifiers),
        exists|lock: PayloadModel| #[trigger]
            tells(modifiers_changed_model(modifiers, capslock), "capslock"@, lock) && tells(
                lock,
                "on"@,
                PayloadModel::Boolean(capslock),
            ),
{
    lemma_event_names();
    lemma_modifiers(modifiers);
    let told = modifiers_changed_model(modifiers, capslock);
    assert(told->Record_0.len() == 2);
    lemma_tells(told, 0);
    lemma_tells(told, 1);
    let lock = PayloadModel::Record(seq![("on"@, PayloadModel::Boolean(capslock))]);
    lemma_tells(lock, 0);
    assert(tells(told, "capslock"@, lock));
}

/// The sizes of a group's panels are told one by one, in order, and so are the two ends of a slider's
/// range; the value of a slider with one is told as it is.
pub proof fn law_sizes_are_told_in_order(sizes: Seq<u32>, start: u32, end: u32)
    ensures
        sizes_model(sizes) is List,
        sizes_model(sizes)->List_0.len() == sizes.len(),
        forall|i: int|
            0 <= i < sizes.len() ==> #[trigger] sizes_model(sizes)->List_0[i]
                == PayloadModel::Single(sizes[i]),
        slider_model(SliderValue::Single(start)) == PayloadModel::Single(start),
        slider_model(SliderValue::Range(start, end)) is List,
        slider_model(SliderValue::Range(start, end))->List_0.len() == 2,
        slider_model(SliderValue::Range(start, end))->List_0[0] == PayloadModel::Single(start),
        slider_model(SliderValue::Range(start, end))->List_0[1] == PayloadModel::Single(end),
{
}

/// An action is told by its name, a range by its two ends, and the enter key by what was held with
/// it; no other event of an input has anything to tell.
pub proof fn law_small_events_are_told_as_they_were(
    action: Seq<char>,
    start: u64,
    end: u64,
    secondary: bool,
    shift: bool,
)
    ensures
        tells(action_model(action), "action"@, PayloadModel::Text(action)),
        tells(range_model(start, end), "start"@, PayloadModel::Count(start)),
        tells(range_model(start, end), "end"@, PayloadModel::Count(end)),
        tells(
            input_model(InputEvent::PressEnter { secondary, shift }),
            "secondary"@,
            PayloadModel::Boolean(secondary),
        ),
        tells(
            input_model(InputEvent::PressEnter { secondary, shift }),
            "shift"@,
            PayloadModel::Boolean(shift),
        ),
        forall|event: InputEvent|
            !(event is PressEnter) ==> (#[trigger] input_model(event)) is Record && input_model(
                event,
            )->Record_0.len() == 0,
{
    lemma_pair_names();
    lemma_enter_names();
    lemma_tells(action_model(action), 0);
    let range = range_model(start, end);
    assert(range->Record_0.len() == 2);
    lemma_tells(range, 0);
    lemma_tells(range, 1);
    let enter = input_model(InputEvent::PressEnter { secondary, shift });
    assert(enter->Record_0.len() == 2);
    lemma_tells(enter, 0);
    lemma_tells(enter, 1);
}

/// What a component hands to a script function arrives as it was handed over: a text, a number or a
/// flag as it is, and a list with as many values, each as it arrives by itself.
pub proof fn law_component_values_arrive_unchanged(argument: ComponentCallbackArgument)
    ensures
        argument matches ComponentCallbackArgument::String(value) ==> argument.model()
            == PayloadModel::Text(value@),
        argument matches ComponentCallbackArgument::Number(value) ==> argument.model()
            == PayloadModel::Number(value),
        argument matches ComponentCallbackArgument::Boolean(value) ==> argument.model()
            == PayloadModel::Boolean(value),
        argument matches ComponentCallbackArgument::Array(items) ==> {
            &&& argument.model() is List
            &&& argument.model()->List_0.len() == items@.len()
            &&& forall|i: int|
                0 <= i < items@.len() ==> #[trigger] argument.model()->List_0[i]
                    == items@[i].model()
        },
{
}

} // verus!
