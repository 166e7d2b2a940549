use gpui_shell::arena::{Component, SpecArena};
use gpui_shell::argument::Arguments;
use gpui_shell::callbacks::CallbackArena;
use gpui_shell::calls::{
    begin_component_payload, begin_retained_state, finish_component_payload,
    finish_retained_state, PayloadDraft, StateCreation,
};
use gpui_shell::data::no_marks;
use gpui_shell::error::ErrorKind;
use gpui_shell::number::Number;
use gpui_shell::schema::{
    collect_component_elements, schema_name, ArgumentDescriptor, ArgumentSchema, ComponentArgument,
    EntityKind,
};
use gpui_shell::scope::{CurrentApplication, HostScope, ScopePhase};
use gpui_shell::states::RetainedStates;
use gpui_shell::value::{Prototype, ScriptMarks, ScriptObject, ScriptValue};

const HERE: HostScope = HostScope {
    phase: Some(ScopePhase::Event),
    policy: Some(1),
    application: Some(CurrentApplication { generation: 6, active: true }),
    view: Some(2),
};

fn number(value: f64) -> ScriptValue {
    ScriptValue::Number(Number { wide: value.to_bits(), narrow: (value as f32).to_bits() })
}

fn text(value: &str) -> ScriptValue {
    ScriptValue::Text(value.to_owned())
}

fn marked(marks: ScriptMarks) -> ScriptValue {
    ScriptValue::Object(ScriptObject {
        marks,
        promise: false,
        prototype: Prototype::Ordinary,
        symbols: false,
        properties: Vec::new(),
    })
}

fn element(id: u32) -> ScriptValue {
    marked(ScriptMarks { element: Some(id), ..no_marks() })
}

fn state(handle: u64, proof: &str) -> ScriptValue {
    marked(ScriptMarks {
        state_handle: Some(handle),
        state_proof: Some(proof.to_owned()),
        ..no_marks()
    })
}

fn descriptor(name: &str, schema: ArgumentSchema) -> ArgumentDescriptor {
    ArgumentDescriptor { name: name.to_owned(), schema }
}

struct World {
    arena: SpecArena,
    entities: Vec<EntityKind>,
    states: RetainedStates,
    functions: CallbackArena,
}

impl World {
    fn new() -> Self {
        let mut functions = CallbackArena::new();
        functions.begin();
        World {
            arena: SpecArena::new(),
            entities: vec![EntityKind { handle: 50, kind: "Focus".to_owned() }],
            states: RetainedStates::new(2),
            functions,
        }
    }

    fn begin(
        &mut self,
        descriptors: Vec<ArgumentDescriptor>,
        items: Vec<ScriptValue>,
    ) -> Result<PayloadDraft, String> {
        let arguments = Arguments::from_js(&ScriptValue::Array { slot: None, items })
            .unwrap_or_else(|_| panic!("arguments"));
        begin_component_payload(
            "Chart.new",
            &descriptors,
            &arguments,
            &self.arena,
            &self.entities,
            &mut self.states,
            "proof",
            &HERE,
            Some(9),
            &mut self.functions,
        )
        .map_err(|error| error.message())
    }

    fn refusal(&mut self, schema: ArgumentSchema, item: ScriptValue) -> String {
        match self.begin(vec![descriptor("first", schema)], vec![item]) {
            Ok(_) => panic!("the call is refused"),
            Err(message) => message,
        }
    }

    fn first(&mut self, schema: ArgumentSchema, item: ScriptValue) -> ComponentArgument {
        let draft = self
            .begin(vec![descriptor("first", schema)], vec![item])
            .unwrap_or_else(|message| panic!("{message}"));
        draft.arguments.into_iter().next().expect("an argument")
    }
}

fn words(list: &[&str]) -> ArgumentSchema {
    ArgumentSchema::Enum(list.iter().map(|word| (*word).to_owned()).collect())
}

#[test]
fn a_schema_says_what_it_expects() {
    assert_eq!(schema_name(&ArgumentSchema::String), "a string");
    assert_eq!(schema_name(&ArgumentSchema::Number), "a finite number");
    assert_eq!(schema_name(&ArgumentSchema::Boolean), "a boolean");
    assert_eq!(schema_name(&ArgumentSchema::Element), "an Element");
    assert_eq!(schema_name(&ArgumentSchema::Entity("Focus".to_owned())), "a Focus entity");
    assert_eq!(schema_name(&ArgumentSchema::Callback), "a function");
    assert_eq!(schema_name(&words(&["a", "b"])), "`a`, `b`");
    let list = ArgumentSchema::Array(Box::new(ArgumentSchema::Optional(Box::new(
        ArgumentSchema::String,
    ))));
    assert_eq!(schema_name(&list), "an array of an optional a string");
}

#[test]
fn arguments_are_checked_against_their_schema() {
    let mut world = World::new();
    assert!(matches!(
        world.first(ArgumentSchema::String, text("x")),
        ComponentArgument::String(value) if value == "x"
    ));
    assert!(matches!(
        world.first(words(&["small", "large"]), text("large")),
        ComponentArgument::Enum(value) if value == "large"
    ));
    assert!(matches!(
        world.first(ArgumentSchema::Boolean, ScriptValue::Boolean(true)),
        ComponentArgument::Boolean(true)
    ));
    assert!(matches!(
        world.first(
            ArgumentSchema::Entity("Focus".to_owned()),
            marked(ScriptMarks { handle: Some(50), ..no_marks() })
        ),
        ComponentArgument::Entity { handle: 50, .. }
    ));
    assert_eq!(
        world.refusal(ArgumentSchema::String, number(1.0)),
        "Chart.new(first) expects a string"
    );
    assert_eq!(
        world.refusal(ArgumentSchema::Number, number(f64::NAN)),
        "Chart.new(first) expects a finite number"
    );
    assert_eq!(
        world.refusal(words(&["small", "large"]), text("huge")),
        "Chart.new(first) expects `small`, `large`"
    );
    assert_eq!(
        world.refusal(
            ArgumentSchema::Entity("Scroll".to_owned()),
            marked(ScriptMarks { handle: Some(50), ..no_marks() })
        ),
        "Chart.new(first) expects a Scroll entity"
    );
    assert_eq!(
        world.begin(Vec::new(), vec![text("x")]).err(),
        Some("Chart.new(...) expects at most 0 arguments".to_owned())
    );
}

#[test]
fn an_optional_argument_may_be_left_out() {
    let mut world = World::new();
    let optional = || {
        vec![
            descriptor("first", ArgumentSchema::String),
            descriptor(
                "second",
                ArgumentSchema::Optional(Box::new(ArgumentSchema::Boolean)),
            ),
        ]
    };
    let draft = world.begin(optional(), vec![text("x")]).unwrap_or_else(|m| panic!("{m}"));
    assert!(matches!(draft.arguments[1], ComponentArgument::Optional(None)));
    let draft = world
        .begin(optional(), vec![text("x"), ScriptValue::Boolean(true)])
        .unwrap_or_else(|m| panic!("{m}"));
    assert!(matches!(draft.arguments[1], ComponentArgument::Optional(Some(_))));
    assert_eq!(
        world.begin(optional(), Vec::new()).err(),
        Some("Chart.new(first) expects a string".to_owned())
    );
}

#[test]
fn a_state_is_known_by_its_proof() {
    let mut world = World::new();
    let handle = world.states.insert("Input", None, 7).unwrap();
    let schema = || ArgumentSchema::Entity("Input".to_owned());
    assert!(matches!(
        world.first(schema(), state(handle, "proof")),
        ComponentArgument::Entity { handle: found, .. } if found == handle
    ));
    assert_eq!(
        world.refusal(schema(), state(handle, "guess")),
        "Chart.new(first) expects a Input entity"
    );
}

#[test]
fn an_element_is_used_once() {
    let mut world = World::new();
    let first = world.arena.push(Component::Div);
    let list = || {
        vec![descriptor("items", ArgumentSchema::Array(Box::new(ArgumentSchema::Element)))]
    };
    let items = |ids: &[u32]| {
        vec![ScriptValue::Array {
            slot: None,
            items: ids.iter().map(|id| element(*id)).collect(),
        }]
    };
    assert_eq!(
        world.begin(list(), items(&[first, first])).err(),
        Some(format!("Chart.new(...) cannot consume element {first} twice"))
    );
    let draft = world.begin(list(), items(&[first])).unwrap_or_else(|m| panic!("{m}"));
    assert_eq!(draft.elements, vec![first]);
    assert_eq!(
        finish_component_payload(
            &draft,
            Ok(70),
            &mut world.arena,
            &mut world.states,
            &mut world.functions
        )
        .ok(),
        Some(70)
    );
    assert!(world.arena.ensure_claimable(first).is_err());
}

#[test]
fn a_refused_call_registers_no_function() {
    let mut world = World::new();
    let two = || {
        vec![
            descriptor("handler", ArgumentSchema::Callback),
            descriptor("label", ArgumentSchema::String),
        ]
    };
    let before = world.functions.checkpoint();
    assert!(world.begin(two(), vec![ScriptValue::Function(3), number(1.0)]).is_err());
    let draft = world
        .begin(two(), vec![ScriptValue::Function(3), text("x")])
        .unwrap_or_else(|m| panic!("{m}"));
    let id = match draft.arguments[0] {
        ComponentArgument::Callback(id) => id,
        _ => panic!("a function"),
    };
    let error = finish_component_payload(
        &draft,
        Err("the chart has no data".to_owned()),
        &mut world.arena,
        &mut world.states,
        &mut world.functions,
    )
    .err()
    .expect("the factory refused");
    assert_eq!((error.kind(), error.message()), (ErrorKind::Type, "the chart has no data".to_owned()));
    world.functions.commit();
    assert!(id > before);
    assert!(world.functions.get(id).is_none());
    assert_eq!(world.functions.live_callbacks(), 0);
}

#[test]
fn a_state_is_created_within_a_call() {
    let mut world = World::new();
    let first = world.arena.push(Component::Div);
    // A state may be given an element twice: it takes none of them.
    let both = ScriptValue::Array {
        slot: None,
        items: vec![ScriptValue::Array {
            slot: None,
            items: vec![element(first), element(first)],
        }],
    };
    let draft = begin_retained_state(
        "InputState",
        &vec![descriptor("items", ArgumentSchema::Array(Box::new(ArgumentSchema::Element)))],
        &Arguments::from_js(&both).unwrap_or_else(|_| panic!("arguments")),
        &world.arena,
        &world.entities,
        &mut world.states,
        "proof",
        &HERE,
        Some(9),
        &mut world.functions,
    )
    .unwrap_or_else(|error| panic!("{}", error.message()));
    assert_eq!(draft.arguments.len(), 1);
    let mut create = |creation: StateCreation| {
        finish_retained_state(
            &draft,
            creation,
            "Input",
            &HERE,
            &mut world.states,
            &mut world.functions,
        )
        .map_err(|error| error.message())
    };
    assert_eq!(
        create(StateCreation::NoCall),
        Err("retained component state can only be created during a live Window/App call".to_owned())
    );
    assert_eq!(
        create(StateCreation::Refused("no".to_owned())),
        Err("no".to_owned())
    );
    assert!(create(StateCreation::Created(4)).is_ok());
    assert!(create(StateCreation::Created(5)).is_ok());
    assert!(create(StateCreation::Created(6)).is_err());
    assert!(world.arena.ensure_claimable(first).is_ok());
}

#[test]
fn elements_are_collected_wherever_they_stand() {
    let argument = ComponentArgument::Array(vec![
        ComponentArgument::Element(3),
        ComponentArgument::Optional(Some(Box::new(ComponentArgument::Element(1)))),
        ComponentArgument::Optional(None),
        ComponentArgument::Boolean(true),
    ]);
    let mut elements = vec![9];
    collect_component_elements(&argument, &mut elements);
    assert_eq!(elements, [9, 3, 1]);
}
