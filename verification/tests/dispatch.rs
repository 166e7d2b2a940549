use gpui_shell::argument::RenderedRoot;
use gpui_shell::callbacks::{CallbackArena, CallbackEntry};
use gpui_shell::context::{
    call_member, notify, phase, ContextBinding, ContextMember, RunningCalls,
};
use gpui_shell::data::no_marks;
use gpui_shell::dispatch::{
    callback_owner, component_callback_data, component_callback_value, described_element,
    describe_dock_chrome, dispatch_action, dispatch_calendar_event, dispatch_change,
    dispatch_click, dispatch_component_callback_value, dispatch_component_data_callback,
    dispatch_component_element_callback, dispatch_component_element_data_callback,
    dispatch_dock_event, dispatch_host_event, dispatch_input_event, dispatch_item_key,
    dispatch_item_mouse_button, dispatch_key, dispatch_modifiers_changed, dispatch_mouse_button,
    dispatch_mouse_move, dispatch_otp_event, dispatch_resize, dispatch_scroll_wheel,
    dispatch_signal, dispatch_slider_event, dispatch_step, read_items, render_virtual_items,
    with_component_callback_event, CallPolicy, ComponentCallbackValue, InputCallbackOwner, ItemKeys,
    Liveness, Refusal,
};
use gpui_shell::data::ComponentDataValue;
use gpui_shell::error::ErrorKind;
use gpui_shell::nested::NestedViews;
use gpui_shell::number::Number;
use gpui_shell::payload::{
    Area, ComponentCallbackArgument, InputEvent, Keystroke, Modifiers, MouseButton, MousePress,
    Painted, Payload, Pointer, Scroll, SliderValue, Spot, TouchPhase,
};
use gpui_shell::scope::{CurrentApplication, HostScope, ScopePhase};
use gpui_shell::value::{Prototype, ScriptMarks, ScriptObject, ScriptProperty, ScriptValue};

const NONE: Modifiers =
    Modifiers { shift: false, control: false, alt: false, platform: false, function: false };
const SPOT: Spot = Spot { x: 0, y: 0 };
const PRESS: MousePress = MousePress {
    button: MouseButton::Left,
    click_count: 1,
    pointer: Pointer { position: SPOT, painted: None },
    modifiers: NONE,
};

fn number(value: f64) -> Number {
    Number { wide: value.to_bits(), narrow: (value as f32).to_bits() }
}

fn everything() -> Liveness {
    Liveness { applications: vec![700], views: vec![1] }
}

fn callback(
    functions: &mut CallbackArena,
    value: u64,
    view: Option<u64>,
    application: Option<u64>,
) -> (u64, u64) {
    let generation = functions.begin();
    let id =
        functions.push(CallbackEntry { value, view, application, registered_in: Some(33) });
    functions.commit();
    (id, generation)
}

fn property(key: &str, value: ScriptValue) -> ScriptProperty {
    ScriptProperty { key: key.to_owned(), accessor: false, value }
}

fn object(marks: ScriptMarks) -> ScriptObject {
    ScriptObject {
        marks,
        promise: false,
        prototype: Prototype::Ordinary,
        symbols: false,
        properties: Vec::new(),
    }
}

#[test]
fn component_callback_results_obey_snapshot_and_application_lifetimes() {
    let mut functions = CallbackArena::new();
    let application = 700;
    let (retired_snapshot, generation) = callback(&mut functions, 1, None, None);
    let (retired_application, _) = callback(&mut functions, 2, None, Some(application));
    functions.retire_callbacks(generation);
    let live = Liveness { applications: Vec::new(), views: Vec::new() };

    let snapshot_error =
        dispatch_component_callback_value(&functions, &live, retired_snapshot, &Vec::new())
            .err()
            .expect("superseded");
    assert!(snapshot_error.message().contains("superseded render"));
    let application_error =
        dispatch_component_callback_value(&functions, &live, retired_application, &Vec::new())
            .err()
            .expect("retired");
    assert!(application_error.message().contains("retired application"));
}

#[test]
fn a_function_of_a_view_that_is_gone_is_not_called() {
    let mut functions = CallbackArena::new();
    let (id, _) = callback(&mut functions, 5, Some(2), None);
    let click = dispatch_click(&functions, &everything(), id, 1, NONE);
    assert!(matches!(click, Err(Refusal::Released)));
    let error = dispatch_component_data_callback(&functions, &everything(), id, &Vec::new())
        .err()
        .expect("released");
    assert_eq!(error.message(), format!("component callback {id} owner has been released"));
}

#[test]
fn an_event_runs_a_function_for_its_view() {
    let mut functions = CallbackArena::new();
    let (id, _) = callback(&mut functions, 5, Some(1), Some(700));
    let delivery = dispatch_click(&functions, &everything(), id, 2, NONE).unwrap_or_else(|_| panic!());
    assert_eq!(delivery.plan.handler, 5);
    assert_eq!(delivery.plan.phase, ScopePhase::Event);
    assert_eq!(delivery.plan.view, Some(1));
    assert_eq!(delivery.plan.policy, CallPolicy::OfView(1));
    assert_eq!(delivery.plan.application, Some(700));
    assert_eq!(delivery.plan.adopted, None);
    assert!(delivery.plan.drains && !delivery.plan.isolated);
    assert_eq!(delivery.arguments.len(), 1);

    let (free, _) = callback(&mut functions, 6, None, None);
    let delivery = dispatch_signal(&functions, &everything(), free).unwrap_or_else(|_| panic!());
    assert_eq!(delivery.plan.policy, CallPolicy::Default);
    assert!(matches!(&delivery.arguments[0], Payload::Record(fields) if fields.is_empty()));
}

#[test]
fn every_event_hands_over_what_it_carries() {
    let mut functions = CallbackArena::new();
    let (id, _) = callback(&mut functions, 5, Some(1), None);
    let live = everything();
    let painted = Painted { local: SPOT, bounds: Area { x: 0, y: 0, width: 0, height: 0 } };
    let keystroke = Keystroke { modifiers: NONE, key: "a".to_owned(), key_char: None };
    let scroll = Scroll {
        delta: SPOT,
        lines: None,
        touch_phase: TouchPhase::Moved,
        pointer: PRESS.pointer,
        modifiers: NONE,
    };
    let records = [
        dispatch_mouse_move(&functions, &live, id, SPOT, painted, NONE),
        dispatch_mouse_button(&functions, &live, id, &PRESS),
        dispatch_scroll_wheel(&functions, &live, id, &scroll),
        dispatch_modifiers_changed(&functions, &live, id, NONE, true),
        dispatch_key(&functions, &live, id, &keystroke, Some(false)),
        dispatch_action(&functions, &live, id, "save"),
    ];
    for record in records {
        let delivery = record.unwrap_or_else(|_| panic!());
        assert!(matches!(&delivery.arguments[0], Payload::Record(fields) if !fields.is_empty()));
    }
    let resize = dispatch_resize(&functions, &live, id, &vec![1, 2]).unwrap_or_else(|_| panic!());
    assert!(matches!(&resize.arguments[0], Payload::List(items) if items.len() == 2));
    let change = dispatch_change(&functions, &live, id, true).unwrap_or_else(|_| panic!());
    assert!(matches!(change.arguments[0], Payload::Boolean(true)));
    let step = dispatch_step(&functions, &live, id, "increment").unwrap_or_else(|_| panic!());
    assert!(matches!(&step.arguments[0], Payload::Text(text) if text == "increment"));
    let host = dispatch_host_event(&functions, &live, id, Payload::Count(4))
        .unwrap_or_else(|_| panic!());
    assert!(matches!(host.arguments[0], Payload::Count(4)));
    let key = dispatch_item_key(&functions, &live, id, "row-3").unwrap_or_else(|_| panic!());
    assert!(matches!(&key.arguments[0], Payload::Text(text) if text == "row-3"));
    let press = dispatch_item_mouse_button(&functions, &live, id, "row-3", &PRESS)
        .unwrap_or_else(|_| panic!());
    assert_eq!(press.arguments.len(), 2);
}

#[test]
fn a_subscription_outlives_its_view_but_not_its_application() {
    let owner = InputCallbackOwner { policy: 9, application: Some(700), view: Some(4) };
    let delivery =
        dispatch_input_event(8, &owner, &everything(), InputEvent::Change).unwrap_or_else(|_| panic!());
    assert_eq!(delivery.plan.view, None);
    assert_eq!(delivery.plan.policy, CallPolicy::Captured(9));
    let retired = InputCallbackOwner { application: Some(701), ..owner };
    assert!(matches!(
        dispatch_otp_event(8, &retired, &everything()),
        Err(Refusal::Retired)
    ));
    let here = InputCallbackOwner { view: Some(1), ..owner };
    let slider = dispatch_slider_event(8, &here, &everything(), SliderValue::Single(0))
        .unwrap_or_else(|_| panic!());
    assert_eq!(slider.plan.view, Some(1));
    let date = dispatch_calendar_event(8, &here, &everything(), Payload::Undefined)
        .unwrap_or_else(|_| panic!());
    assert!(matches!(date.arguments[0], Payload::Undefined));
    let dock = dispatch_dock_event(8, &here, &everything()).unwrap_or_else(|_| panic!());
    assert!(dock.arguments.is_empty());
}

#[test]
fn a_subscription_belongs_to_the_call_it_was_made_in() {
    let scope = HostScope {
        phase: Some(ScopePhase::Event),
        policy: Some(9),
        application: Some(CurrentApplication { generation: 700, active: true }),
        view: Some(1),
    };
    assert_eq!(
        callback_owner(&scope, 3),
        InputCallbackOwner { policy: 9, application: Some(700), view: Some(1) }
    );
    let outside = HostScope { phase: None, policy: None, application: None, view: None };
    assert_eq!(
        callback_owner(&outside, 3),
        InputCallbackOwner { policy: 3, application: None, view: None }
    );
}

#[test]
fn what_runs_during_layout_is_kept_apart() {
    let mut functions = CallbackArena::new();
    let (id, _) = callback(&mut functions, 5, Some(1), None);
    let values = vec![ComponentCallbackArgument::String("row".to_owned())];
    let delivery = dispatch_component_element_callback(&functions, &everything(), id, &values)
        .unwrap_or_else(|_| panic!());
    assert_eq!(delivery.plan.phase, ScopePhase::Layout);
    assert_eq!(delivery.plan.adopted, Some(33));
    assert!(delivery.plan.isolated && !delivery.plan.drains);
    assert!(matches!(&delivery.arguments[0], Payload::Text(text) if text == "row"));
    let chrome = describe_dock_chrome(&functions, &everything(), id, Payload::Undefined)
        .unwrap_or_else(|_| panic!());
    assert!(chrome.plan.isolated && !chrome.plan.drains);
    let rows = vec![ComponentDataValue::Boolean(true)];
    let (plan, shown) =
        dispatch_component_element_data_callback(&functions, &everything(), id, &rows)
            .unwrap_or_else(|_| panic!());
    assert_eq!(plan.phase, ScopePhase::Layout);
    assert!(matches!(shown[0], ScriptValue::Boolean(true)));
}

#[test]
fn component_callback_results_are_closed_and_jobs_are_drained() {
    let mut functions = CallbackArena::new();
    let (id, _) = callback(&mut functions, 5, None, None);
    let kind = vec![ComponentCallbackArgument::String("queued".to_owned())];
    let delivery = dispatch_component_callback_value(&functions, &everything(), id, &kind)
        .unwrap_or_else(|_| panic!());
    assert!(delivery.plan.drains);
    assert!(matches!(
        component_callback_value(&ScriptValue::Undefined),
        Ok(ComponentCallbackValue::Null)
    ));
    assert!(matches!(
        component_callback_value(&ScriptValue::Null),
        Ok(ComponentCallbackValue::Null)
    ));
    assert!(matches!(
        component_callback_value(&ScriptValue::Boolean(true)),
        Ok(ComponentCallbackValue::Boolean(true))
    ));
    assert!(matches!(
        component_callback_value(&ScriptValue::Number(number(2.5))),
        Ok(ComponentCallbackValue::Number(value)) if value == number(2.5)
    ));
    assert!(matches!(
        component_callback_value(&ScriptValue::Text("queued".to_owned())),
        Ok(ComponentCallbackValue::String(text)) if text == "queued"
    ));
    let refused = [
        ScriptValue::Number(number(f64::NAN)),
        ScriptValue::Number(number(f64::INFINITY)),
        ScriptValue::Number(number(f64::NEG_INFINITY)),
        ScriptValue::Function(1),
        ScriptValue::Object(object(ScriptMarks { element: Some(7), ..no_marks() })),
        ScriptValue::Object(ScriptObject { promise: true, ..object(no_marks()) }),
    ];
    for value in refused {
        let error = component_callback_value(&value).err().expect("refused");
        assert_eq!(
            error.message(),
            "component callbacks may only return null, boolean, finite number, or string"
        );
        assert_eq!(error.kind(), ErrorKind::Type);
    }
}

#[test]
fn component_delegate_data_is_recursive_bounded_and_does_not_drain_jobs() {
    let mut functions = CallbackArena::new();
    let (id, _) = callback(&mut functions, 5, None, None);
    let delivery = dispatch_component_data_callback(&functions, &everything(), id, &Vec::new())
        .unwrap_or_else(|_| panic!());
    assert!(!delivery.plan.drains && delivery.plan.isolated);
    let cells = ScriptValue::Array {
        slot: None,
        items: vec![
            ScriptValue::Number(number(1.0)),
            ScriptValue::Boolean(true),
            ScriptValue::Null,
        ],
    };
    let answer = ScriptValue::Object(ScriptObject {
        properties: vec![
            property("id", ScriptValue::Text("a".to_owned())),
            property("cells", cells),
        ],
        ..object(no_marks())
    });
    let ComponentDataValue::Object(fields) =
        component_callback_data(&answer).unwrap_or_else(|_| panic!("data"))
    else {
        panic!("object")
    };
    assert_eq!(fields[0].key, "id");
    assert!(matches!(&fields[1].value, ComponentDataValue::Array(cells) if cells.len() == 3));
}

#[test]
fn component_delegate_capabilities_reject_invalid_data_and_stale_lifetimes() {
    let accessor = ScriptProperty {
        accessor: true,
        ..property("value", ScriptValue::Undefined)
    };
    let invalid = [
        ScriptValue::Object(ScriptObject { promise: true, ..object(no_marks()) }),
        ScriptValue::Function(1),
        ScriptValue::Object(ScriptObject {
            properties: vec![property("__id", ScriptValue::Number(number(7.0)))],
            ..object(ScriptMarks { element: Some(7), ..no_marks() })
        }),
        ScriptValue::Object(ScriptObject { properties: vec![accessor], ..object(no_marks()) }),
        ScriptValue::Object(ScriptObject { prototype: Prototype::Foreign, ..object(no_marks()) }),
        ScriptValue::Number(number(f64::INFINITY)),
    ];
    for value in invalid {
        assert!(component_callback_data(&value).is_err());
    }

    let mut functions = CallbackArena::new();
    let application = 991;
    let (stale, generation) = callback(&mut functions, 1, None, None);
    let (retired, _) = callback(&mut functions, 2, None, Some(application));
    functions.retire_callbacks(generation);
    let live = everything();
    assert!(dispatch_component_data_callback(&functions, &live, stale, &Vec::new())
        .err()
        .expect("stale")
        .message()
        .contains("superseded render"));
    assert!(dispatch_component_element_callback(&functions, &live, retired, &Vec::new())
        .err()
        .expect("retired element callback must fail")
        .message()
        .contains("retired application"));
}

#[test]
fn component_delegate_element_is_lazy_and_rejects_non_elements() {
    assert!(matches!(described_element(&ScriptValue::Null), Ok(None)));
    assert!(matches!(
        described_element(&ScriptValue::Text("row".to_owned())),
        Ok(Some(RenderedRoot::Text(_)))
    ));
    assert!(described_element(&ScriptValue::Object(object(no_marks()))).is_err());
}

#[test]
fn a_list_asks_for_the_items_of_a_range() {
    let mut functions = CallbackArena::new();
    functions.begin();
    let entry = CallbackEntry { value: 5, view: Some(1), application: None, registered_in: None };
    let render = functions.push(entry);
    let get_key = functions.push(CallbackEntry { value: 6, ..entry });
    functions.commit();
    let delivery = render_virtual_items(&functions, &everything(), render, get_key, 4, 9)
        .expect("both functions stand");
    assert_eq!((delivery.plan.handler, delivery.key_handler), (5, 6));
    assert!(render_virtual_items(&functions, &everything(), render, get_key + 1, 4, 9).is_none());
}

#[test]
fn items_are_elements_with_names_of_their_own() {
    let items = ScriptValue::Array {
        slot: None,
        items: vec![ScriptValue::Text("a".to_owned()), ScriptValue::Text("b".to_owned())],
    };
    assert_eq!(read_items(&items).unwrap_or_else(|_| panic!()).len(), 2);
    let error = read_items(&ScriptValue::Null).err().expect("no array");
    assert!(error.message().starts_with("a virtual list's item renderer must return an array"));
    let broken = ScriptValue::Array { slot: None, items: vec![ScriptValue::Null] };
    assert!(read_items(&broken).is_err());

    let mut keys = ItemKeys::new(4, 6);
    assert_eq!(keys.next(), Some(4));
    assert!(keys.add_key(Ok("a".to_owned())).is_ok());
    assert_eq!(keys.next(), Some(5));
    let twice = keys.add_key(Ok("a".to_owned())).err().expect("a name names one item");
    assert_eq!(
        twice.message(),
        "virtual list get_key returned duplicate key `a` in one visible range"
    );
    assert!(keys.add_key(Err("thrown".to_owned())).is_err());
    assert_eq!(keys.next(), Some(5), "the item has no name yet");
    assert!(keys.add_key(Ok("b".to_owned())).is_ok());
    assert_eq!(keys.next(), None);
    assert_eq!(keys.finish(), Some(vec!["a".to_owned(), "b".to_owned()]));
}

#[test]
fn a_key_table_is_complete_or_there_is_none() {
    let mut keys = ItemKeys::new(0, 3);
    assert!(keys.add_key(Ok("a".to_owned())).is_ok());
    assert_eq!(keys.finish(), None);
    assert_eq!(ItemKeys::new(0, 1).finish(), None);
    assert_eq!(ItemKeys::new(3, 3).finish(), Some(Vec::new()));
    assert_eq!(ItemKeys::new(3, 3).next(), None);
}

#[test]
fn window_effects_run_in_events_only() {
    let mut functions = CallbackArena::new();
    let (id, generation) = callback(&mut functions, 5, Some(1), None);
    let live = everything();
    for phase in [ScopePhase::Render, ScopePhase::Layout] {
        let error = with_component_callback_event(&functions, &live, id, Some(phase))
            .err()
            .expect("a frame is being made");
        assert!(error.message().contains(&format!("during the `{}` phase", phase.as_str())));
    }
    let plan = with_component_callback_event(&functions, &live, id, None)
        .unwrap_or_else(|_| panic!());
    assert_eq!(plan.phase, ScopePhase::Event);
    functions.retire_callbacks(generation);
    let stale =
        with_component_callback_event(&functions, &live, id, Some(ScopePhase::Event)).err();
    assert!(stale.expect("stale").message().contains("superseded render"));
}

fn event_scope() -> HostScope {
    HostScope {
        phase: Some(ScopePhase::Event),
        policy: Some(1),
        application: None,
        view: Some(3),
    }
}

#[test]
fn a_view_is_described_again_at_its_own_request() {
    let mut views = NestedViews::new();
    let running = RunningCalls { call: Ok(()), any: true };
    let here = event_scope();
    let binding = ContextBinding::Call(4);
    assert!(matches!(
        notify(&mut views, &here, binding, &running, &None, false),
        Ok(Some(3))
    ));
    let nothing = Some(ScriptValue::Undefined);
    assert!(matches!(
        notify(&mut views, &here, binding, &running, &nothing, false),
        Ok(Some(3))
    ));
    assert_eq!(phase(&here, binding, &running).ok(), Some("event"));
    let nowhere = HostScope { phase: None, ..here };
    assert_eq!(phase(&nowhere, ContextBinding::Ambient, &running).ok(), Some("none"));
}

#[test]
fn a_frame_being_made_cannot_be_asked_for_again() {
    let mut views = NestedViews::new();
    let running = RunningCalls { call: Ok(()), any: true };
    let layout = HostScope { phase: Some(ScopePhase::Layout), ..event_scope() };
    let error = notify(&mut views, &layout, ContextBinding::Ambient, &running, &None, false)
        .err()
        .expect("layout");
    assert_eq!(
        error.message(),
        "cx.notify() is not allowed during the `layout` phase; request a re-render from an event \
         handler instead"
    );
    let nowhere = HostScope { phase: None, ..event_scope() };
    let entity = Some(ScriptValue::Null);
    let error = notify(&mut views, &nowhere, ContextBinding::Ambient, &running, &entity, false)
        .err()
        .expect("no call");
    assert!(error.message().starts_with("cx.notify(entity) is not allowed during the `none` phase"));
}

#[test]
fn a_context_speaks_for_a_running_call() {
    let stale = RunningCalls { call: Err("this cx is stale".to_owned()), any: false };
    let error = ContextBinding::Call(4).check(&stale).err().expect("the call has returned");
    assert_eq!(error.message(), "this cx is stale");
    assert_eq!(error.kind(), ErrorKind::Type);
    let error = ContextBinding::Ambient.check(&stale).err().expect("no call is running");
    assert!(error.message().starts_with("this cx has no host call to speak for."));
    let mut views = NestedViews::new();
    assert!(notify(&mut views, &event_scope(), ContextBinding::Call(4), &stale, &None, false)
        .is_err());
    let error = phase(&event_scope(), ContextBinding::Call(4), &stale).err().expect("stale");
    assert_eq!(error.message(), "this cx is stale");
    let members = [
        ContextMember::StopPropagation,
        ContextMember::Propagate,
        ContextMember::Builtin(9),
    ];
    for member in members {
        let error = call_member(member, ContextBinding::Call(4), &stale).err().expect("stale");
        assert_eq!(error.message(), "this cx is stale");
        let running = RunningCalls { call: Ok(()), any: true };
        assert!(matches!(
            call_member(member, ContextBinding::Call(4), &running),
            Ok(found) if found == member
        ));
    }
}

#[test]
fn only_an_entity_is_notified() {
    let mut views = NestedViews::new();
    let running = RunningCalls { call: Ok(()), any: true };
    let here = event_scope();
    let mut told = |scope: &HostScope, value: ScriptValue| {
        notify(&mut views, scope, ContextBinding::Ambient, &running, &Some(value), true)
            .err()
            .expect("refused")
            .message()
    };
    assert_eq!(told(&here, ScriptValue::Null), "cx.notify(entity) expects an Entity");
    let unbranded = ScriptValue::Object(object(ScriptMarks { token: Ok(1), ..no_marks() }));
    assert_eq!(told(&here, unbranded), "cx.notify(entity) expects an Entity");
    let entity = || {
        ScriptValue::Object(object(ScriptMarks { entity: true, token: Ok(1), ..no_marks() }))
    };
    assert_eq!(
        told(&HostScope { view: None, ..here }, entity()),
        "cx.notify(entity) requires a current script view"
    );
    assert_eq!(
        told(&here, entity()),
        "cx.notify(entity) expects a live Entity from the current application"
    );
}
