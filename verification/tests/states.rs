use gpui_shell::error::{Fault, ScriptError};
use gpui_shell::modules::Dependencies;
use gpui_shell::path::PathStyle;
use gpui_shell::runtime::{RuntimeSettings, ShellRuntime};
use gpui_shell::scope::ScopePhase;
use gpui_shell::states::RetainedStates;

const LIMIT: usize = 8;

fn message(fault: Fault) -> String {
    ScriptError::<String>::Fixed(fault).message()
}

fn runtime() -> ShellRuntime {
    let settings = RuntimeSettings { states: LIMIT, entities: 8, paths: PathStyle::Slash };
    ShellRuntime::new_isolated(Some(1), settings).unwrap_or_else(|_| panic!("runtime"))
}

fn load(runtime: &mut ShellRuntime, count: usize) -> Vec<u64> {
    (0..count)
        .map(|_| runtime.load_app("/application", "main.js", Dependencies::new()).application)
        .collect()
}

#[test]
fn immutable_state_lookup_reports_reentrant_mutable_borrow() {
    let mut runtime = runtime();
    let handle = runtime.states_mut().insert("State", None, 1).unwrap();
    runtime.states_mut().begin_update(None, handle, "State").unwrap();

    let error = runtime.states_mut().begin_read(handle, "State").unwrap_err();

    assert!(message(error).contains("already mutably borrowed"));
}

#[test]
fn root_drop_release_path_purges_generation_owned_state() {
    let mut runtime = runtime();
    let application = *load(&mut runtime, 92).last().unwrap();
    assert_eq!(application, 92);
    runtime.states_mut().insert("State", Some(application), 0).unwrap();

    runtime.release_application_generation_without_context(application);

    assert_eq!(runtime.states_mut().retained_component_state_count(), 0);
    assert!(!runtime.is_active(application));
}

#[test]
fn successful_reload_release_purges_old_generation_and_preserves_new() {
    let mut runtime = runtime();
    let loaded = load(&mut runtime, 95);
    let (old, new) = (loaded[93], loaded[94]);
    assert_eq!((old, new), (94, 95));
    let old_handle = runtime.states_mut().insert("State", Some(old), 1).unwrap();
    let new_handle = runtime.states_mut().insert("State", Some(new), 2).unwrap();

    runtime.release_application_generation_without_context(old);

    assert!(runtime.states_mut().begin_read(old_handle, "State").is_err());
    assert_eq!(runtime.states_mut().begin_read(new_handle, "State").unwrap(), 2);
    assert!(runtime.is_active(new));
}

#[test]
fn generation_release_during_state_update_is_deferred_then_guaranteed() {
    let mut runtime = runtime();
    let application = *load(&mut runtime, 93).last().unwrap();
    assert_eq!(application, 93);
    let handle = runtime.states_mut().insert("State", Some(application), 1).unwrap();
    for value in 1..LIMIT {
        runtime.states_mut().insert("State", Some(application), value as u64).unwrap();
    }
    assert!(runtime.states_mut().insert("State", None, 0).is_err());

    let event = Some(ScopePhase::Event);
    assert_eq!(runtime.states_mut().begin_update(event, handle, "State").unwrap(), 1);
    runtime.release_application_generation_without_context(application);
    assert_eq!(runtime.states_mut().retained_component_state_count(), 0);
    assert!(runtime.states_mut().insert("State", None, 0).is_err(), "the states are in use");
    runtime.states_mut().end_use();
    runtime.states_mut().flush_component_state_releases();

    assert_eq!(runtime.states_mut().retained_component_state_count(), 0);
    assert!(!runtime.is_active(application));
    runtime
        .states_mut()
        .insert("State", None, 0)
        .expect("released generation must recover state capacity");
}

#[test]
fn states_that_are_in_use_are_not_counted() {
    let mut states = RetainedStates::new(LIMIT);
    let handle = states.insert("State", None, 1).unwrap();
    assert_eq!(states.retained_component_state_count(), 1);
    states.begin_read(handle, "State").unwrap();
    assert_eq!(states.retained_component_state_count(), 1);
    states.end_use();
    states.begin_update(Some(ScopePhase::Event), handle, "State").unwrap();
    assert_eq!(states.retained_component_state_count(), 0);
    states.end_use();
    assert_eq!(states.retained_component_state_count(), 1);
}

#[test]
fn state_update_reports_reentrant_immutable_borrow() {
    let mut states = RetainedStates::new(8);
    let handle = states.insert("State", None, 1).unwrap();
    states.begin_read(handle, "State").unwrap();

    let error = states.begin_update(None, handle, "State").unwrap_err();

    assert!(message(error).contains("already borrowed"));
}

#[test]
fn state_update_is_rejected_under_render_authority() {
    let mut states = RetainedStates::new(8);
    let handle = states.insert("State", None, 1).unwrap();

    let error = states.begin_update(Some(ScopePhase::Render), handle, "State").unwrap_err();

    assert!(message(error).contains("cannot be updated during render"));
    assert!(states.begin_update(Some(ScopePhase::Layout), handle, "State").is_err());
    assert!(states.begin_update(Some(ScopePhase::Event), handle, "State").is_ok());
}

#[test]
fn a_state_is_found_by_handle_and_kind() {
    let mut states = RetainedStates::new(8);
    let first = states.insert("Input", None, 7).unwrap();
    let second = states.insert("Input", None, 8).unwrap();
    assert_ne!(first, second);
    assert_eq!(states.kind_of(first).unwrap().map(String::as_str), Some("Input"));
    assert!(states.begin_read(first, "Slider").is_err());
    assert_eq!(states.begin_read(second, "Input").unwrap(), 8);
    states.end_use();
    assert!(states.begin_read(second + 1, "Input").is_err());
}

#[test]
fn a_state_is_not_added_while_another_is_in_use() {
    let mut states = RetainedStates::new(8);
    let handle = states.insert("State", None, 1).unwrap();
    states.begin_read(handle, "State").unwrap();
    assert!(matches!(states.insert("State", None, 2), Err(Fault::StateBorrowed)));
    states.end_use();
    assert!(states.insert("State", None, 2).is_ok());
}
