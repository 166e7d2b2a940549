use gpui_shell::arena::{Component, SpecArena};
use gpui_shell::argument::RenderedRoot;
use gpui_shell::callbacks::{CallbackArena, CallbackEntry};
use gpui_shell::error::Fault;
use gpui_shell::nested::NestedViews;
use gpui_shell::render::{
    begin_snapshot, build_snapshot, describe, place_root, render_method, RenderProgress,
};
use gpui_shell::scope::HostScope;
use gpui_shell::value::ScriptValue;

fn entry(value: u64, view: Option<u64>) -> CallbackEntry {
    CallbackEntry { value, view, application: None, registered_in: None }
}

const NOWHERE: HostScope = HostScope { phase: None, policy: None, application: None, view: None };

#[test]
fn a_function_can_be_called_once_its_description_is_complete() {
    let mut functions = CallbackArena::new();
    functions.begin();
    let id = functions.push(entry(5, None));
    assert_eq!(functions.get(id), None);
    functions.commit();
    assert_eq!(functions.get(id), Some(entry(5, None)));
    assert_eq!(functions.live_callbacks(), 1);
}

#[test]
fn a_function_of_a_description_that_was_given_up_is_never_called() {
    let mut functions = CallbackArena::new();
    functions.begin();
    let id = functions.push(entry(5, None));
    functions.abort();
    functions.commit();
    assert_eq!(functions.get(id), None);
}

#[test]
fn a_function_registered_outside_a_description_is_never_called() {
    let mut functions = CallbackArena::new();
    let id = functions.push(entry(5, None));
    functions.begin();
    functions.commit();
    assert_eq!(functions.get(id), None);
}

#[test]
fn a_replaced_description_takes_its_functions_with_it() {
    let mut functions = CallbackArena::new();
    let first = functions.begin();
    let old = functions.push(entry(5, None));
    functions.commit();
    functions.begin();
    let new = functions.push(entry(6, None));
    functions.commit();
    functions.retire_callbacks(first);
    assert_eq!(functions.get(old), None);
    assert_eq!(functions.get(new), Some(entry(6, None)));
}

#[test]
fn a_released_view_takes_its_functions_with_it() {
    let mut functions = CallbackArena::new();
    functions.begin();
    let mine = functions.push(entry(5, Some(1)));
    let other = functions.push(entry(6, Some(2)));
    functions.commit();
    functions.retire_view_callbacks(1);
    assert_eq!(functions.get(mine), None);
    assert_eq!(functions.get(other), Some(entry(6, Some(2))));
}

#[test]
fn going_back_to_a_checkpoint_takes_registrations_back() {
    let mut functions = CallbackArena::new();
    functions.begin();
    let kept = functions.push(entry(5, None));
    let checkpoint = functions.checkpoint();
    let dropped = functions.push(entry(6, None));
    functions.rollback_to(checkpoint);
    functions.commit();
    assert_eq!(functions.get(kept), Some(entry(5, None)));
    assert_eq!(functions.get(dropped), None);
}

#[test]
fn a_description_is_published_with_its_functions() {
    let mut arena = SpecArena::new();
    let mut functions = CallbackArena::new();
    let rendering = begin_snapshot(&mut arena, &mut functions);
    let root = arena.push(Component::Div);
    let id = functions.push(entry(5, Some(1)));
    match build_snapshot(rendering, &mut arena, &mut functions, Ok(root), Some(9), Some(1)) {
        RenderProgress::Published { snapshot, drain } => {
            assert_eq!(snapshot.root, root);
            assert_eq!(snapshot.arena.len(), 1);
            assert_eq!(snapshot.callbacks, rendering.generation);
            assert_eq!(snapshot.application, Some(9));
            assert_eq!(drain, Some(1));
        }
        _ => panic!("the description is complete"),
    }
    assert_eq!(arena.len(), 0);
    assert!(functions.get(id).is_some());
}

#[test]
fn a_description_that_fails_leaves_what_was_shown_before() {
    let mut arena = SpecArena::new();
    let mut functions = CallbackArena::new();
    let first = begin_snapshot(&mut arena, &mut functions);
    let root = arena.push(Component::Div);
    let shown = functions.push(entry(5, None));
    build_snapshot(first, &mut arena, &mut functions, Ok(root), None, None);

    let second = begin_snapshot(&mut arena, &mut functions);
    arena.push(Component::Div);
    let staged = functions.push(entry(6, None));
    let failed = Err("Error: no".to_owned());
    match build_snapshot(second, &mut arena, &mut functions, failed, None, Some(3)) {
        RenderProgress::Failed { message, drain } => {
            assert_eq!(message, "Error: no");
            assert_eq!(drain, Some(3));
        }
        _ => panic!("there is no description"),
    }
    assert!(functions.get(shown).is_some());
    assert!(functions.get(staged).is_none());
    assert_eq!(arena.len(), 0);
}

#[test]
fn a_description_is_made_again_for_a_better_error_and_only_once() {
    let mut arena = SpecArena::new();
    let mut functions = CallbackArena::new();
    let rendering = begin_snapshot(&mut arena, &mut functions);
    arena.push(Component::Div);
    functions.push(entry(5, None));
    let vague = || Err("TypeError: not a function\n    at render".to_owned());
    let again = match build_snapshot(rendering, &mut arena, &mut functions, vague(), None, None) {
        RenderProgress::Again(again) => again,
        _ => panic!("the description is made again"),
    };
    assert!(again.diagnosed);
    assert_eq!(again.generation, rendering.generation);
    assert_eq!(arena.len(), 0);
    let precise = functions.push(entry(6, None));
    match build_snapshot(again, &mut arena, &mut functions, vague(), None, None) {
        RenderProgress::Failed { .. } => {}
        _ => panic!("the description is not made a third time"),
    }
    assert!(functions.get(precise).is_none());
}

#[test]
fn an_exception_is_described_with_its_stack() {
    assert_eq!(describe(Some("no".to_owned()), Some("at x".to_owned())), "no\nat x");
    assert_eq!(describe(Some("no".to_owned()), None), "no");
    assert_eq!(describe(None, Some("at x".to_owned())), "error\nat x");
    assert_eq!(describe(None, None), "error");
}

#[test]
fn a_view_needs_a_render_method() {
    assert!(matches!(render_method(&ScriptValue::Function(4)), Ok(4)));
    assert!(matches!(render_method(&ScriptValue::Undefined), Err(Fault::NoRender)));
}

#[test]
fn a_text_is_an_element() {
    let mut arena = SpecArena::new();
    let views = NestedViews::new();
    let root = RenderedRoot::Text("hello".to_owned());
    let id = place_root(&mut arena, &views, &NOWHERE, root, false).unwrap();
    assert!(matches!(
        arena.node(id).map(|node| &node.component),
        Some(Component::Text(text)) if text == "hello"
    ));
    let same = place_root(&mut arena, &views, &NOWHERE, RenderedRoot::Element(id), false);
    assert!(matches!(same, Ok(found) if found == id));
    assert!(matches!(
        place_root(&mut arena, &views, &NOWHERE, RenderedRoot::ChildView(3), true),
        Err(Fault::MountReleased)
    ));
}
