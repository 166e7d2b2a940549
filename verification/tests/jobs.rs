use gpui_shell::jobs::{creation_scope, CreationStep, Work};
use gpui_shell::path::PathStyle;
use gpui_shell::runtime::{RuntimeSettings, ShellRuntime};
use gpui_shell::scope::{CurrentApplication, HostScope, ScopePhase};

fn runtime() -> ShellRuntime {
    let settings = RuntimeSettings { states: 8, entities: 8, paths: PathStyle::Slash };
    ShellRuntime::new_isolated(Some(1), settings).unwrap_or_else(|_| panic!("runtime"))
}

fn within(view: Option<u64>) -> HostScope {
    HostScope {
        phase: Some(ScopePhase::Event),
        policy: Some(1),
        application: Some(CurrentApplication { generation: 7, active: true }),
        view,
    }
}

fn child(runtime: &mut ShellRuntime, view: u64, owner: Option<u64>) -> u64 {
    let checkpoint = runtime.begin_nested_view(Ok(())).unwrap_or_else(|_| panic!());
    let handle = runtime
        .retain_nested_view(checkpoint, Ok(()), Ok(view), owner, Some(7))
        .unwrap_or_else(|_| panic!("retained"));
    runtime
        .instantiate_nested_view(checkpoint, handle, Ok(()), Ok(()), Ok(()))
        .unwrap_or_else(|_| panic!("initialized"))
}

#[test]
fn each_step_of_a_creation_runs_for_its_own_view() {
    let caller = within(Some(100));
    let application = Some(CurrentApplication { generation: 8, active: true });
    let scope = |step| creation_scope(step, &caller, 2, application, 200);
    assert_eq!(scope(CreationStep::Before), caller);
    assert_eq!(scope(CreationStep::Construct).view, None);
    let initialize = HostScope {
        phase: Some(ScopePhase::Event),
        policy: Some(2),
        application,
        view: Some(200),
    };
    assert_eq!(scope(CreationStep::Initialize), initialize);
}

#[test]
fn queued_work_belongs_to_the_view_it_runs_for() {
    let mut runtime = runtime();
    let parent = child(&mut runtime, 100, None);
    let caller = within(Some(100));
    let application = caller.application;

    let before = creation_scope(CreationStep::Before, &caller, 1, application, 200);
    assert!(runtime.work(&before, Work::Retain).is_some());
    assert!(runtime.work(&before, Work::Start).is_some());
    let nested = child(&mut runtime, 200, Some(parent));
    let after = creation_scope(CreationStep::Initialize, &caller, 1, application, 200);
    assert!(runtime.work(&after, Work::Retain).is_some());
    assert!(runtime.work(&after, Work::Start).is_some());
    assert_eq!((runtime.entities_mut().len(), runtime.tasks_mut().task_count()), (4, 2));

    assert!(runtime.release_view_handle(nested));
    assert_eq!((runtime.entities_mut().len(), runtime.tasks_mut().task_count()), (2, 1));
    assert!(runtime.release_view_handle(parent));
    assert_eq!((runtime.entities_mut().len(), runtime.tasks_mut().task_count()), (0, 0));
}

#[test]
fn work_of_a_failed_child_is_undone_and_no_other() {
    let mut runtime = runtime();
    let parent = child(&mut runtime, 100, None);
    let caller = within(Some(100));
    runtime.work(&caller, Work::Start).expect("a number");
    let checkpoint = runtime.begin_nested_view(Ok(())).unwrap_or_else(|_| panic!());
    let construct =
        creation_scope(CreationStep::Construct, &caller, 1, caller.application, 200);
    runtime.work(&construct, Work::Retain).expect("room");
    runtime.work(&construct, Work::Start).expect("a number");
    runtime.rollback_retained_since(checkpoint);
    assert_eq!((runtime.entities_mut().len(), runtime.tasks_mut().task_count()), (1, 1));
    assert!(runtime.release_view_handle(parent));
}

#[test]
fn work_needs_room_and_a_call() {
    let mut runtime = runtime();
    let outside = HostScope { policy: None, ..within(None) };
    assert_eq!(runtime.work(&outside, Work::Start), None);
    for _ in 0..8 {
        assert!(runtime.work(&within(None), Work::Retain).is_some());
    }
    assert_eq!(runtime.work(&within(None), Work::Retain), None);
}
