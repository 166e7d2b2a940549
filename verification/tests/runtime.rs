use gpui_shell::entities::{EntityRelease, EntityStore};
use gpui_shell::error::{Fault, ScriptError};
use gpui_shell::callbacks::CallbackEntry;
use gpui_shell::jobs::Work;
use gpui_shell::modules::Dependencies;
use gpui_shell::nested::{ActionOutcome, FlushStep, NestedAction, ParentView, Settled, ViewOrigin};
use gpui_shell::path::PathStyle;
use gpui_shell::runtime::{
    check_nested_class, is_saved, is_updatable, panel_hook, update_method, LoadedApplication, RuntimeGlobal,
    RuntimeSettings, ShellRuntime, Template, ViewType,
};
use gpui_shell::scope::{CurrentApplication, HostScope, ScopePhase};
use gpui_shell::tasks::Tasks;
use gpui_shell::value::ScriptValue;

const SETTINGS: RuntimeSettings =
    RuntimeSettings { states: 8, entities: 8, paths: PathStyle::Slash };

fn runtime(store: u32) -> ShellRuntime {
    ShellRuntime::new_isolated(Some(store), SETTINGS).unwrap_or_else(|_| panic!("runtime"))
}

fn here(generation: u64) -> HostScope {
    HostScope {
        phase: Some(ScopePhase::Event),
        policy: Some(1),
        application: Some(CurrentApplication { generation, active: true }),
        view: Some(100),
    }
}

fn raised(message: &str) -> ScriptError<String> {
    ScriptError::Raised { message: message.to_owned() }
}

fn load(runtime: &mut ShellRuntime) -> LoadedApplication {
    let loading = runtime.load_app("/app", "main.js", Dependencies::new());
    runtime
        .load_application(loading, Ok(ScriptValue::Function(4)), 4)
        .unwrap_or_else(|_| panic!("loaded"))
}

fn child(runtime: &mut ShellRuntime, view: u64, owner: Option<u64>, application: u64) -> u64 {
    let checkpoint = runtime.begin_nested_view(Ok(())).unwrap_or_else(|_| panic!());
    let handle = runtime
        .retain_nested_view(checkpoint, Ok(()), Ok(view), owner, Some(application))
        .unwrap_or_else(|_| panic!("retained"));
    runtime
        .instantiate_nested_view(checkpoint, handle, Ok(()), Ok(()), Ok(()))
        .unwrap_or_else(|_| panic!("initialized"))
}

#[test]
fn there_is_one_default_runtime() {
    let mut global = RuntimeGlobal::empty();
    assert_eq!(global.global(true), None);
    assert!(matches!(
        ShellRuntime::new_with_components(&mut global, false, Vec::new(), None, SETTINGS),
        Err(Fault::StoreExhausted)
    ));
    assert_eq!(global.global(true), None);
    assert!(ShellRuntime::new(&mut global, false, Some(1), SETTINGS).is_ok());
    assert_eq!(global.global(true), Some(1));
    assert!(matches!(
        ShellRuntime::new(&mut global, true, Some(2), SETTINGS),
        Err(Fault::RuntimeInstalled)
    ));
    assert_eq!(global.global(true), Some(1));
    assert_eq!(global.global(false), None, "a runtime that is gone is not the default one");
    assert!(ShellRuntime::new(&mut global, false, Some(2), SETTINGS).is_ok());
    assert_eq!(global.global(true), Some(2));
    global.set_global(7);
    assert_eq!(global.global(true), Some(7));

    let isolated = ShellRuntime::new_isolated_with_components(Vec::new(), Some(2), SETTINGS)
        .unwrap_or_else(|_| panic!());
    assert!(isolated.component_registry().is_empty());
    assert!(isolated.component_state_proof().starts_with("gpui-shell-state-"));
}

#[test]
fn an_application_is_mounted_once_by_the_runtime_that_loaded_it() {
    let mut first = runtime(1);
    let second = runtime(2);
    let mut application = load(&mut first);
    assert!(matches!(
        second.mount_application(&mut application),
        Err(Fault::ForeignApplication)
    ));
    assert!(!application.mounted);
    assert!(first.mount_application(&mut application).is_ok());
    assert!(matches!(
        first.mount_application(&mut application),
        Err(Fault::ApplicationMounted)
    ));
}

#[test]
fn every_load_is_a_generation_of_its_own() {
    let mut runtime = runtime(1);
    let first = runtime.load_app("/app", "main.js", Dependencies::new());
    let second = runtime.load_app("/app", "main.js", Dependencies::new());
    assert_eq!((first.application, second.application), (1, 2));
    assert_eq!(first.entry, "/app/main.js");
    assert_eq!(first.module_name, "/app/main.js?v=1");
    assert_eq!(second.module_name, "/app/main.js?v=2");
    assert_eq!(runtime.active_applications(), &vec![1, 2]);
}

#[test]
fn a_failed_load_releases_its_module_registration() {
    let mut runtime = runtime(1);
    let loading = runtime.load_app("/app", "main.js", Dependencies::new());
    let application = loading.application;
    let error = runtime
        .load_application(loading, Err(raised("missing import")), 4)
        .err()
        .expect("missing import must reject the load");
    assert_eq!(error.message(), "missing import");
    assert_eq!(runtime.modules_mut().registration_count(), 0);
    assert!(!runtime.is_active(application));

    let loading = runtime.load_app("/app", "main.js", Dependencies::new());
    let error = runtime.load_application(loading, Ok(ScriptValue::Null), 4).err().unwrap();
    assert_eq!(error.message(), "main.js must `export default` a class that extends View");

    let unreadable = runtime.load_app("/app", "gone.js", Dependencies::new());
    runtime.abandon_load(unreadable);
    assert_eq!(runtime.modules_mut().registration_count(), 0);
}

#[test]
fn an_application_that_fails_to_start_is_retired() {
    let mut runtime = runtime(1);
    let application = load(&mut runtime);
    let generation = application.view_type.application;
    runtime.effects_mut().schedule_component_app_effect(1, true, Some(9), "menu", "a").unwrap();
    runtime.effects_mut().apply_component_app_effect(1, true, "menu", "a");
    runtime.effects_mut().finish_component_app_effect(1, "menu", "a", 70);
    let object =
        runtime.construct(&application.view_type, true, Ok(12)).unwrap_or_else(|_| panic!());
    assert_eq!((object.value, object.application), (12, Some(1)));
    let lease = object.module_lease.as_ref().expect("a lease");
    assert_eq!((lease.load_number(), lease.generation()), (1, 1));
    assert_eq!(object.origin(), ViewOrigin { load: Some(1), application: Some(1) });
    let failed = runtime
        .instantiate_view_with_policy(generation, true, Ok(()), Err(raised("nested")))
        .err()
        .expect("a nested view failed");
    assert_eq!(failed.error.message(), "nested");
    assert_eq!(failed.cleanups, vec![70]);
    assert!(!runtime.is_active(1));

    let again = load(&mut runtime);
    let failed = runtime.construct(&again.view_type, false, Err(raised("constructor"))).err().unwrap();
    assert_eq!(failed.error.message(), "constructor");
    assert!(failed.cleanups.is_empty());
    assert!(!runtime.is_active(2));
}

#[test]
fn a_child_that_fails_to_start_leaves_nothing_behind() {
    let mut runtime = runtime(1);
    load(&mut runtime);
    let kept = runtime.entities_mut().retain(None, None, Some(1)).expect("room");
    let started = runtime.tasks_mut().start(1, Some(1), Some(100)).expect("a number");

    let checkpoint = runtime.begin_nested_view(Ok(())).unwrap_or_else(|_| panic!());
    let handle = runtime
        .retain_nested_view(checkpoint, Ok(()), Ok(200), None, Some(1))
        .unwrap_or_else(|_| panic!());
    runtime.entities_mut().retain(None, Some(handle), Some(1)).expect("room");
    runtime.tasks_mut().start(1, Some(1), Some(200)).expect("a number");
    let error = runtime
        .instantiate_nested_view(
            checkpoint,
            handle,
            Err(raised("child init failed")),
            Ok(()),
            Err(raised("later")),
        )
        .err()
        .expect("child init must fail");
    assert_eq!(error.message(), "child init failed");
    assert_eq!(runtime.entities_mut().len(), 1);
    assert_eq!(runtime.entities_mut().view_behind(handle), None);
    assert_eq!(runtime.tasks_mut().task_count(), 1);
    assert!(started < checkpoint.tasks && kept < checkpoint.entities);
}

#[test]
fn a_child_that_cannot_be_constructed_or_retained_is_undone() {
    let mut runtime = runtime(1);
    let refused = runtime.begin_nested_view(Err(raised("parent job"))).err().unwrap();
    assert_eq!(refused.message(), "parent job");
    let checkpoint = runtime.begin_nested_view(Ok(())).unwrap_or_else(|_| panic!());
    runtime.tasks_mut().start(1, None, None).expect("a number");
    let error = runtime
        .retain_nested_view(checkpoint, Err(raised("job")), Err(raised("constructor")), None, None)
        .err()
        .unwrap();
    assert_eq!(error.message(), "job");
    assert_eq!(runtime.tasks_mut().task_count(), 0);

    for view in 0..8 {
        child(&mut runtime, view, None, 1);
    }
    let checkpoint = runtime.begin_nested_view(Ok(())).unwrap_or_else(|_| panic!());
    let full = runtime.retain_nested_view(checkpoint, Ok(()), Ok(9), None, None).err().unwrap();
    assert_eq!(
        full.message(),
        "the application reached gpui-shell's retained entity limit; release unused handles"
    );
    assert_eq!(runtime.entities_mut().len(), 8);
}

#[test]
fn releasing_a_view_releases_what_it_owns_and_nothing_else() {
    let mut runtime = runtime(1);
    load(&mut runtime);
    let parent = child(&mut runtime, 200, None, 1);
    let descendant = child(&mut runtime, 201, Some(parent), 1);
    let sibling = child(&mut runtime, 202, None, 1);
    for view in [200, 201, 202] {
        runtime.tasks_mut().start(1, Some(1), Some(view)).expect("a number");
    }
    runtime.callbacks_mut().begin();
    let entry = CallbackEntry {
        value: 5,
        view: Some(201),
        application: Some(1),
        registered_in: None,
    };
    let id = runtime.callbacks_mut().push(entry);
    let other = runtime.callbacks_mut().push(CallbackEntry { view: Some(202), ..entry });
    runtime.callbacks_mut().commit();

    assert!(runtime.release_view_handle(parent));
    assert_eq!(runtime.entities_mut().view_behind(descendant), None);
    assert_eq!(runtime.entities_mut().view_behind(sibling), Some(202));
    assert_eq!(runtime.tasks_mut().task_count(), 1);
    assert_eq!(runtime.callbacks().get(id), None);
    assert!(runtime.callbacks().get(other).is_some());
    assert!(!runtime.release_view_handle(parent));
}

#[test]
fn a_handle_is_good_in_the_runtime_that_made_it() {
    let mut first = runtime(1);
    let mut second = runtime(2);
    let mine = child(&mut first, 200, None, 1);
    let theirs = child(&mut second, 200, None, 1);
    assert_ne!(mine, theirs);
    assert!(!second.release_view_handle(mine));
    assert_eq!(second.entities_mut().len(), 1);
}

#[test]
fn a_retired_application_keeps_nothing() {
    let mut runtime = runtime(1);
    load(&mut runtime);
    load(&mut runtime);
    child(&mut runtime, 200, None, 1);
    let other = child(&mut runtime, 201, None, 2);
    runtime.tasks_mut().start(1, Some(1), None).expect("a number");
    runtime.tasks_mut().start(1, Some(2), None).expect("a number");
    let first = runtime.define_template(Template { application: Some(1), body: 10 });
    let second = runtime.define_template(Template { application: Some(2), body: 11 });
    assert!(runtime.release_application_generation(1, true).is_empty());
    assert_eq!(runtime.entities_mut().len(), 1);
    assert_eq!(runtime.entities_mut().view_behind(other), Some(201));
    assert_eq!(runtime.tasks_mut().task_count(), 1);
    assert_eq!(runtime.template(first), None);
    assert_eq!(runtime.template(second), Some(Template { application: Some(2), body: 11 }));
    assert_eq!(runtime.template(second + 1), None);
    assert_eq!(runtime.active_applications(), &vec![2]);
}

#[test]
fn a_failed_update_is_undone() {
    let mut runtime = runtime(1);
    let handle = child(&mut runtime, 200, None, 1);
    assert!(matches!(runtime.begin_nested_update(handle, Ok(())), Ok(200)));
    let gone = runtime.begin_nested_update(handle + 1, Ok(())).err().unwrap();
    assert_eq!(gone.message(), "this Entity has been released and cannot be updated");

    let checkpoint = runtime.checkpoint();
    runtime.tasks_mut().start(1, None, Some(200)).expect("a number");
    assert!(runtime.update_nested_view(checkpoint, Ok(()), Ok(()), Ok(())).is_ok());
    assert_eq!(runtime.tasks_mut().task_count(), 1);

    let checkpoint = runtime.checkpoint();
    runtime.tasks_mut().start(1, None, Some(200)).expect("a number");
    runtime.entities_mut().retain(None, Some(handle), None).expect("room");
    let error = runtime
        .update_nested_view(checkpoint, Ok(()), Err(raised("update")), Ok(()))
        .err()
        .unwrap();
    assert_eq!(error.message(), "update");
    assert_eq!((runtime.tasks_mut().task_count(), runtime.entities_mut().len()), (1, 1));
    let error = runtime
        .update_nested_view(checkpoint, Ok(()), Err(raised("update")), Err("frozen".to_owned()))
        .err()
        .unwrap();
    assert_eq!(error.message(), "failed to restore child state: frozen");
    assert!(matches!(error, ScriptError::RestoreFailed { cause, .. } if cause == "update"));
}

#[test]
fn only_a_function_takes_new_props() {
    assert!(!is_updatable(&ScriptValue::Undefined));
    assert!(!is_updatable(&ScriptValue::Null));
    assert!(is_updatable(&ScriptValue::Boolean(true)));
    assert!(matches!(update_method(&ScriptValue::Null), Ok(None)));
    assert!(matches!(update_method(&ScriptValue::Function(3)), Ok(Some(3))));
    assert!(matches!(
        update_method(&ScriptValue::Boolean(true)),
        Err(Fault::UpdateNotFunction)
    ));
    assert!(check_nested_class(&ScriptValue::Function(3)).is_ok());
    assert!(matches!(check_nested_class(&ScriptValue::Null), Err(Fault::NestedClass)));
}

#[test]
fn only_a_function_saves_or_restores_a_panel() {
    assert_eq!(panel_hook(&ScriptValue::Function(3), "function").ok(), Some(Some(3)));
    assert_eq!(panel_hook(&ScriptValue::Undefined, "undefined").ok(), Some(None));
    assert_eq!(panel_hook(&ScriptValue::Null, "null").ok(), Some(None));
    let error = panel_hook(&ScriptValue::Boolean(true), "bool").err().expect("no function");
    assert_eq!(error.message(), "Error converting from js 'bool' into type 'function'");
    let getter = ScriptValue::Raised("getter threw".to_owned());
    let error = panel_hook(&getter, "").err().expect("the getter threw");
    assert_eq!(error.message(), "getter threw");
    assert!(!is_saved(&ScriptValue::Null) && !is_saved(&ScriptValue::Undefined));
    assert!(is_saved(&ScriptValue::Boolean(false)));
}

#[test]
fn a_state_is_put_back_where_an_update_failed() {
    let failed = || Err(raised("update"));
    assert_eq!(ShellRuntime::restoration(&Ok(()), &Ok(()), Some(4)), None);
    assert_eq!(ShellRuntime::restoration(&Ok(()), &failed(), Some(4)), Some(4));
    assert_eq!(ShellRuntime::restoration(&failed(), &Ok(()), Some(4)), Some(4));
    assert_eq!(ShellRuntime::restoration(&failed(), &failed(), None), None);
}

#[test]
fn a_runtime_whose_queue_never_ends_is_never_entered_again() {
    let mut runtime = runtime(1);
    runtime.tasks_mut().start(1, None, None).expect("a number");
    assert!(runtime.enter_js().is_ok());
    assert_eq!(runtime.job_queue_error(), None);
    let fault = runtime.fail_job_queue();
    assert!(ScriptError::<String>::Fixed(fault).message().contains("job queue"));
    assert_eq!(runtime.tasks_mut().task_count(), 0);
    assert!(matches!(runtime.enter_js(), Err(Fault::JobQueue)));
    assert_eq!(runtime.job_queue_error(), Some(Fault::JobQueue));
}

#[test]
fn a_script_that_fails_asks_for_nothing() {
    let mut runtime = runtime(1);
    let scope = here(1);
    let parent = Some(ParentView {
        origin: ViewOrigin { load: Some(1), application: Some(1) },
        policy: 1,
    });
    assert!(runtime.view_new(&scope, parent, 3, 4).is_ok());
    let checkpoint = runtime.enter_js().unwrap_or_else(|_| panic!());
    assert!(runtime.view_new(&scope, parent, 3, 4).is_ok());
    runtime.leave_js(checkpoint, true);
    assert_eq!(runtime.nested().pending_count(), 1);
    let checkpoint = runtime.enter_js().unwrap_or_else(|_| panic!());
    assert!(runtime.view_new(&scope, parent, 3, 4).is_ok());
    runtime.leave_js(checkpoint, false);
    assert_eq!(runtime.nested().pending_count(), 2);
}

#[test]
fn retained_views_are_changed_outside_frames_only() {
    let mut runtime = runtime(1);
    let render = HostScope { phase: Some(ScopePhase::Render), ..here(1) };
    assert_eq!(
        runtime.view_new(&render, None, 3, 4).err().map(|error| error.message()),
        Some(
            "cx.new(Class, props) cannot run during render; create retained views from init(), an \
             event handler or a task"
                .to_owned()
        )
    );
    let layout = HostScope { phase: Some(ScopePhase::Layout), ..here(1) };
    assert!(runtime.view_set_props(&layout, 0, 1).err().unwrap().message().contains("layout"));
    assert!(runtime.view_release(&layout, 0).err().unwrap().message().contains("layout"));
    assert!(runtime.view_release(&here(1), 0).is_err());
}

#[test]
fn a_view_is_created_updated_and_released() {
    let mut runtime = runtime(1);
    load(&mut runtime);
    let scope = here(1);
    let origin = ViewOrigin { load: Some(1), application: Some(1) };
    let token = runtime
        .view_new(&scope, Some(ParentView { origin, policy: 1 }), 3, 4)
        .unwrap_or_else(|_| panic!());
    assert!(!runtime.token_is_live(token));
    assert!(runtime.nested_mut().begin_flush());
    let action = match runtime.flush_pending_nested_views(&scope) {
        FlushStep::Perform(action) => action,
        _ => panic!("a creation waits"),
    };
    let handle = child(&mut runtime, 300, None, 1);
    assert!(matches!(
        runtime.settle_nested_action(action, ActionOutcome::Created(handle)),
        Settled::Continue
    ));
    assert!(matches!(runtime.flush_pending_nested_views(&scope), FlushStep::Done));
    assert!(runtime.token_is_live(token));
    assert!(runtime.view_set_props(&scope, token, 8).is_ok());
    assert!(matches!(runtime.view_release(&scope, token), Ok(true)));
    assert!(runtime.nested_mut().begin_flush());
    assert!(matches!(
        runtime.flush_pending_nested_views(&scope),
        FlushStep::Perform(NestedAction::Update { props: 8, .. })
    ));
    assert!(matches!(
        runtime.flush_pending_nested_views(&scope),
        FlushStep::Perform(NestedAction::Release { handle: found }) if found == handle
    ));
    assert!(runtime.release_view_handle(handle));
    assert!(!runtime.token_is_live(token));
}

#[test]
fn a_script_is_warned_once_of_a_deprecated_export() {
    let mut runtime = runtime(1);
    assert_eq!(runtime.deprecation_warning_count("Old"), 0);
    assert_eq!(
        runtime.warn_deprecated_export("Old", "New", "It is faster."),
        Some(
            "JavaScript component export `Old` is deprecated; use `New`. It is faster.".to_owned()
        )
    );
    assert_eq!(runtime.warn_deprecated_export("Old", "New", "It is faster."), None);
    assert_eq!(runtime.deprecation_warning_count("Old"), 1);
}

#[test]
fn a_panel_class_is_registered_within_a_call() {
    let mut runtime = runtime(1);
    let outside = HostScope { policy: None, ..here(1) };
    assert!(matches!(
        runtime.register_panel_class(&outside, Some("app/log".to_owned()), 4),
        Err(Fault::PanelNeedsCall)
    ));
    assert!(runtime.register_panel_class(&here(1), None, 4).is_err());
    let name = runtime.register_panel_class(&here(1), Some("app/log".to_owned()), 4);
    assert_eq!(name.ok(), Some("app/log".to_owned()));
    let panel = runtime.panel_script("app/log").expect("a panel");
    assert_eq!((panel.class, panel.application, panel.policy), (4, Some(1), 1));
    assert_eq!(runtime.panel_script("app/other"), None);
    runtime.shutdown();
    assert_eq!(runtime.panel_script("app/log"), None);
}

#[test]
fn tasks_end_with_what_they_belong_to() {
    let mut tasks = Tasks::new();
    let first = tasks.start(1, Some(10), Some(100)).expect("a number");
    tasks.start(2, Some(10), Some(101)).expect("a number");
    tasks.start(2, Some(11), None).expect("a number");
    assert_eq!(tasks.task_count(), 3);
    tasks.finish(first);
    assert_eq!(tasks.task_count(), 2);
    tasks.cancel_application_tasks(10);
    assert_eq!(tasks.task_count(), 1);
    tasks.cancel_view_tasks(100);
    assert_eq!(tasks.task_count(), 1);
    tasks.cancel_policy_tasks(2);
    assert_eq!(tasks.task_count(), 0);
    let checkpoint = tasks.checkpoint_runtime_tasks();
    tasks.start(1, None, None).expect("a number");
    tasks.rollback_runtime_tasks(checkpoint);
    assert_eq!(tasks.task_count(), 0);
}

#[test]
fn entities_are_released_by_application_and_since_a_checkpoint() {
    let mut store = EntityStore::new(3, 4);
    let first = store.retain(Some(1), None, Some(10)).expect("room");
    assert_eq!(first, 3 << 32);
    store.retain(None, Some(first), Some(11)).expect("room");
    let released = store.release(EntityRelease::Application(10));
    assert_eq!((released.handles.len(), released.views), (2, vec![1]));
    assert_eq!(store.len(), 0);
    let checkpoint = store.checkpoint();
    store.retain(None, None, None).expect("room");
    let released = store.release(EntityRelease::Since(checkpoint));
    assert_eq!(released.handles, vec![checkpoint]);
    store.clear();
    assert_eq!(store.len(), 0);
}

/// Runs a job that a view has queued, which retains an input and a timer on its behalf.
fn run_queued(runtime: &mut ShellRuntime, view: u64) {
    let scope = HostScope { view: Some(view), ..here(7) };
    runtime.work(&scope, Work::Retain).expect("room");
    runtime.work(&scope, Work::Start).expect("a number");
}

/// Starts a child, which retains an input and a timer when it is initialized.
fn busy_child(runtime: &mut ShellRuntime, view: u64, owner: Option<u64>) -> u64 {
    let checkpoint = runtime.begin_nested_view(Ok(())).unwrap_or_else(|_| panic!());
    let handle = runtime
        .retain_nested_view(checkpoint, Ok(()), Ok(view), owner, Some(7))
        .unwrap_or_else(|_| panic!());
    run_queued(runtime, view);
    runtime
        .instantiate_nested_view(checkpoint, handle, Ok(()), Ok(()), Ok(()))
        .unwrap_or_else(|_| panic!("child"))
}

#[test]
fn nested_init_receives_props_after_the_final_entity_exists() {
    let mut runtime = runtime(1);
    let tasks_before = runtime.tasks_mut().task_count();
    let records_before = runtime.entities_mut().len();
    let handle = busy_child(&mut runtime, 200, None);
    assert_eq!(runtime.entities_mut().view_behind(handle), Some(200));
    assert_eq!(runtime.entities_mut().len(), records_before + 2);
    assert_eq!(runtime.tasks_mut().task_count(), tasks_before + 1);
    assert!(runtime.release_view_handle(handle));
    assert_eq!(runtime.tasks_mut().task_count(), tasks_before);
    assert_eq!(runtime.entities_mut().len(), records_before);
}

#[test]
fn successful_child_init_does_not_claim_a_preexisting_parent_job() {
    let mut runtime = runtime(1);
    let records_before = runtime.entities_mut().len();
    let tasks_before = runtime.tasks_mut().task_count();
    let parent = child(&mut runtime, 200, None, 7);
    // What the parent has queued runs before the child is begun, on the parent's behalf.
    run_queued(&mut runtime, 200);
    let child = busy_child(&mut runtime, 201, Some(parent));

    assert_eq!(runtime.entities_mut().len(), records_before + 4);
    assert_eq!(runtime.tasks_mut().task_count(), tasks_before + 2);
    assert!(runtime.release_view_handle(child));
    assert_eq!(runtime.entities_mut().len(), records_before + 2);
    assert_eq!(runtime.tasks_mut().task_count(), tasks_before + 1);
    assert!(runtime.release_view_handle(parent));
    assert_eq!(runtime.entities_mut().len(), records_before);
    assert_eq!(runtime.tasks_mut().task_count(), tasks_before);
}

#[test]
fn throwing_child_init_rolls_back_its_job_but_not_a_preexisting_parent_job() {
    let mut runtime = runtime(1);
    let records_before = runtime.entities_mut().len();
    let tasks_before = runtime.tasks_mut().task_count();
    let parent = child(&mut runtime, 200, None, 7);
    run_queued(&mut runtime, 200);

    let checkpoint = runtime.begin_nested_view(Ok(())).unwrap_or_else(|_| panic!());
    let handle = runtime
        .retain_nested_view(checkpoint, Ok(()), Ok(201), Some(parent), Some(7))
        .unwrap_or_else(|_| panic!());
    run_queued(&mut runtime, 201);
    let failed = Err(raised("mixed init failed"));
    let error = runtime
        .instantiate_nested_view(checkpoint, handle, failed, Ok(()), Ok(()))
        .err()
        .expect("child init must fail");
    assert!(error.message().contains("mixed init failed"));
    assert_eq!(runtime.entities_mut().len(), records_before + 2);
    assert_eq!(runtime.tasks_mut().task_count(), tasks_before + 1);

    assert!(runtime.release_view_handle(parent));
    assert_eq!(runtime.entities_mut().len(), records_before);
    assert_eq!(runtime.tasks_mut().task_count(), tasks_before);
}

#[test]
fn successor_first_init_chain_fails_the_runtime_and_rolls_back_the_child() {
    let mut runtime = runtime(1);
    let parent = child(&mut runtime, 200, None, 7);
    let records_before = runtime.entities_mut().len();
    let tasks_before = runtime.tasks_mut().task_count();

    let checkpoint = runtime.begin_nested_view(Ok(())).unwrap_or_else(|_| panic!());
    let handle = runtime
        .retain_nested_view(checkpoint, Ok(()), Ok(201), Some(parent), Some(7))
        .unwrap_or_else(|_| panic!());
    run_queued(&mut runtime, 201);
    let jobs = Err(ScriptError::Fixed(runtime.fail_job_queue()));
    let error = runtime
        .instantiate_nested_view(checkpoint, handle, Ok(()), Ok(()), jobs)
        .err()
        .expect("a non-quiescing init wave must fail within the host job bound");
    assert!(error.message().contains("job queue"));
    assert_eq!(runtime.entities_mut().len(), records_before);
    assert_eq!(runtime.tasks_mut().task_count(), tasks_before);

    let disabled = runtime.enter_js().err().expect("the failed runtime must refuse scripts");
    assert!(ScriptError::<String>::Fixed(disabled).message().contains("job queue"));
    assert!(runtime.release_view_handle(parent));
}

#[test]
fn nested_view_retains_the_real_loaded_application_lease() {
    let mut runtime = runtime(1);
    let application = load(&mut runtime);
    let generation = application.view_type.application.expect("real application lease");
    assert_eq!(runtime.modules_mut().registration_count(), 1);
    let object = runtime.make_view_object(&application.view_type, 60);
    let handle = child(&mut runtime, 200, None, generation);
    assert_eq!(runtime.entities_mut().view_behind(handle), Some(200), "retained child");
    assert_eq!(object.application, Some(generation), "child application");

    runtime.drop_view_type(application.view_type);
    assert_eq!(
        runtime.modules_mut().registration_count(),
        1,
        "the retained child object must keep its evaluated module lease"
    );
    runtime.release_application_generation(generation, true);
    assert_eq!(
        runtime.entities_mut().view_behind(handle),
        None,
        "application unload must remove the child's retained handle"
    );
    assert_eq!(runtime.modules_mut().registration_count(), 1);
    runtime.drop_view_object(object);
    assert_eq!(runtime.modules_mut().registration_count(), 0);
}

#[test]
fn a_request_for_a_view_keeps_its_modules_until_it_is_over() {
    let mut runtime = runtime(1);
    let application = load(&mut runtime);
    let scope = here(1);
    let origin = ViewOrigin { load: Some(1), application: Some(1) };
    let parent = Some(ParentView { origin, policy: 1 });
    let checkpoint = runtime.enter_js().unwrap_or_else(|_| panic!());
    assert!(runtime.view_new(&scope, parent, 3, 4).is_ok());
    runtime.drop_view_type(application.view_type);
    assert_eq!(runtime.modules_mut().registration_count(), 1, "the request holds a lease");
    runtime.leave_js(checkpoint, true);
    assert_eq!(runtime.modules_mut().registration_count(), 0, "a dropped request holds none");

    let application = load(&mut runtime);
    let origin = ViewOrigin { load: Some(2), application: Some(2) };
    let parent = Some(ParentView { origin, policy: 1 });
    let scope = here(2);
    assert!(runtime.view_new(&scope, parent, 3, 4).is_ok());
    runtime.drop_view_type(application.view_type);
    assert!(runtime.nested_mut().begin_flush());
    let action = match runtime.flush_pending_nested_views(&scope) {
        FlushStep::Perform(action) => action,
        _ => panic!("a creation waits"),
    };
    let object = match &action {
        NestedAction::Create { view_type, .. } => runtime.make_view_object(view_type, 61),
        _ => panic!("a creation waits"),
    };
    let handle = child(&mut runtime, 300, None, 2);
    runtime.settle_nested_action(action, ActionOutcome::Created(handle));
    assert_eq!(runtime.modules_mut().registration_count(), 1, "the instance holds a lease");
    runtime.drop_view_object(object);
    assert_eq!(runtime.modules_mut().registration_count(), 0);
}

#[test]
fn a_class_without_modules_holds_no_lease() {
    let mut runtime = runtime(1);
    let view_type = ViewType { class: 3, module_lease: None, application: None };
    assert!(runtime.can_share());
    let object = runtime.make_view_object(&view_type, 5);
    assert_eq!(object.origin(), ViewOrigin { load: None, application: None });
    runtime.drop_view_object(object);
    runtime.drop_view_type(view_type);
    assert_eq!(runtime.modules_mut().registration_count(), 0);
}

#[test]
fn releasing_one_child_preserves_its_sibling_and_application_state() {
    let mut runtime = runtime(1);
    let tasks_before = runtime.tasks_mut().task_count();
    let application_focus = runtime.entities_mut().retain(None, None, Some(7)).expect("room");
    assert!(
        !runtime.release_view_handle(application_focus),
        "typed view release must reject a live handle of another retained type"
    );
    let first = busy_child(&mut runtime, 200, None);
    let second = busy_child(&mut runtime, 201, None);

    assert_eq!(runtime.tasks_mut().task_count(), tasks_before + 2);
    assert!(runtime.release_view_handle(first));
    assert_eq!(runtime.entities_mut().view_behind(first), None);
    assert_eq!(
        runtime.entities_mut().view_behind(second),
        Some(201),
        "releasing one child must preserve its sibling"
    );
    assert_eq!(runtime.entities_mut().len(), 3);
    assert_eq!(runtime.tasks_mut().task_count(), tasks_before + 1);
    assert!(runtime.release_view_handle(second));
    assert_eq!(runtime.entities_mut().len(), 1);
    assert_eq!(runtime.tasks_mut().task_count(), tasks_before);
}

#[test]
fn releasing_a_child_recursively_cancels_retained_descendant_tasks() {
    let mut runtime = runtime(1);
    let tasks_before = runtime.tasks_mut().task_count();
    let parent = busy_child(&mut runtime, 200, None);
    let descendant = busy_child(&mut runtime, 201, Some(parent));
    assert_eq!(runtime.tasks_mut().task_count(), tasks_before + 2);
    assert!(runtime.release_view_handle(parent));
    assert_eq!(runtime.entities_mut().view_behind(parent), None);
    assert_eq!(runtime.entities_mut().view_behind(descendant), None);
    assert_eq!(runtime.tasks_mut().task_count(), tasks_before);
}

#[test]
fn exact_view_cancellation_is_qualified_by_runtime_across_apps() {
    let mut runtime_a = runtime(1);
    let mut runtime_b = runtime(2);
    let handle_a = busy_child(&mut runtime_a, 200, None);
    let handle_b = busy_child(&mut runtime_b, 200, None);
    assert!(
        !runtime_b.release_view_handle(handle_a),
        "typed release must reject a handle from another runtime's store"
    );
    assert_eq!(runtime_b.entities_mut().view_behind(handle_b), Some(200));
    assert!(runtime_a.release_view_handle(handle_a));
    assert_eq!(runtime_a.tasks_mut().task_count(), 0);
    assert_eq!(runtime_b.tasks_mut().task_count(), 1);
    assert_eq!(runtime_b.entities_mut().view_behind(handle_b), Some(200));
    assert!(runtime_b.release_view_handle(handle_b));
    assert_eq!(runtime_b.tasks_mut().task_count(), 0);
}

#[test]
fn failed_child_init_rolls_back_only_the_candidate_child() {
    let mut runtime = runtime(1);
    runtime.entities_mut().retain(None, None, Some(7)).expect("room for one focus handle");
    let records_before = runtime.entities_mut().len();
    let tasks_before = runtime.tasks_mut().task_count();

    let checkpoint = runtime.begin_nested_view(Ok(())).unwrap_or_else(|_| panic!());
    let handle = runtime
        .retain_nested_view(checkpoint, Ok(()), Ok(200), None, Some(7))
        .unwrap_or_else(|_| panic!());
    runtime.entities_mut().retain(None, Some(handle), Some(7)).expect("room");
    runtime.tasks_mut().start(1, Some(7), Some(200)).expect("a number");
    runtime.entities_mut().retain(None, None, None).expect("room");
    let failed = Err(raised("child init failed"));
    let error = runtime
        .instantiate_nested_view(checkpoint, handle, failed, Ok(()), Ok(()))
        .err()
        .expect("child init must fail");
    assert!(error.message().contains("child init failed"));
    assert_eq!(runtime.entities_mut().len(), records_before);
    assert_eq!(runtime.tasks_mut().task_count(), tasks_before);
}

#[test]
fn releasing_a_rendered_child_retires_callbacks_while_a_frame_retains_it() {
    let mut runtime = runtime(1);
    let handle = child(&mut runtime, 200, None, 7);
    let entry =
        CallbackEntry { value: 5, view: Some(200), application: None, registered_in: None };
    runtime.callbacks_mut().begin();
    let callback = runtime.callbacks_mut().push(entry);
    runtime.callbacks_mut().commit();
    assert_eq!(runtime.callbacks().live_callbacks(), 1);

    assert!(runtime.release_view_handle(handle));
    assert_eq!(runtime.callbacks().live_callbacks(), 0);
    assert_eq!(runtime.callbacks().get(callback), None, "a released callback must be inert");
    assert_eq!(runtime.entities_mut().view_behind(handle), None);
    assert!(!runtime.release_view_handle(handle), "typed release must reject a stale view handle");
}
