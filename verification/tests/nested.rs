use gpui_shell::error::Fault;
use gpui_shell::nested::{
    ActionOutcome, FlushStep, NestedAction, NestedViews, ParentView, Settled, ViewOrigin,
};
use gpui_shell::scope::{CurrentApplication, HostScope, ScopePhase};

fn scope(policy: u64, generation: u64) -> HostScope {
    HostScope {
        phase: Some(ScopePhase::Event),
        policy: Some(policy),
        application: Some(CurrentApplication { generation, active: true }),
        view: Some(1),
    }
}

fn parent(policy: u64, generation: u64) -> Option<ParentView> {
    let origin = ViewOrigin { load: Some(5), application: Some(generation) };
    Some(ParentView { origin, policy })
}

fn create(views: &mut NestedViews, policy: u64, generation: u64, handle: u64) -> u32 {
    let here = scope(policy, generation);
    let token = views
        .queue_nested_view_creation(&here, parent(policy, generation), 3, 4, None)
        .unwrap_or_else(|_| panic!("creation"));
    assert!(views.begin_flush());
    let action = match views.flush_pending_nested_views(&here, true, false) {
        FlushStep::Perform(action) => action,
        _ => panic!("a creation waits"),
    };
    assert!(matches!(
        views.settle_action(action, ActionOutcome::Created(handle)),
        Settled::Continue
    ));
    assert!(matches!(views.flush_pending_nested_views(&here, true, false), FlushStep::Done));
    token
}

#[test]
fn foreign_release_cannot_probe_or_remove_a_dead_nested_alias() {
    let (owner_application, foreign_application) = (71, 72);
    let (owner_policy, foreign_policy) = (1, 2);
    let mut views = NestedViews::new();
    let mut token = 0;
    while token != 91 {
        token = create(&mut views, owner_policy, owner_application, 1000 + token as u64);
    }
    let dead = false;

    let foreign = scope(foreign_policy, foreign_application);
    assert!(
        views.queue_nested_view_release(&foreign, token, dead).is_err(),
        "foreign authority must be rejected"
    );
    assert!(
        views.handle_of(token).is_some(),
        "foreign release observed liveness and removed the dead alias"
    );

    let owner = scope(owner_policy, owner_application);
    assert_eq!(views.queue_nested_view_release(&owner, token, dead).expect("owner call"), false);
    assert!(views.handle_of(token).is_none());
}

#[test]
fn targeted_notify_rejects_an_entity_from_another_application() {
    let (owner_application, foreign_application) = (81, 82);
    let (owner_policy, foreign_policy) = (1, 2);
    let mut views = NestedViews::new();
    let mut token = 0;
    while token != 92 {
        token = create(&mut views, owner_policy, owner_application, 1000 + token as u64);
    }

    let foreign = scope(foreign_policy, foreign_application);
    assert!(
        views.queue_nested_view_notify(&foreign, token, true).is_err(),
        "foreign application must be rejected"
    );
    assert!(
        views.handle_of(token).is_some(),
        "a foreign notify must not invalidate the owner's alias"
    );

    let owner = scope(owner_policy, owner_application);
    views
        .queue_nested_view_notify(&owner, token, true)
        .expect("owner application can notify its live child");
}

#[test]
fn requests_are_carried_out_in_the_order_in_which_they_were_made() {
    let mut views = NestedViews::new();
    let token = create(&mut views, 1, 7, 40);
    let here = scope(1, 7);
    views.queue_nested_view_update(&here, token, true, 8).unwrap();
    views.queue_nested_view_notify(&here, token, true).unwrap();
    assert!(views.queue_nested_view_release(&here, token, true).unwrap());
    assert_eq!(views.pending_count(), 3);

    assert!(views.begin_flush());
    assert!(!views.begin_flush(), "a flush is under way");
    let expected = [
        NestedAction::Update { handle: 40, props: 8 },
        NestedAction::Refresh { handle: 40 },
        NestedAction::Release { handle: 40 },
    ];
    for action in expected {
        match views.flush_pending_nested_views(&here, true, true) {
            FlushStep::Perform(found) => {
                assert_eq!(found, action);
                assert!(matches!(
                    views.settle_action(found, ActionOutcome::Done),
                    Settled::Continue
                ));
            }
            _ => panic!("a request waits"),
        }
    }
    assert!(matches!(views.flush_pending_nested_views(&here, true, true), FlushStep::Done));
    assert!(views.begin_flush());
}

#[test]
fn a_view_whose_release_waits_is_closed() {
    let mut views = NestedViews::new();
    let token = create(&mut views, 1, 7, 40);
    let here = scope(1, 7);
    assert_eq!(views.child_view(&here, token, true).ok(), Some(40));
    assert_eq!(views.queue_nested_view_release(&here, token, true).ok(), Some(true));
    assert_eq!(views.queue_nested_view_release(&here, token, true).ok(), Some(false));
    assert!(matches!(
        views.queue_nested_view_update(&here, token, true, 1),
        Err(Fault::UpdateReleased)
    ));
    assert!(matches!(
        views.queue_nested_view_notify(&here, token, true),
        Err(Fault::NotifyReleased)
    ));
    assert!(matches!(views.child_view(&here, token, true), Err(Fault::MountReleased)));
}

#[test]
fn a_failed_request_drops_those_behind_it() {
    let mut views = NestedViews::new();
    let token = create(&mut views, 1, 7, 40);
    let here = scope(1, 7);
    views.queue_nested_view_update(&here, token, true, 8).unwrap();
    views.queue_nested_view_notify(&here, token, true).unwrap();
    assert!(views.begin_flush());
    let action = match views.flush_pending_nested_views(&here, true, true) {
        FlushStep::Perform(action) => action,
        _ => panic!("a request waits"),
    };
    assert!(matches!(views.settle_action(action, ActionOutcome::Failed), Settled::Stop));
    assert_eq!(views.pending_count(), 0);
    assert!(views.begin_flush());
}

#[test]
fn a_request_is_carried_out_only_with_the_authority_it_was_made_with() {
    let mut views = NestedViews::new();
    let here = scope(1, 7);
    views.queue_nested_view_creation(&here, parent(1, 7), 3, 4, None).unwrap_or_else(|_| panic!());
    assert!(views.begin_flush());
    assert!(matches!(
        views.flush_pending_nested_views(&scope(2, 7), true, false),
        FlushStep::Failed(Fault::ForeignCreate)
    ));
    assert_eq!(views.pending_count(), 0);
}

#[test]
fn a_view_is_created_within_a_view_and_a_call() {
    let mut views = NestedViews::new();
    let outside = HostScope { view: None, ..scope(1, 7) };
    let no_view = views.queue_nested_view_creation(&outside, parent(1, 7), 3, 4, None).unwrap_err();
    assert!(no_view.message().contains("needs a current script view"));
    let no_call = views.queue_nested_view_creation(&scope(1, 7), None, 3, 4, None).unwrap_err();
    assert!(no_call.message().contains("needs a live host call"));
}

#[test]
fn what_a_view_creates_in_its_init_belongs_with_it() {
    let mut views = NestedViews::new();
    let here = HostScope { application: None, ..scope(1, 7) };
    let origin = ViewOrigin { load: Some(9), application: Some(30) };
    views.begin_initialize(origin);
    assert_eq!(views.creation_origin(&here, &parent(1, 7)).ok(), Some(origin));
    views.queue_nested_view_creation(&here, parent(1, 7), 3, 4, None).unwrap_or_else(|_| panic!());
    views.end_initialize();
    let running = scope(1, 30);
    assert!(views.begin_flush());
    match views.flush_pending_nested_views(&running, true, false) {
        FlushStep::Perform(NestedAction::Create { view_type, .. }) => {
            assert_eq!(view_type.application, Some(30));
        }
        _ => panic!("a creation waits"),
    }
}

#[test]
fn a_failed_creation_leaves_no_token_behind() {
    let mut views = NestedViews::new();
    let here = scope(1, 7);
    let token =
        views.queue_nested_view_creation(&here, parent(1, 7), 3, 4, None).unwrap_or_else(|_| panic!());
    assert!(views.begin_flush());
    let action = match views.flush_pending_nested_views(&here, true, false) {
        FlushStep::Perform(action) => action,
        _ => panic!("a creation waits"),
    };
    assert!(matches!(views.settle_action(action, ActionOutcome::Failed), Settled::Stop));
    assert_eq!(views.handle_of(token), None);
    assert!(views.queue_nested_view_update(&here, token, true, 1).is_err());
}

#[test]
fn released_views_are_forgotten_and_no_others() {
    let mut views = NestedViews::new();
    let first = create(&mut views, 1, 7, 40);
    let second = create(&mut views, 1, 7, 41);
    assert_eq!(views.nested_view_alias_count(), 2);
    views.purge_released_view_aliases(&vec![40]);
    assert_eq!(views.handle_of(first), None);
    assert_eq!(views.handle_of(second), Some(41));
}

#[test]
fn a_failed_script_takes_its_requests_with_it() {
    let mut views = NestedViews::new();
    let here = scope(1, 7);
    views.queue_dock_edit(&here, 2, 3, "DockArea.load(layout)").unwrap_or_else(|_| panic!());
    let checkpoint = views.pending_count();
    views.queue_dock_edit(&here, 2, 4, "DockArea.load(layout)").unwrap_or_else(|_| panic!());
    views.drop_since(checkpoint);
    assert_eq!(views.pending_count(), 1);
    let outside = HostScope { policy: None, ..here };
    let error = views.queue_dock_edit(&outside, 2, 5, "DockArea.load(layout)").unwrap_err();
    assert!(error.message().starts_with("DockArea.load(layout) needs a live host call"));
}

#[test]
fn a_release_of_a_view_that_is_gone_by_then_fails() {
    let mut views = NestedViews::new();
    let token = create(&mut views, 1, 7, 40);
    let here = scope(1, 7);
    views.queue_nested_view_release(&here, token, true).unwrap();
    assert!(views.begin_flush());
    let action = match views.flush_pending_nested_views(&here, true, true) {
        FlushStep::Perform(action) => action,
        _ => panic!("a release waits"),
    };
    assert!(matches!(
        views.settle_action(action, ActionOutcome::Missing),
        Settled::Failed(Fault::GoneBeforeRelease)
    ));
}
