//! Whose the work is that scripts queue.
//!
//! The engine runs what is queued one after the other, and knows no owner of it. Whatever is retained
//! or started meanwhile belongs to the view for which code runs at that time. So the queue is emptied
//! for the caller before a new view comes into being, and again for the new view.
use crate::entities::{EntitiesModel, EntityRecord, EntityRelease};
use crate::entities;
use crate::runtime::{RetainedCheckpoint, RuntimeModel, ShellRuntime};
use crate::runtime;
use crate::scope::{CurrentApplication, HostScope, ScopePhase};
use crate::scope;
use crate::tasks::Task;
use crate::tasks;
use vstd::prelude::*;

verus! {

/// A step of creating a nested view in which script code runs.
#[derive(Clone, Copy, PartialEq, Eq, Structural, Debug)]
pub enum CreationStep {
    /// What was queued before runs.
    Before,
    /// The instance is constructed, and what that has queued runs.
    Construct,
    /// The new view is initialized, and what that has queued runs.
    Initialize,
}

/// For whom script code runs in a step: for the caller before there is anything new, for no view while
/// the instance is constructed, and for the new view from then on.
pub open spec fn step_scope(
    step: CreationStep,
    caller: HostScope,
    policy: u64,
    application: Option<CurrentApplication>,
    child: u64,
) -> HostScope {
    match step {
        CreationStep::Before => caller,
        CreationStep::Construct => HostScope {
            phase: Some(ScopePhase::Event),
            policy: Some(policy),
            application,
            view: None,
        },
        CreationStep::Initialize => HostScope {
            phase: Some(ScopePhase::Event),
            policy: Some(policy),
            application,
            view: Some(child),
        },
    }
}

/// For whom script code runs in a step of creating a nested view.
pub fn creation_scope(
    step: CreationStep,
    caller: &HostScope,
    policy: u64,
    application: Option<CurrentApplication>,
    child: u64,
) -> (r: HostScope)
    ensures
        r == step_scope(step, *caller, policy, application, child),
{
    match step {
        CreationStep::Before => *caller,
        CreationStep::Construct => HostScope {
            phase: Some(ScopePhase::Event),
            policy: Some(policy),
            application,
            view: None,
        },
        CreationStep::Initialize => HostScope {
            phase: Some(ScopePhase::Event),
            policy: Some(policy),
            application,
            view: Some(child),
        },
    }
}

/// The handle of the view that owns what code retains that runs in a scope.
pub open spec fn owner_in(m: RuntimeModel, current: HostScope) -> Option<u64> {
    match current.view {
        Some(view) => entities::handle_of(m.entities.records, view),
        None => None,
    }
}

/// Something that script code does for good.
#[derive(Clone, Copy, PartialEq, Eq, Structural, Debug)]
pub enum Work {
    /// It retains an entity other than a view.
    Retain,
    /// It starts a task.
    Start,
}

/// The state after script code has done something, and the handle or number that it got; it gets none
/// where there is no room, or no call in progress.
pub open spec fn worked(m: RuntimeModel, current: HostScope, work: Work) -> (
    RuntimeModel,
    Option<u64>,
) {
    match work {
        Work::Retain => if entities::has_room(m.entities) {
            let record = EntityRecord {
                handle: m.entities.next,
                view: None,
                owner: owner_in(m, current),
                application: scope::current_generation(current),
            };
            (
                RuntimeModel {
                    entities: EntitiesModel {
                        records: m.entities.records.push(record),
                        next: (m.entities.next + 1) as u64,
                        ..m.entities
                    },
                    ..m
                },
                Some(m.entities.next),
            )
        } else {
            (m, None)
        },
        Work::Start => match current.policy {
            Some(policy) if m.tasks.next < u64::MAX => (
                RuntimeModel {
                    tasks: tasks::started(
                        m.tasks,
                        policy,
                        scope::current_generation(current),
                        current.view,
                    ),
                    ..m
                },
                Some(m.tasks.next),
            ),
            _ => (m, None),
        },
    }
}

/// The state after what was queued has run in a scope, first to last.
pub open spec fn drained(m: RuntimeModel, current: HostScope, queue: Seq<Work>) -> RuntimeModel
    decreases queue.len(),
{
    if queue.len() == 0 {
        m
    } else {
        worked(drained(m, current, queue.drop_last()), current, queue.last()).0
    }
}

impl ShellRuntime {
    /// Does for script code what it asks for, on behalf of the view for which it runs.
    pub fn work(&mut self, current: &HostScope, work: Work) -> (r: Option<u64>)
        requires
            runtime::well_formed(old(self)@),
        ensures
            (final(self)@, r) == worked(old(self)@, *current, work),
            runtime::well_formed(final(self)@),
    {
        proof {
            lemma_worked(self@, *current, work);
        }
        let application: Option<u64> = current.generation();
        match work {
            Work::Retain => {
                let owner: Option<u64> = match current.view {
                    Some(view) => self.entities_mut().handle_behind(view),
                    None => None,
                };
                self.entities_mut().retain(None, owner, application)
            },
            Work::Start => match current.policy {
                Some(policy) => self.tasks_mut().start(policy, application, current.view),
                None => None,
            },
        }
    }
}

proof fn lemma_owner_known(records: Seq<EntityRecord>, view: u64)
    ensures
        entities::handle_of(records, view) matches Some(handle) ==> exists|i: int|
            0 <= i < records.len() && (#[trigger] records[i]).handle == handle && records[i].view
                == Some(view),
    decreases records.len(),
{
    if records.len() > 0 {
        let front = records.drop_last();
        lemma_owner_known(front, view);
        if records.last().view == Some(view) {
            assert(records[records.len() - 1].view == Some(view));
        } else if entities::handle_of(front, view) is Some {
            let i = choose|i: int|
                0 <= i < front.len() && (#[trigger] front[i]).handle == entities::handle_of(
                    front,
                    view,
                )->Some_0 && front[i].view == Some(view);
            assert(records[i] == front[i]);
        }
    }
}

proof fn lemma_worked(m: RuntimeModel, current: HostScope, work: Work)
    requires
        runtime::well_formed(m),
    ensures
        runtime::well_formed(worked(m, current, work).0),
        owner_in(worked(m, current, work).0, current) == owner_in(m, current),
{
    let after = worked(m, current, work).0;
    if let Some(view) = current.view {
        lemma_owner_known(m.entities.records, view);
        if after.entities.records.len() > m.entities.records.len() {
            assert(after.entities.records.drop_last() =~= m.entities.records);
        }
    }
    let records = after.entities.records;
    assert forall|i: int| 0 <= i < records.len() implies entities::first_handle(
        after.entities.store,
    ) <= (#[trigger] records[i]).handle < after.entities.next && match records[i].owner {
        Some(owner) => owner < records[i].handle,
        None => true,
    } by {
        if i < m.entities.records.len() {
            assert(records[i] == m.entities.records[i]);
        }
    }
    assert forall|i: int, j: int| 0 <= i < j < records.len() implies (#[trigger] records[i]).handle
        < (#[trigger] records[j]).handle by {
        assert(records[i] == m.entities.records[i]);
        if j < m.entities.records.len() {
            assert(records[j] == m.entities.records[j]);
        }
    }
    assert forall|i: int| 0 <= i < after.tasks.tasks.len() implies (
    #[trigger] after.tasks.tasks[i]).number < after.tasks.next by {
        if i < m.tasks.tasks.len() {
            assert(after.tasks.tasks[i] == m.tasks.tasks[i]);
        }
    }
}

/// Whether records are entities other than views, all with one owner.
pub open spec fn owned_alike(records: Seq<EntityRecord>, owner: Option<u64>) -> bool {
    forall|i: int|
        0 <= i < records.len() ==> (#[trigger] records[i]).owner == owner && records[i].view is None
}

/// Whether tasks are all those of one view.
pub open spec fn run_alike(list: Seq<Task>, view: Option<u64>) -> bool {
    forall|i: int| 0 <= i < list.len() ==> (#[trigger] list[i]).view == view
}

/// Everything that queued work retains and starts belongs to the view for which it runs.
pub proof fn law_queued_work_belongs_to_the_view_it_runs_for(
    m: RuntimeModel,
    current: HostScope,
    queue: Seq<Work>,
) -> (made: (Seq<EntityRecord>, Seq<Task>))
    requires
        runtime::well_formed(m),
    ensures
        runtime::well_formed(drained(m, current, queue)),
        drained(m, current, queue).entities.records == m.entities.records + made.0,
        drained(m, current, queue).entities.next >= m.entities.next,
        drained(m, current, queue).tasks.tasks == m.tasks.tasks + made.1,
        owned_alike(made.0, owner_in(m, current)),
        run_alike(made.1, current.view),
        drained(m, current, queue) == (RuntimeModel {
            entities: drained(m, current, queue).entities,
            tasks: drained(m, current, queue).tasks,
            ..m
        }),
        owner_in(drained(m, current, queue), current) == owner_in(m, current),
    decreases queue.len(),
{
    if queue.len() == 0 {
        assert(m.entities.records + Seq::<EntityRecord>::empty() =~= m.entities.records);
        assert(m.tasks.tasks + Seq::<Task>::empty() =~= m.tasks.tasks);
        (Seq::empty(), Seq::empty())
    } else {
        let front = queue.drop_last();
        let made = law_queued_work_belongs_to_the_view_it_runs_for(m, current, front);
        let before = drained(m, current, front);
        let after = drained(m, current, queue);
        lemma_worked(before, current, queue.last());
        let records = if after.entities.records.len() > before.entities.records.len() {
            made.0.push(after.entities.records.last())
        } else {
            made.0
        };
        let list = if after.tasks.tasks.len() > before.tasks.tasks.len() {
            made.1.push(after.tasks.tasks.last())
        } else {
            made.1
        };
        assert(after.entities.records =~= m.entities.records + records);
        assert(after.tasks.tasks =~= m.tasks.tasks + list);
        assert forall|i: int| 0 <= i < records.len() implies (#[trigger] records[i]).owner
            == owner_in(m, current) && records[i].view is None by {
            if i < made.0.len() {
                assert(records[i] == made.0[i]);
            }
        }
        assert forall|i: int| 0 <= i < list.len() implies (#[trigger] list[i]).view
            == current.view by {
            if i < made.1.len() {
                assert(list[i] == made.1[i]);
            }
        }
        (records, list)
    }
}

proof fn lemma_before_stays(records: Seq<EntityRecord>, handle: u64)
    requires
        forall|i: int| 0 <= i < records.len() ==> (#[trigger] records[i]).handle < handle,
        forall|i: int|
            0 <= i < records.len() ==> match (#[trigger] records[i]).owner {
                Some(owner) => owner < records[i].handle,
                None => true,
            },
    ensures
        entities::kept(records, EntityRelease::Handle(handle)) == records,
        entities::gone(records, EntityRelease::Handle(handle)) == Seq::<u64>::empty(),
        entities::gone_views(records, EntityRelease::Handle(handle)) == Seq::<u64>::empty(),
    decreases records.len(),
{
    let release = EntityRelease::Handle(handle);
    if records.len() > 0 {
        let front = records.drop_last();
        assert forall|i: int| 0 <= i < front.len() implies (#[trigger] front[i]).handle < handle
            && match front[i].owner {
            Some(owner) => owner < front[i].handle,
            None => true,
        } by {
            assert(front[i] == records[i]);
        }
        lemma_before_stays(front, handle);
        assert(records[records.len() - 1].handle < handle);
        assert(front.push(records.last()) =~= records);
    } else {
        assert(entities::kept(records, release) =~= records);
    }
}

proof fn lemma_owned_goes(
    before: Seq<EntityRecord>,
    child: EntityRecord,
    later: Seq<EntityRecord>,
    view: u64,
)
    requires
        forall|i: int| 0 <= i < before.len() ==> (#[trigger] before[i]).handle < child.handle,
        forall|i: int|
            0 <= i < before.len() ==> match (#[trigger] before[i]).owner {
                Some(owner) => owner < before[i].handle,
                None => true,
            },
        child.view == Some(view),
        owned_alike(later, Some(child.handle)),
    ensures
        entities::kept(before.push(child) + later, EntityRelease::Handle(child.handle)) == before,
        entities::gone(before.push(child) + later, EntityRelease::Handle(child.handle)).contains(
            child.handle,
        ),
        entities::gone_views(before.push(child) + later, EntityRelease::Handle(child.handle))
            == seq![view],
    decreases later.len(),
{
    let all = before.push(child) + later;
    let release = EntityRelease::Handle(child.handle);
    if later.len() == 0 {
        assert(all =~= before.push(child));
        assert(all.drop_last() =~= before);
        lemma_before_stays(before, child.handle);
        assert(entities::gone(all, release) =~= seq![child.handle]);
        assert(seq![child.handle][0] == child.handle);
        assert(entities::gone_views(all, release) =~= seq![view]);
    } else {
        let front = later.drop_last();
        assert forall|i: int| 0 <= i < front.len() implies (#[trigger] front[i]).owner == Some(
            child.handle,
        ) && front[i].view is None by {
            assert(front[i] == later[i]);
        }
        lemma_owned_goes(before, child, front, view);
        assert(all.drop_last() =~= before.push(child) + front);
        assert(all.last() == later[later.len() - 1]);
        let gone = entities::gone(before.push(child) + front, release);
        let k = choose|k: int| 0 <= k < gone.len() && gone[k] == child.handle;
        assert(entities::gone(all, release)[k] == child.handle);
    }
}

/// What was queued before a nested view is created stays with the view for which it was queued, and
/// what the new view queues goes with the new view: releasing that one takes exactly what ran for it.
pub proof fn law_a_new_view_claims_no_earlier_work(
    m: RuntimeModel,
    caller: HostScope,
    queued: Seq<Work>,
    child: u64,
    policy: u64,
    application: Option<CurrentApplication>,
    later: Seq<Work>,
)
    requires
        runtime::well_formed(m),
        caller.view != Some(child),
        forall|i: int|
            0 <= i < m.tasks.tasks.len() ==> (#[trigger] m.tasks.tasks[i]).view != Some(child),
        entities::has_room(drained(m, caller, queued).entities),
    ensures
        ({
            let before = drained(m, caller, queued);
            let checkpoint = RetainedCheckpoint {
                entities: before.entities.next,
                tasks: before.tasks.next,
            };
            let (retained, answer) = runtime::nested_retained(
                before,
                checkpoint,
                Ok(child),
                owner_in(before, caller),
                scope::current_generation(HostScope { application, ..caller }),
            );
            let handle = answer->Ok_0;
            let within = step_scope(
                CreationStep::Initialize,
                caller,
                policy,
                application,
                child,
            );
            let made = drained(retained, within, later);
            let after = runtime::view_released(made, handle).0;
            &&& answer is Ok
            &&& entities::view_of(made.entities.records, handle) == Some(child)
            &&& after.entities.records == before.entities.records
            &&& forall|task: Task| #[trigger]
                after.tasks.tasks.contains(task) <==> before.tasks.tasks.contains(task)
        }),
{
    let before = drained(m, caller, queued);
    let early = law_queued_work_belongs_to_the_view_it_runs_for(m, caller, queued);
    let generation = scope::current_generation(HostScope { application, ..caller });
    let checkpoint = RetainedCheckpoint {
        entities: before.entities.next,
        tasks: before.tasks.next,
    };
    let owner = owner_in(before, caller);
    let retained = runtime::nested_retained(
        before,
        checkpoint,
        Ok(child),
        owner,
        generation,
    ).0;
    let handle = before.entities.next;
    let record = EntityRecord { handle, view: Some(child), owner, application: generation };
    let within = step_scope(CreationStep::Initialize, caller, policy, application, child);
    if let Some(view) = caller.view {
        lemma_owner_known(before.entities.records, view);
    }
    lemma_retained(before, record, retained);
    assert(retained.entities.records.drop_last() =~= before.entities.records);
    assert(owner_in(retained, within) == Some(handle));
    let late = law_queued_work_belongs_to_the_view_it_runs_for(retained, within, later);
    let made = drained(retained, within, later);
    let all = made.entities.records;
    assert(all == before.entities.records.push(record) + late.0);
    lemma_owned_goes(before.entities.records, record, late.0, child);
    lemma_view_found(before.entities.records.push(record), late.0, handle, child);
    let release = EntityRelease::Handle(handle);
    let after = runtime::view_released(made, handle).0;
    assert(after.entities.records == before.entities.records);
    assert forall|task: Task| #[trigger]
        after.tasks.tasks.contains(task) <==> before.tasks.tasks.contains(task) by {
        runtime::lemma_view_tasks(made.tasks, seq![child], task);
        assert(seq![child].contains(child)) by {
            assert(seq![child][0] == child);
        }
        if before.tasks.tasks.contains(task) {
            let k = choose|k: int|
                0 <= k < before.tasks.tasks.len() && before.tasks.tasks[k] == task;
            assert(made.tasks.tasks[k] == task);
            if k < m.tasks.tasks.len() {
                assert(m.tasks.tasks[k].view != Some(child));
            } else {
                assert(early.1[k - m.tasks.tasks.len()] == task);
            }
            if let Some(view) = task.view {
                assert(!seq![child].contains(view));
            }
        }
        if made.tasks.tasks.contains(task) && !before.tasks.tasks.contains(task) {
            let k = choose|k: int| 0 <= k < made.tasks.tasks.len() && made.tasks.tasks[k] == task;
            if k < before.tasks.tasks.len() {
                assert(before.tasks.tasks[k] == task);
            } else {
                assert(late.1[k - before.tasks.tasks.len()] == task);
                assert(task.view == Some(child));
            }
        }
    }
}

proof fn lemma_retained(before: RuntimeModel, record: EntityRecord, retained: RuntimeModel)
    requires
        runtime::well_formed(before),
        entities::has_room(before.entities),
        record.handle == before.entities.next,
        record.owner matches Some(owner) ==> owner < record.handle,
        retained == (RuntimeModel {
            entities: EntitiesModel {
                records: before.entities.records.push(record),
                next: (before.entities.next + 1) as u64,
                ..before.entities
            },
            ..before
        }),
    ensures
        runtime::well_formed(retained),
{
    let records = retained.entities.records;
    assert forall|i: int| 0 <= i < records.len() implies entities::first_handle(
        retained.entities.store,
    ) <= (#[trigger] records[i]).handle < retained.entities.next && match records[i].owner {
        Some(owner) => owner < records[i].handle,
        None => true,
    } by {
        if i < before.entities.records.len() {
            assert(records[i] == before.entities.records[i]);
        }
    }
    assert forall|i: int, j: int| 0 <= i < j < records.len() implies (#[trigger] records[i]).handle
        < (#[trigger] records[j]).handle by {
        assert(records[i] == before.entities.records[i]);
        if j < before.entities.records.len() {
            assert(records[j] == before.entities.records[j]);
        }
    }
}

proof fn lemma_view_found(
    records: Seq<EntityRecord>,
    later: Seq<EntityRecord>,
    handle: u64,
    view: u64,
)
    requires
        records.len() > 0,
        records.last().handle == handle,
        records.last().view == Some(view),
        forall|i: int| 0 <= i < later.len() ==> (#[trigger] later[i]).owner == Some(handle),
        forall|i: int|
            0 <= i < (records + later).len() ==> match (#[trigger] (records + later)[i]).owner {
                Some(owner) => owner < (records + later)[i].handle,
                None => true,
            },
    ensures
        entities::view_of(records + later, handle) == Some(view),
    decreases later.len(),
{
    let all = records + later;
    if later.len() == 0 {
        assert(all =~= records);
    } else {
        let front = later.drop_last();
        let fewer = records + front;
        assert(all.drop_last() =~= fewer);
        assert(all.last() == later[later.len() - 1]);
        assert(all[all.len() - 1].owner == Some(handle));
        assert forall|i: int| 0 <= i < front.len() implies (#[trigger] front[i]).owner == Some(
            handle,
        ) by {
            assert(front[i] == later[i]);
        }
        assert forall|i: int| 0 <= i < fewer.len() implies match (#[trigger] fewer[i]).owner {
            Some(owner) => owner < fewer[i].handle,
            None => true,
        } by {
            assert(fewer[i] == all[i]);
        }
        lemma_view_found(records, front, handle, view);
    }
}

/// What script code retains or starts is last of its kind, belongs to whoever it runs for, and is
/// told by its own number: an entity is no view, and is owned by the view that runs, under the
/// handle that view is retained under; a task has the authority, the application and the view of
/// the scope. Nothing else changes.
pub proof fn law_work_belongs_to_whoever_it_runs_for(m: RuntimeModel, current: HostScope, work: Work)
    requires
        m.entities.next < u64::MAX,
    ensures
        ({
            let (after, answer) = worked(m, current, work);
            &&& match work {
                Work::Retain => {
                    &&& answer is Some <==> entities::has_room(m.entities)
                    &&& after == (RuntimeModel { entities: after.entities, ..m })
                    &&& answer matches Some(handle) ==> {
                        let record = after.entities.records.last();
                        &&& after.entities.records.drop_last() == m.entities.records
                        &&& after.entities.records.len() == m.entities.records.len() + 1
                        &&& record.handle == handle == m.entities.next
                        &&& after.entities.next == handle + 1
                        &&& record.view is None
                        &&& current.view is None ==> record.owner is None
                        &&& record.owner matches Some(owner) ==> exists|i: int|
                            0 <= i < m.entities.records.len() && (
                            #[trigger] m.entities.records[i]).handle == owner
                                && m.entities.records[i].view == current.view
                        &&& match current.application {
                            Some(application) => record.application == Some(
                                application.generation,
                            ),
                            None => record.application is None,
                        }
                    }
                },
                Work::Start => {
                    &&& answer is Some <==> current.policy is Some && m.tasks.next < u64::MAX
                    &&& after == (RuntimeModel { tasks: after.tasks, ..m })
                    &&& answer matches Some(number) ==> {
                        let task = after.tasks.tasks.last();
                        &&& after.tasks.tasks.drop_last() == m.tasks.tasks
                        &&& after.tasks.tasks.len() == m.tasks.tasks.len() + 1
                        &&& task.number == number == m.tasks.next
                        &&& Some(task.policy) == current.policy
                        &&& task.view == current.view
                        &&& match current.application {
                            Some(application) => task.application == Some(application.generation),
                            None => task.application is None,
                        }
                    }
                },
            }
            &&& answer is None ==> after == m
        }),
{
    let after = worked(m, current, work).0;
    match current.view {
        Some(view) => {
            lemma_owner_known(m.entities.records, view);
        },
        None => {},
    }
    if after.entities.records.len() > m.entities.records.len() {
        assert(after.entities.records.drop_last() =~= m.entities.records);
    }
    if after.tasks.tasks.len() > m.tasks.tasks.len() {
        assert(after.tasks.tasks.drop_last() =~= m.tasks.tasks);
    }
}

/// While a view is created, script code runs for the caller first, then for no view, and only then
/// for the new one; from the construction on with the new view's authority and application, as in
/// an event.
pub proof fn law_a_view_is_created_step_by_step(
    caller: HostScope,
    policy: u64,
    application: Option<CurrentApplication>,
    child: u64,
)
    ensures
        step_scope(CreationStep::Before, caller, policy, application, child) == caller,
        step_scope(CreationStep::Construct, caller, policy, application, child).view is None,
        step_scope(CreationStep::Initialize, caller, policy, application, child).view == Some(
            child,
        ),
        forall|step: CreationStep|
            step != CreationStep::Before ==> {
                let scope = #[trigger] step_scope(step, caller, policy, application, child);
                scope.policy == Some(policy) && scope.application == application && scope.phase
                    == Some(ScopePhase::Event)
            },
{
}

} // verus!
