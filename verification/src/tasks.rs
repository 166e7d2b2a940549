//! The work that scripts have started and that has not finished.
//!
//! A task belongs to the authority, the application and the view for which the script ran that
//! started it. It ends with any of them.
use vstd::prelude::*;

verus! {

/// A task: its number, and on whose behalf it runs.
#[derive(Clone, Copy, PartialEq, Eq, Structural, Debug)]
pub struct Task {
    pub number: u64,
    pub policy: u64,
    pub application: Option<u64>,
    pub view: Option<u64>,
}

/// The unfinished tasks, in the order in which they were started, and the number of the next.
#[verifier::ext_equal]
pub struct TasksModel {
    pub tasks: Seq<Task>,
    pub next: u64,
}

/// The unfinished tasks of a runtime.
pub struct Tasks {
    tasks: Vec<Task>,
    next: u64,
}

impl View for Tasks {
    type V = TasksModel;

    closed spec fn view(&self) -> TasksModel {
        TasksModel { tasks: self.tasks@, next: self.next }
    }
}

/// Which tasks end.
#[derive(Clone, Copy, PartialEq, Eq, Structural, Debug)]
pub enum Ending {
    /// This one.
    Number(u64),
    /// Those that run with this authority.
    Policy(u64),
    /// Those of this application.
    Application(u64),
    /// Those of this view.
    View(u64),
    /// Those started since a checkpoint.
    Since(u64),
}

/// Whether a task ends.
pub open spec fn ends(ending: Ending, task: Task) -> bool {
    match ending {
        Ending::Number(number) => task.number == number,
        Ending::Policy(policy) => task.policy == policy,
        Ending::Application(generation) => task.application == Some(generation),
        Ending::View(view) => task.view == Some(view),
        Ending::Since(checkpoint) => task.number >= checkpoint,
    }
}

/// The tasks that do not end.
pub open spec fn remaining(tasks: Seq<Task>, ending: Ending) -> Seq<Task>
    decreases tasks.len(),
{
    if tasks.len() == 0 {
        Seq::empty()
    } else {
        let before = remaining(tasks.drop_last(), ending);
        if ends(ending, tasks.last()) {
            before
        } else {
            before.push(tasks.last())
        }
    }
}

/// The state without the tasks that end.
pub open spec fn ended(m: TasksModel, ending: Ending) -> TasksModel {
    TasksModel { tasks: remaining(m.tasks, ending), ..m }
}

/// The state with one more task.
pub open spec fn started(
    m: TasksModel,
    policy: u64,
    application: Option<u64>,
    view: Option<u64>,
) -> TasksModel {
    TasksModel {
        tasks: m.tasks.push(Task { number: m.next, policy, application, view }),
        next: (m.next + 1) as u64,
    }
}

/// Whether every task has a number that was given out.
pub open spec fn numbered(m: TasksModel) -> bool {
    forall|i: int| 0 <= i < m.tasks.len() ==> (#[trigger] m.tasks[i]).number < m.next
}

impl Tasks {
    /// No tasks.
    pub fn new() -> (r: Self)
        ensures
            r@ == (TasksModel { tasks: Seq::empty(), next: 0 }),
    {
        Tasks { tasks: Vec::new(), next: 0 }
    }

    /// Starts a task; gives its number, or nothing where no number is left.
    pub fn start(&mut self, policy: u64, application: Option<u64>, view: Option<u64>) -> (r: Option<
        u64,
    >)
        ensures
            old(self)@.next < u64::MAX ==> r == Some(old(self)@.next) && final(self)@ == started(
                old(self)@,
                policy,
                application,
                view,
            ),
            old(self)@.next == u64::MAX ==> r is None && final(self)@ == old(self)@,
    {
        if self.next == u64::MAX {
            return None;
        }
        let number: u64 = self.next;
        self.tasks.push(Task { number, policy, application, view });
        self.next = number + 1;
        Some(number)
    }

    fn end(&mut self, ending: Ending)
        ensures
            final(self)@ == ended(old(self)@, ending),
    {
        let mut out: Vec<Task> = Vec::new();
        let mut i: usize = 0;
        let ghost all = self.tasks@;
        assert(all.take(0) =~= Seq::empty());
        while i < self.tasks.len()
            invariant
                i <= self.tasks@.len(),
                all == self.tasks@,
                out@ == remaining(all.take(i as int), ending),
            decreases self.tasks@.len() - i,
        {
            let task = self.tasks[i];
            assert(all.take(i + 1).drop_last() =~= all.take(i as int));
            assert(all.take(i + 1).last() == task);
            let gone = match ending {
                Ending::Number(number) => task.number == number,
                Ending::Policy(policy) => task.policy == policy,
                Ending::Application(generation) => task.application == Some(generation),
                Ending::View(view) => task.view == Some(view),
                Ending::Since(checkpoint) => task.number >= checkpoint,
            };
            if !gone {
                out.push(task);
            }
            i += 1;
        }
        assert(all.take(i as int) =~= all);
        self.tasks = out;
    }

    /// A task has finished.
    pub fn finish(&mut self, number: u64)
        ensures
            final(self)@ == ended(old(self)@, Ending::Number(number)),
    {
        self.end(Ending::Number(number));
    }

    /// An authority is withdrawn: what runs with it ends.
    pub fn cancel_policy_tasks(&mut self, policy: u64)
        ensures
            final(self)@ == ended(old(self)@, Ending::Policy(policy)),
    {
        self.end(Ending::Policy(policy));
    }

    /// An application is retired: its tasks end.
    pub fn cancel_application_tasks(&mut self, generation: u64)
        ensures
            final(self)@ == ended(old(self)@, Ending::Application(generation)),
    {
        self.end(Ending::Application(generation));
    }

    /// A view is released: its tasks end.
    pub fn cancel_view_tasks(&mut self, view: u64)
        ensures
            final(self)@ == ended(old(self)@, Ending::View(view)),
    {
        self.end(Ending::View(view));
    }

    /// A point to go back to.
    pub fn checkpoint_runtime_tasks(&self) -> (r: u64)
        ensures
            r == self@.next,
    {
        self.next
    }

    /// Ends what was started since a checkpoint.
    pub fn rollback_runtime_tasks(&mut self, checkpoint: u64)
        ensures
            final(self)@ == ended(old(self)@, Ending::Since(checkpoint)),
    {
        self.end(Ending::Since(checkpoint));
    }

    /// Ends everything.
    pub fn shutdown(&mut self)
        ensures
            final(self)@ == (TasksModel { tasks: Seq::empty(), ..old(self)@ }),
    {
        self.tasks = Vec::new();
    }

    /// How many tasks have not finished.
    pub fn task_count(&self) -> (r: usize)
        ensures
            r == self@.tasks.len(),
    {
        self.tasks.len()
    }
}

/// A task remains exactly if it was there and does not end.
pub proof fn lemma_remaining(tasks: Seq<Task>, ending: Ending, task: Task)
    ensures
        remaining(tasks, ending).contains(task) <==> tasks.contains(task) && !ends(ending, task),
    decreases tasks.len(),
{
    if tasks.len() > 0 {
        let front = tasks.drop_last();
        let before = remaining(front, ending);
        lemma_remaining(front, ending, task);
        assert(tasks =~= front.push(tasks.last()));
        assert(tasks.contains(task) <==> front.contains(task) || task == tasks.last()) by {
            if front.contains(task) {
                let k = choose|k: int| 0 <= k < front.len() && front[k] == task;
                assert(tasks[k] == task);
            }
            if task == tasks.last() {
                assert(tasks[tasks.len() - 1] == task);
            }
        }
        if !ends(ending, tasks.last()) {
            let after = before.push(tasks.last());
            assert(after.contains(task) <==> before.contains(task) || task == tasks.last()) by {
                if before.contains(task) {
                    let k = choose|k: int| 0 <= k < before.len() && before[k] == task;
                    assert(after[k] == task);
                }
                if task == tasks.last() {
                    assert(after[before.len() as int] == task);
                }
            }
        }
    }
}

/// What remains has numbers that were given out.
pub proof fn lemma_ended_numbered(m: TasksModel, ending: Ending)
    requires
        numbered(m),
    ensures
        numbered(ended(m, ending)),
{
    let after = ended(m, ending);
    assert forall|i: int| 0 <= i < after.tasks.len() implies (#[trigger] after.tasks[i]).number
        < after.next by {
        let task = after.tasks[i];
        assert(after.tasks.contains(task));
        lemma_remaining(m.tasks, ending, task);
        let k = choose|k: int| 0 <= k < m.tasks.len() && m.tasks[k] == task;
        assert(m.tasks[k].number < m.next);
    }
}

/// Once an application is retired, none of its tasks runs, and those of others do.
pub proof fn law_retirement_ends_the_tasks_of_one_application(
    m: TasksModel,
    generation: u64,
    task: Task,
)
    ensures
        ended(m, Ending::Application(generation)).tasks.contains(task) <==> m.tasks.contains(task)
            && task.application != Some(generation),
{
    lemma_remaining(m.tasks, Ending::Application(generation), task);
}

/// Once a view is released, none of its tasks runs, and those of others do.
pub proof fn law_release_ends_the_tasks_of_one_view(m: TasksModel, view: u64, task: Task)
    ensures
        ended(m, Ending::View(view)).tasks.contains(task) <==> m.tasks.contains(task) && task.view
            != Some(view),
{
    lemma_remaining(m.tasks, Ending::View(view), task);
}

/// What does not reach a checkpoint is not touched by going back to it.
pub proof fn lemma_none_since(tasks: Seq<Task>, checkpoint: u64)
    requires
        forall|i: int| 0 <= i < tasks.len() ==> (#[trigger] tasks[i]).number < checkpoint,
    ensures
        remaining(tasks, Ending::Since(checkpoint)) == tasks,
    decreases tasks.len(),
{
    if tasks.len() > 0 {
        let front = tasks.drop_last();
        assert forall|i: int| 0 <= i < front.len() implies (#[trigger] front[i]).number
            < checkpoint by {
            assert(front[i] == tasks[i]);
        }
        lemma_none_since(front, checkpoint);
        assert(tasks[tasks.len() - 1].number < checkpoint);
        assert(tasks =~= front.push(tasks.last()));
    } else {
        assert(remaining(tasks, Ending::Since(checkpoint)) =~= tasks);
    }
}

/// Going back to a checkpoint takes back every task started since, and no other.
pub proof fn law_tasks_go_back_to_a_checkpoint(m: TasksModel, later: Seq<Task>)
    requires
        numbered(m),
        forall|i: int| 0 <= i < later.len() ==> (#[trigger] later[i]).number >= m.next,
    ensures
        remaining(m.tasks + later, Ending::Since(m.next)) == m.tasks,
    decreases later.len(),
{
    if later.len() == 0 {
        assert(m.tasks + later =~= m.tasks);
        lemma_none_since(m.tasks, m.next);
    } else {
        let all = m.tasks + later;
        assert(all.drop_last() =~= m.tasks + later.drop_last());
        assert(all.last() == later[later.len() - 1]);
        assert forall|i: int| 0 <= i < later.drop_last().len() implies (
        #[trigger] later.drop_last()[i]).number >= m.next by {
            assert(later.drop_last()[i] == later[i]);
        }
        law_tasks_go_back_to_a_checkpoint(m, later.drop_last());
    }
}

/// An ending takes the tasks it names and no others: the one of a number, those of an authority,
/// those started from a checkpoint on. What was taken is not given out again.
pub proof fn law_an_ending_takes_what_it_names(
    m: TasksModel,
    number: u64,
    policy: u64,
    checkpoint: u64,
    task: Task,
)
    ensures
        ended(m, Ending::Number(number)).tasks.contains(task) <==> m.tasks.contains(task)
            && task.number != number,
        ended(m, Ending::Policy(policy)).tasks.contains(task) <==> m.tasks.contains(task)
            && task.policy != policy,
        ended(m, Ending::Since(checkpoint)).tasks.contains(task) <==> m.tasks.contains(task)
            && task.number < checkpoint,
        ended(m, Ending::Number(number)).next == m.next,
        ended(m, Ending::Policy(policy)).next == m.next,
        ended(m, Ending::Since(checkpoint)).next == m.next,
{
    lemma_remaining(m.tasks, Ending::Number(number), task);
    lemma_remaining(m.tasks, Ending::Policy(policy), task);
    lemma_remaining(m.tasks, Ending::Since(checkpoint), task);
}

/// A task that is started comes last, has a number that no task had before, and belongs to the
/// authority, application and view it was started for. All others go on.
pub proof fn law_a_task_is_started_for_its_owner(
    m: TasksModel,
    policy: u64,
    application: Option<u64>,
    view: Option<u64>,
)
    requires
        numbered(m),
        m.next < u64::MAX,
    ensures
        ({
            let after = started(m, policy, application, view);
            let task = after.tasks.last();
            &&& after.tasks.len() == m.tasks.len() + 1
            &&& after.tasks.drop_last() == m.tasks
            &&& task.policy == policy
            &&& task.application == application
            &&& task.view == view
            &&& forall|i: int|
                0 <= i < m.tasks.len() ==> (#[trigger] m.tasks[i]).number != task.number
            &&& numbered(after)
        }),
{
    let after = started(m, policy, application, view);
    assert(after.tasks.drop_last() =~= m.tasks);
    assert forall|i: int| 0 <= i < after.tasks.len() implies (#[trigger] after.tasks[i]).number
        < after.next by {
        if i < m.tasks.len() {
            assert(after.tasks[i] == m.tasks[i]);
        }
    }
}

} // verus!
