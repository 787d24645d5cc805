//! Admission of fetch tasks under a fixed ceiling on the number in flight.
//!
//! The scheduler decides; the caller performs. The caller asks `launch`
//! for tasks until it answers `None`, starts each task it was given,
//! and reports each task that has ended with `complete`.

use vstd::prelude::*;
use vstd::string::*;
use crate::builds::{task_views, FetchTask};

verus! {

/// The number of tasks that may be in flight at once.
pub const CONCURRENCY: usize = 10;

/// The state of a scheduler: the tasks of the run in the order of their
/// admission, how many have been admitted and how many of those have
/// ended, and the ceiling.
pub struct ExecutorView {
    pub tasks: Seq<(Seq<char>, Seq<char>)>,
    pub admitted: nat,
    pub completed: nat,
    pub ceiling: nat,
}

impl ExecutorView {
    /// How many tasks have been admitted and have not ended.
    pub open spec fn in_flight(self) -> int {
        self.admitted - self.completed
    }

    /// Only admitted tasks end, only tasks of the run are admitted, and
    /// no more than `ceiling` of them are in flight.
    pub open spec fn valid(self) -> bool {
        &&& self.completed <= self.admitted <= self.tasks.len()
        &&& self.in_flight() <= self.ceiling
    }

    /// A task is waiting and there is room for it.
    pub open spec fn can_launch(self) -> bool {
        self.admitted < self.tasks.len() && self.in_flight() < self.ceiling
    }

    /// The state after a request for admission.
    pub open spec fn launch(self) -> ExecutorView {
        if self.can_launch() {
            ExecutorView { admitted: self.admitted + 1, ..self }
        } else {
            self
        }
    }

    /// The state after the report that a task has ended.
    pub open spec fn complete(self) -> ExecutorView {
        if self.in_flight() > 0 {
            ExecutorView { completed: self.completed + 1, ..self }
        } else {
            self
        }
    }

    /// Every task of the run has been admitted and has ended.
    pub open spec fn done(self) -> bool {
        self.completed == self.tasks.len()
    }
}

/// What a caller may do to a scheduler.
pub enum Step {
    Launch,
    Complete,
}

/// The state after a series of requests and reports.
pub open spec fn after(start: ExecutorView, steps: Seq<Step>) -> ExecutorView
    decreases steps.len(),
{
    if steps.len() == 0 {
        start
    } else {
        let before = after(start, steps.drop_last());
        match steps.last() {
            Step::Launch => before.launch(),
            Step::Complete => before.complete(),
        }
    }
}

/// Whatever the caller requests and reports, in whatever order, the
/// number of tasks in flight never exceeds the ceiling, the tasks and the
/// ceiling stay what they were, and no task is admitted twice or skipped:
/// the admitted tasks are always the first `admitted` of the run.
pub proof fn lemma_never_above_ceiling(start: ExecutorView, steps: Seq<Step>)
    requires
        start.valid(),
    ensures
        after(start, steps).valid(),
        0 <= after(start, steps).in_flight() <= start.ceiling,
        after(start, steps).tasks == start.tasks,
        after(start, steps).ceiling == start.ceiling,
        after(start, steps).admitted >= start.admitted,
        after(start, steps).completed >= start.completed,
    decreases steps.len(),
{
    if steps.len() > 0 {
        lemma_never_above_ceiling(start, steps.drop_last());
    }
}

/// While a run is not done, the caller can always go on: either a task
/// is in flight, whose end can be reported, or a task can be admitted.
pub proof fn lemma_progress(state: ExecutorView)
    requires
        state.valid(),
        state.ceiling > 0,
        !state.done(),
    ensures
        state.in_flight() > 0 || state.can_launch(),
{
}

/// A scheduler for the tasks of one run.
pub struct Executor {
    queue: Vec<FetchTask>,
    admitted: usize,
    completed: usize,
    ceiling: usize,
}

impl View for Executor {
    type V = ExecutorView;

    closed spec fn view(&self) -> ExecutorView {
        ExecutorView {
            tasks: task_views(self.queue@),
            admitted: self.admitted as nat,
            completed: self.completed as nat,
            ceiling: self.ceiling as nat,
        }
    }
}

impl Executor {
    /// A scheduler that has admitted nothing yet.
    pub fn new(tasks: Vec<FetchTask>, ceiling: usize) -> (executor: Executor)
        ensures
            executor@.valid(),
            executor@ == (ExecutorView {
                tasks: task_views(tasks@),
                admitted: 0,
                completed: 0,
                ceiling: ceiling as nat,
            }),
    {
        Executor { queue: tasks, admitted: 0, completed: 0, ceiling }
    }

    /// Admits the next task of the run if there is room for it, and hands
    /// it out to be started. `None` means that nothing can be started
    /// now: no task is left, or the ceiling is reached.
    pub fn launch(&mut self) -> (task: Option<FetchTask>)
        requires
            old(self)@.valid(),
        ensures
            final(self)@.valid(),
            final(self)@ == old(self)@.launch(),
            task is Some == old(self)@.can_launch(),
            task matches Some(t) ==> t@ == old(self)@.tasks[old(self)@.admitted as int],
    {
        if self.admitted < self.queue.len() && self.admitted - self.completed < self.ceiling {
            let next = &self.queue[self.admitted];
            let task = FetchTask { source: next.source.clone(), champion: next.champion.clone() };
            self.admitted = self.admitted + 1;
            Some(task)
        } else {
            None
        }
    }

    /// Takes the report that a task in flight has ended. The answer is
    /// `false`, and nothing changes, if no task was in flight.
    pub fn complete(&mut self) -> (counted: bool)
        requires
            old(self)@.valid(),
        ensures
            final(self)@.valid(),
            final(self)@ == old(self)@.complete(),
            counted == (old(self)@.in_flight() > 0),
    {
        if self.admitted > self.completed {
            self.completed = self.completed + 1;
            true
        } else {
            false
        }
    }

    /// How many tasks are in flight.
    pub fn in_flight(&self) -> (n: usize)
        requires
            self@.valid(),
        ensures
            n == self@.in_flight(),
            n <= self@.ceiling,
    {
        self.admitted - self.completed
    }

    /// How many tasks have not been admitted yet.
    pub fn waiting(&self) -> (n: usize)
        requires
            self@.valid(),
        ensures
            n == self@.tasks.len() - self@.admitted,
    {
        self.queue.len() - self.admitted
    }

    /// Whether every task of the run has ended.
    pub fn is_done(&self) -> (done: bool)
        requires
            self@.valid(),
        ensures
            done == self@.done(),
    {
        self.completed == self.queue.len()
    }
}

} // verus!
