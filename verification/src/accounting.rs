//! What the summary of a whole run holds, task by task.

use vstd::prelude::*;
use crate::builds::generate_spec;
use crate::records::records_spec;
use crate::writer::job_slots;

verus! {

/// What one task met: how many item builds each fetched document held,
/// and of each write that was attempted whether it succeeded.
pub struct TaskOutcome {
    pub counts: Seq<nat>,
    pub written: Seq<bool>,
}

impl TaskOutcome {
    /// One write was attempted for each item build.
    pub open spec fn consistent(self) -> bool {
        self.written.len() == job_slots(self.counts).len()
    }

    /// The fetch gave no document, or a write failed.
    pub open spec fn failing(self) -> bool {
        self.counts.len() == 0 || exists|w: int|
            0 <= w < self.written.len() && !#[trigger] self.written[w]
    }

    /// The fetch gave nothing, or one document with one item build.
    pub open spec fn single(self) -> bool {
        self.counts.len() == 0 || (self.counts.len() == 1 && self.counts[0] == 1)
    }
}

/// The records of a task that met `outcome`.
pub open spec fn records_of(task: (Seq<char>, Seq<char>), outcome: TaskOutcome) -> Seq<
    (bool, Seq<char>, Seq<char>),
> {
    records_spec(task.0, task.1, outcome.counts.len(), outcome.written)
}

/// The records of a run, task after task.
pub open spec fn run_records(tasks: Seq<(Seq<char>, Seq<char>)>, outcomes: Seq<TaskOutcome>) -> Seq<
    (bool, Seq<char>, Seq<char>),
>
    decreases tasks.len(),
{
    if tasks.len() == 0 {
        Seq::empty()
    } else {
        run_records(tasks.drop_last(), outcomes.drop_last()) + records_of(
            tasks.last(),
            outcomes.last(),
        )
    }
}

/// How many item builds documents with these counts hold in all.
pub open spec fn total_builds(counts: Seq<nat>) -> nat
    decreases counts.len(),
{
    if counts.len() == 0 {
        0
    } else {
        total_builds(counts.drop_last()) + counts.last()
    }
}

/// There is one position to write for each item build.
pub proof fn lemma_job_slots_len(counts: Seq<nat>)
    ensures
        job_slots(counts).len() == total_builds(counts),
    decreases counts.len(),
{
    if counts.len() > 0 {
        lemma_job_slots_len(counts.drop_last());
    }
}

/// A task leaves one record if its fetch gave nothing, and otherwise one
/// record for each item build of its documents.
pub proof fn lemma_records_per_task(task: (Seq<char>, Seq<char>), outcome: TaskOutcome)
    requires
        outcome.consistent(),
    ensures
        records_of(task, outcome).len() == (if outcome.counts.len() == 0 {
            1
        } else {
            total_builds(outcome.counts)
        }),
{
    lemma_job_slots_len(outcome.counts);
    if outcome.counts.len() == 0 {
        assert(job_slots(outcome.counts).len() == 0);
    }
}

/// Exact accounting: where every task's fetch gives nothing, or one
/// document with one item build, the run leaves one record for each task.
pub proof fn lemma_exact_accounting(tasks: Seq<(Seq<char>, Seq<char>)>, outcomes: Seq<TaskOutcome>)
    requires
        outcomes.len() == tasks.len(),
        forall|t: int| 0 <= t < tasks.len() ==> (#[trigger] outcomes[t]).consistent(),
        forall|t: int| 0 <= t < tasks.len() ==> (#[trigger] outcomes[t]).single(),
    ensures
        run_records(tasks, outcomes).len() == tasks.len(),
    decreases tasks.len(),
{
    if tasks.len() > 0 {
        lemma_exact_accounting(tasks.drop_last(), outcomes.drop_last());
        let last = outcomes.last();
        assert(last.consistent() && last.single());
        lemma_records_per_task(tasks.last(), last);
        if last.counts.len() == 1 {
            assert(last.counts.drop_last().len() == 0);
            assert(total_builds(last.counts.drop_last()) == 0);
            assert(last.counts.last() == 1);
        }
    }
}

/// Exact accounting over the tasks of a run: where every fetch gives
/// nothing, or one document with one item build, the run leaves as many
/// records as there are pairs of a source and a catalog key.
pub proof fn lemma_one_record_per_pair(
    sources: Seq<Seq<char>>,
    champions: Seq<Seq<char>>,
    outcomes: Seq<TaskOutcome>,
)
    requires
        outcomes.len() == sources.len() * champions.len(),
        forall|t: int| 0 <= t < outcomes.len() ==> (#[trigger] outcomes[t]).consistent(),
        forall|t: int| 0 <= t < outcomes.len() ==> (#[trigger] outcomes[t]).single(),
    ensures
        run_records(generate_spec(sources, champions), outcomes).len() == generate_spec(
            sources,
            champions,
        ).len(),
        run_records(generate_spec(sources, champions), outcomes).len() == sources.len()
            * champions.len(),
{
    lemma_exact_accounting(generate_spec(sources, champions), outcomes);
}

/// Every record of a run names a task of the run, and a failed record
/// names a task whose fetch gave nothing or one of whose writes failed:
/// the failure of one task leaves no mark on another.
pub proof fn lemma_failures_stay_with_their_task(
    tasks: Seq<(Seq<char>, Seq<char>)>,
    outcomes: Seq<TaskOutcome>,
    k: int,
)
    requires
        outcomes.len() == tasks.len(),
        0 <= k < run_records(tasks, outcomes).len(),
    ensures
        exists|t: int|
            0 <= t < tasks.len() && #[trigger] tasks[t] == (
                run_records(tasks, outcomes)[k].1,
                run_records(tasks, outcomes)[k].2,
            ) && (!run_records(tasks, outcomes)[k].0 ==> outcomes[t].failing()),
    decreases tasks.len(),
{
    let record = run_records(tasks, outcomes)[k];
    let earlier = run_records(tasks.drop_last(), outcomes.drop_last());
    if k < earlier.len() {
        lemma_failures_stay_with_their_task(tasks.drop_last(), outcomes.drop_last(), k);
        let t = choose|t: int|
            0 <= t < tasks.drop_last().len() && #[trigger] tasks.drop_last()[t] == (
                earlier[k].1,
                earlier[k].2,
            ) && (!earlier[k].0 ==> outcomes.drop_last()[t].failing());
        assert(tasks[t] == tasks.drop_last()[t]);
        assert(outcomes[t] == outcomes.drop_last()[t]);
    } else {
        let t = tasks.len() - 1;
        let outcome = outcomes.last();
        let own = records_of(tasks.last(), outcome);
        let m = k - earlier.len();
        assert(record == own[m]);
        assert(tasks[t] == (record.1, record.2));
        if !record.0 && outcome.counts.len() > 0 {
            assert(!outcome.written[m]);
        }
    }
}

/// A task whose fetch gave a document and whose writes all succeeded
/// leaves successful records only.
pub proof fn lemma_sound_task_has_no_failure(task: (Seq<char>, Seq<char>), outcome: TaskOutcome)
    requires
        !outcome.failing(),
    ensures
        forall|m: int|
            0 <= m < records_of(task, outcome).len() ==> (#[trigger] records_of(
                task,
                outcome,
            )[m]).0,
{
    assert forall|m: int| 0 <= m < records_of(task, outcome).len() implies (#[trigger] records_of(
        task,
        outcome,
    )[m]).0 by {
        assert(outcome.written[m]);
    }
}

} // verus!
