//! Task records and the summary of a run.

use vstd::prelude::*;
use vstd::string::*;
use crate::builds::FetchTask;

verus! {

/// What became of one unit of work: a file write that was attempted, or
/// a fetch that yielded nothing.
#[derive(Debug, Clone, PartialEq, Eq)]
pub struct TaskRecord {
    pub success: bool,
    pub source: String,
    pub champion: String,
}

impl View for TaskRecord {
    type V = (bool, Seq<char>, Seq<char>);

    open spec fn view(&self) -> (bool, Seq<char>, Seq<char>) {
        (self.success, self.source@, self.champion@)
    }
}

/// The views of a list of records.
pub open spec fn record_views(v: Seq<TaskRecord>) -> Seq<(bool, Seq<char>, Seq<char>)> {
    Seq::new(v.len(), |i: int| v[i]@)
}

/// The records of one task: a single failure if the fetch gave no
/// document at all; otherwise one record per attempted write, in the
/// order of the writes, successful exactly where the write was.
pub open spec fn records_spec(
    source: Seq<char>,
    champion: Seq<char>,
    doc_count: nat,
    written: Seq<bool>,
) -> Seq<(bool, Seq<char>, Seq<char>)> {
    let writes = Seq::new(written.len(), |k: int| (written[k], source, champion));
    if doc_count == 0 {
        seq![(false, source, champion)] + writes
    } else {
        writes
    }
}

/// Turns the outcome of one task into its records. `doc_count` is the
/// number of documents that the fetch gave, `written` says of each
/// attempted write whether it succeeded.
pub fn task_records(task: &FetchTask, doc_count: usize, written: &Vec<bool>) -> (records: Vec<
    TaskRecord,
>)
    ensures
        record_views(records@) == records_spec(
            task.source@,
            task.champion@,
            doc_count as nat,
            written@,
        ),
{
    let mut records: Vec<TaskRecord> = Vec::new();
    if doc_count == 0 {
        records.push(
            TaskRecord {
                success: false,
                source: task.source.clone(),
                champion: task.champion.clone(),
            },
        );
    }
    let ghost lead = records@.len();
    let mut k: usize = 0;
    while k < written.len()
        invariant
            k <= written@.len(),
            lead == (if doc_count == 0 { 1nat } else { 0nat }),
            records@.len() == lead + k,
            doc_count == 0 ==> records@[0]@ == (false, task.source@, task.champion@),
            forall|m: int|
                lead <= m < records@.len() ==> (#[trigger] records@[m])@ == (
                    written@[m - lead],
                    task.source@,
                    task.champion@,
                ),
        decreases written@.len() - k,
    {
        records.push(
            TaskRecord {
                success: written[k],
                source: task.source.clone(),
                champion: task.champion.clone(),
            },
        );
        k = k + 1;
    }
    assert(record_views(records@) =~= records_spec(
        task.source@,
        task.champion@,
        doc_count as nat,
        written@,
    ));
    records
}

/// The failed records among `records`, in order.
pub open spec fn failures_of(records: Seq<(bool, Seq<char>, Seq<char>)>) -> Seq<
    (bool, Seq<char>, Seq<char>),
> {
    records.filter(|r: (bool, Seq<char>, Seq<char>)| !r.0)
}

/// The summary of a run: every record that was handed in, in the order
/// of arrival, with a tally of the failures.
pub struct RunResult {
    records: Vec<TaskRecord>,
    failures: usize,
}

impl View for RunResult {
    type V = Seq<(bool, Seq<char>, Seq<char>)>;

    closed spec fn view(&self) -> Seq<(bool, Seq<char>, Seq<char>)> {
        record_views(self.records@)
    }
}

impl RunResult {
    /// The tally agrees with the records.
    pub closed spec fn well_formed(&self) -> bool {
        self.failures == failures_of(self@).len()
    }

    /// A summary without records.
    pub fn new() -> (result: RunResult)
        ensures
            result.well_formed(),
            result@ == Seq::<(bool, Seq<char>, Seq<char>)>::empty(),
    {
        let result = RunResult { records: Vec::new(), failures: 0 };
        proof {
            assert(result@ =~= Seq::empty());
            reveal(Seq::filter);
        }
        result
    }

    /// Adds one record at the end.
    pub fn push(&mut self, record: TaskRecord)
        requires
            old(self).well_formed(),
        ensures
            final(self).well_formed(),
            final(self)@ == old(self)@.push(record@),
    {
        proof {
            let before = self@;
            let pred = |r: (bool, Seq<char>, Seq<char>)| !r.0;
            before.lemma_filter_len(pred);
            before.lemma_filter_push(record@, pred);
            assert(record_views(self.records@.push(record)) =~= before.push(record@));
        }
        let failed = !record.success;
        self.records.push(record);
        // The new length fits a usize, so the tally, which is no larger, does too.
        let count: usize = self.records.len();
        if failed {
            assert(self.failures < count);
            self.failures = self.failures + 1;
        }
    }

    /// Adds the records of one task at the end, in their order.
    pub fn extend(&mut self, records: Vec<TaskRecord>)
        requires
            old(self).well_formed(),
        ensures
            final(self).well_formed(),
            final(self)@ == old(self)@ + record_views(records@),
    {
        let mut records = records;
        let ghost all = records@;
        let ghost start = self@;
        let mut taken: Vec<TaskRecord> = Vec::new();
        let n: usize = records.len();
        // Records are moved out from the back and put in again in order.
        while records.len() > 0
            invariant
                records@.len() + taken@.len() == n,
                n == all.len(),
                forall|i: int| 0 <= i < records@.len() ==> records@[i] == all[i],
                forall|i: int|
                    0 <= i < taken@.len() ==> #[trigger] taken@[i] == all[n - 1 - i],
            decreases records@.len(),
        {
            let r = records.pop().unwrap();
            taken.push(r);
        }
        let mut done: usize = 0;
        assert(start + record_views(all.take(0)) =~= start);
        while taken.len() > 0
            invariant
                self.well_formed(),
                done + taken@.len() == n,
                n == all.len(),
                forall|i: int|
                    0 <= i < taken@.len() ==> #[trigger] taken@[i] == all[n - 1 - i],
                self@ == start + record_views(all.take(done as int)),
            decreases taken@.len(),
        {
            let r = taken.pop().unwrap();
            proof {
                assert(r == all[done as int]);
                assert(record_views(all.take(done as int)).push(r@) =~= record_views(
                    all.take(done + 1),
                ));
                assert((start + record_views(all.take(done as int))).push(r@) =~= start
                    + record_views(all.take(done + 1)));
            }
            self.push(r);
            done = done + 1;
        }
        assert(all.take(n as int) =~= all);
    }

    /// How many records there are.
    pub fn len(&self) -> (n: usize)
        ensures
            n == self@.len(),
    {
        self.records.len()
    }

    /// How many records report a failure.
    pub fn failure_count(&self) -> (n: usize)
        requires
            self.well_formed(),
        ensures
            n == failures_of(self@).len(),
    {
        self.failures
    }

    /// How many records report a success.
    pub fn success_count(&self) -> (n: usize)
        requires
            self.well_formed(),
        ensures
            n == self@.len() - failures_of(self@).len(),
    {
        proof {
            self@.lemma_filter_len(|r: (bool, Seq<char>, Seq<char>)| !r.0);
        }
        self.records.len() - self.failures
    }

    /// The records that report a failure, in the order of arrival.
    pub fn failed(&self) -> (failed: Vec<TaskRecord>)
        ensures
            record_views(failed@) == failures_of(self@),
    {
        let ghost all = self@;
        let ghost pred = |r: (bool, Seq<char>, Seq<char>)| !r.0;
        let mut failed: Vec<TaskRecord> = Vec::new();
        let mut i: usize = 0;
        proof {
            assert(all.take(0) =~= Seq::<(bool, Seq<char>, Seq<char>)>::empty());
            reveal(Seq::filter);
            assert(record_views(failed@) =~= all.take(0).filter(pred));
        }
        while i < self.records.len()
            invariant
                i <= self.records@.len(),
                all == record_views(self.records@),
                pred == |r: (bool, Seq<char>, Seq<char>)| !r.0,
                record_views(failed@) == all.take(i as int).filter(pred),
            decreases self.records@.len() - i,
        {
            let r = &self.records[i];
            proof {
                assert(all.take(i + 1) =~= all.take(i as int).push(r@));
                all.take(i as int).lemma_filter_push(r@, pred);
            }
            if !r.success {
                let copy = TaskRecord {
                    success: r.success,
                    source: r.source.clone(),
                    champion: r.champion.clone(),
                };
                proof {
                    assert(record_views(failed@.push(copy)) =~= record_views(failed@).push(r@));
                }
                failed.push(copy);
            }
            i = i + 1;
        }
        assert(all.take(i as int) =~= all);
        failed
    }

    /// The records, in the order of arrival.
    pub fn records(&self) -> (records: &Vec<TaskRecord>)
        ensures
            record_views(records@) == self@,
    {
        &self.records
    }

    /// Gives the records up, in the order of arrival.
    pub fn into_records(self) -> (records: Vec<TaskRecord>)
        ensures
            record_views(records@) == self@,
    {
        self.records
    }
}

/// Gathers the records of a run into its summary: all of them, each once,
/// in the order given.
pub fn collect(records: Vec<TaskRecord>) -> (result: RunResult)
    ensures
        result.well_formed(),
        result@ == record_views(records@),
{
    let mut result = RunResult::new();
    result.extend(records);
    assert(Seq::<(bool, Seq<char>, Seq<char>)>::empty() + record_views(records@) =~= record_views(
        records@,
    ));
    result
}

} // verus!
