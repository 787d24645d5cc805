//! Where each item build of a fetched document is written.

use vstd::prelude::*;
use vstd::string::*;
use crate::builds::FetchTask;
use crate::text::{
    decimal, free_of, lemma_cancel_prefix, lemma_cancel_suffix, lemma_decimal_free_of,
    lemma_decimal_injective, lemma_split_at_first, lemma_split_at_last, push_decimal,
};
use crate::web::ChampData;

verus! {

/// The file of one item build:
/// `{root}/{champion}/{source}-{champion}-{doc_index}-{build_index}.json`.
pub open spec fn build_file_path(
    root: Seq<char>,
    champion: Seq<char>,
    source: Seq<char>,
    doc_index: nat,
    build_index: nat,
) -> Seq<char> {
    root + seq!['/'] + champion + seq!['/'] + source + seq!['-'] + champion + seq!['-'] + decimal(
        doc_index,
    ) + seq!['-'] + decimal(build_index) + seq!['.', 'j', 's', 'o', 'n']
}

/// Computes the file of one item build.
pub fn build_path(
    root: &str,
    champion: &str,
    source: &str,
    doc_index: usize,
    build_index: usize,
) -> (path: String)
    ensures
        path@ == build_file_path(root@, champion@, source@, doc_index as nat, build_index as nat),
{
    proof {
        reveal_strlit("/");
        reveal_strlit("-");
        reveal_strlit(".json");
    }
    let mut path = String::from_str(root);
    path.append("/");
    path.append(champion);
    path.append("/");
    path.append(source);
    path.append("-");
    path.append(champion);
    path.append("-");
    push_decimal(&mut path, doc_index);
    path.append("-");
    push_decimal(&mut path, build_index);
    path.append(".json");
    proof {
        assert("/"@ =~= seq!['/']);
        assert("-"@ =~= seq!['-']);
        assert(".json"@ =~= seq!['.', 'j', 's', 'o', 'n']);
    }
    path
}

/// No two units of work share a file: under one root, and with champion
/// keys that hold no `/`, the path tells the champion, the source and both
/// indices.
pub proof fn lemma_paths_unique(
    root: Seq<char>,
    champion1: Seq<char>,
    source1: Seq<char>,
    doc1: nat,
    build1: nat,
    champion2: Seq<char>,
    source2: Seq<char>,
    doc2: nat,
    build2: nat,
)
    requires
        free_of(champion1, '/'),
        free_of(champion2, '/'),
        build_file_path(root, champion1, source1, doc1, build1) == build_file_path(
            root,
            champion2,
            source2,
            doc2,
            build2,
        ),
    ensures
        champion1 == champion2,
        source1 == source2,
        doc1 == doc2,
        build1 == build2,
{
    let json = seq!['.', 'j', 's', 'o', 'n'];
    let dash = seq!['-'];
    let slash = seq!['/'];
    let z1 = source1 + dash + champion1;
    let z2 = source2 + dash + champion2;
    let y1 = z1 + dash + decimal(doc1);
    let y2 = z2 + dash + decimal(doc2);
    let x1 = y1 + dash + decimal(build1);
    let x2 = y2 + dash + decimal(build2);
    let r1 = x1 + json;
    let r2 = x2 + json;
    let path1 = build_file_path(root, champion1, source1, doc1, build1);
    let path2 = build_file_path(root, champion2, source2, doc2, build2);
    assert(path1 =~= (root + slash) + (champion1 + slash + r1));
    assert(path2 =~= (root + slash) + (champion2 + slash + r2));
    lemma_cancel_prefix(root + slash, champion1 + slash + r1, champion2 + slash + r2);
    lemma_split_at_first('/', champion1, r1, champion2, r2);
    lemma_cancel_suffix(x1, x2, json);
    lemma_decimal_free_of(build1, '-');
    lemma_decimal_free_of(build2, '-');
    lemma_split_at_last('-', y1, decimal(build1), y2, decimal(build2));
    lemma_decimal_free_of(doc1, '-');
    lemma_decimal_free_of(doc2, '-');
    lemma_split_at_last('-', z1, decimal(doc1), z2, decimal(doc2));
    assert(z1 =~= source1 + (dash + champion1));
    assert(z2 =~= source2 + (dash + champion1));
    lemma_cancel_suffix(source1, source2, dash + champion1);
    lemma_decimal_injective(doc1, doc2);
    lemma_decimal_injective(build1, build2);
}

/// Within one task no two item builds share a file, whatever the names
/// of the champion and the source are.
pub proof fn lemma_paths_distinct(
    root: Seq<char>,
    champion: Seq<char>,
    source: Seq<char>,
    doc1: nat,
    build1: nat,
    doc2: nat,
    build2: nat,
)
    requires
        build_file_path(root, champion, source, doc1, build1) == build_file_path(
            root,
            champion,
            source,
            doc2,
            build2,
        ),
    ensures
        doc1 == doc2,
        build1 == build2,
{
    let json = seq!['.', 'j', 's', 'o', 'n'];
    let dash = seq!['-'];
    let head = root + seq!['/'] + champion + seq!['/'] + source + dash + champion;
    let y1 = head + dash + decimal(doc1);
    let y2 = head + dash + decimal(doc2);
    let x1 = y1 + dash + decimal(build1);
    let x2 = y2 + dash + decimal(build2);
    assert(build_file_path(root, champion, source, doc1, build1) =~= x1 + json);
    assert(build_file_path(root, champion, source, doc2, build2) =~= x2 + json);
    lemma_cancel_suffix(x1, x2, json);
    lemma_decimal_free_of(build1, '-');
    lemma_decimal_free_of(build2, '-');
    lemma_split_at_last('-', y1, decimal(build1), y2, decimal(build2));
    lemma_decimal_free_of(doc1, '-');
    lemma_decimal_free_of(doc2, '-');
    lemma_split_at_last('-', head, decimal(doc1), head, decimal(doc2));
    lemma_decimal_injective(doc1, doc2);
    lemma_decimal_injective(build1, build2);
}

/// One file to write: the item build `build_index` of document
/// `doc_index`, and the path it goes to.
#[derive(Debug, Clone, PartialEq, Eq)]
pub struct WriteJob {
    pub path: String,
    pub doc_index: usize,
    pub build_index: usize,
}

impl View for WriteJob {
    type V = (Seq<char>, nat, nat);

    open spec fn view(&self) -> (Seq<char>, nat, nat) {
        (self.path@, self.doc_index as nat, self.build_index as nat)
    }
}

/// The views of a list of jobs.
pub open spec fn job_views(v: Seq<WriteJob>) -> Seq<(Seq<char>, nat, nat)> {
    Seq::new(v.len(), |i: int| v[i]@)
}

/// The (document, item build) positions of documents that hold
/// `counts[0]`, `counts[1]`, ... item builds: document by document, and
/// within a document in the order of its item builds.
pub open spec fn job_slots(counts: Seq<nat>) -> Seq<(nat, nat)>
    decreases counts.len(),
{
    if counts.len() == 0 {
        Seq::empty()
    } else {
        job_slots(counts.drop_last()) + Seq::new(
            counts.last(),
            |j: int| ((counts.len() - 1) as nat, j as nat),
        )
    }
}

/// How many item builds each document holds.
pub open spec fn build_counts(docs: Seq<ChampData>) -> Seq<nat> {
    Seq::new(docs.len(), |i: int| docs[i].item_builds@.len())
}

/// The write jobs of one task: one per position of `job_slots`, each with
/// the path of that position.
pub open spec fn plan_spec(
    root: Seq<char>,
    source: Seq<char>,
    champion: Seq<char>,
    counts: Seq<nat>,
) -> Seq<(Seq<char>, nat, nat)> {
    Seq::new(
        job_slots(counts).len(),
        |k: int|
            (
                build_file_path(root, champion, source, job_slots(counts)[k].0, job_slots(counts)[k].1),
                job_slots(counts)[k].0,
                job_slots(counts)[k].1,
            ),
    )
}

/// A second run plans what the first one planned: documents that hold as
/// many item builds as before are written to the same files, under the
/// same root, for the same source and champion. What a file holds is
/// then a matter of the item build alone.
pub proof fn lemma_plan_repeats(
    root: Seq<char>,
    source: Seq<char>,
    champion: Seq<char>,
    first: Seq<ChampData>,
    second: Seq<ChampData>,
)
    requires
        first.len() == second.len(),
        forall|i: int|
            0 <= i < first.len() ==> (#[trigger] first[i]).item_builds@.len()
                == second[i].item_builds@.len(),
    ensures
        plan_spec(root, source, champion, build_counts(first)) == plan_spec(
            root,
            source,
            champion,
            build_counts(second),
        ),
{
    assert(build_counts(first) =~= build_counts(second));
}

/// The files that a plan names are pairwise different.
pub proof fn lemma_plan_paths_distinct(
    root: Seq<char>,
    source: Seq<char>,
    champion: Seq<char>,
    counts: Seq<nat>,
    a: int,
    b: int,
)
    requires
        0 <= a < b < plan_spec(root, source, champion, counts).len(),
    ensures
        plan_spec(root, source, champion, counts)[a].0 != plan_spec(
            root,
            source,
            champion,
            counts,
        )[b].0,
{
    lemma_slots_distinct(counts, a, b);
    let slots = job_slots(counts);
    if plan_spec(root, source, champion, counts)[a].0 == plan_spec(
        root,
        source,
        champion,
        counts,
    )[b].0 {
        lemma_paths_distinct(root, champion, source, slots[a].0, slots[a].1, slots[b].0, slots[b].1);
    }
}

/// No position occurs twice among the positions to write, and each is
/// an item build of a document.
pub proof fn lemma_slots_distinct(counts: Seq<nat>, a: int, b: int)
    requires
        0 <= a < b < job_slots(counts).len(),
    ensures
        job_slots(counts)[a] != job_slots(counts)[b],
        job_slots(counts)[a].0 < counts.len(),
        job_slots(counts)[b].0 < counts.len(),
        job_slots(counts)[a].1 < counts[job_slots(counts)[a].0 as int],
        job_slots(counts)[b].1 < counts[job_slots(counts)[b].0 as int],
    decreases counts.len(),
{
    let earlier = job_slots(counts.drop_last());
    if b < earlier.len() {
        lemma_slots_distinct(counts.drop_last(), a, b);
    } else if a < earlier.len() {
        lemma_slot_bounds(counts.drop_last(), a);
    } else {
    }
}

/// Each position to write is an item build of a document.
pub proof fn lemma_slot_bounds(counts: Seq<nat>, k: int)
    requires
        0 <= k < job_slots(counts).len(),
    ensures
        job_slots(counts)[k].0 < counts.len(),
        job_slots(counts)[k].1 < counts[job_slots(counts)[k].0 as int],
    decreases counts.len(),
{
    let earlier = job_slots(counts.drop_last());
    if k < earlier.len() {
        lemma_slot_bounds(counts.drop_last(), k);
    }
}

/// Lists the files to write for the documents that a task fetched.
pub fn plan_writes(root: &str, task: &FetchTask, docs: &Vec<ChampData>) -> (jobs: Vec<WriteJob>)
    ensures
        job_views(jobs@) == plan_spec(root@, task.source@, task.champion@, build_counts(docs@)),
        forall|k: int|
            0 <= k < jobs@.len() ==> (#[trigger] jobs@[k]).doc_index < docs@.len()
                && jobs@[k].build_index < docs@[jobs@[k].doc_index as int].item_builds@.len(),
{
    let ghost counts = build_counts(docs@);
    let mut jobs: Vec<WriteJob> = Vec::new();
    let mut i: usize = 0;
    assert(counts.take(0) =~= Seq::<nat>::empty());
    while i < docs.len()
        invariant
            i <= docs@.len(),
            counts == build_counts(docs@),
            job_views(jobs@) == plan_spec(
                root@,
                task.source@,
                task.champion@,
                counts.take(i as int),
            ),
        decreases docs@.len() - i,
    {
        let ghost before = job_slots(counts.take(i as int));
        proof {
            let planned = plan_spec(root@, task.source@, task.champion@, counts.take(i as int));
            assert(jobs@.len() == job_views(jobs@).len());
            assert forall|k: int| 0 <= k < before.len() implies (#[trigger] jobs@[k])@
                == planned[k] by {
                assert(job_views(jobs@)[k] == jobs@[k]@);
            }
        }
        let mut j: usize = 0;
        while j < docs[i].item_builds.len()
            invariant
                i < docs@.len(),
                counts == build_counts(docs@),
                before == job_slots(counts.take(i as int)),
                j <= docs@[i as int].item_builds@.len(),
                jobs@.len() == before.len() + j,
                forall|k: int|
                    0 <= k < before.len() ==> (#[trigger] jobs@[k])@ == (
                        build_file_path(
                            root@,
                            task.champion@,
                            task.source@,
                            before[k].0,
                            before[k].1,
                        ),
                        before[k].0,
                        before[k].1,
                    ),
                forall|k: int|
                    before.len() <= k < jobs@.len() ==> (#[trigger] jobs@[k])@ == (
                        build_file_path(
                            root@,
                            task.champion@,
                            task.source@,
                            i as nat,
                            (k - before.len()) as nat,
                        ),
                        i as nat,
                        (k - before.len()) as nat,
                    ),
            decreases docs@[i as int].item_builds@.len() - j,
        {
            let path = build_path(root, task.champion.as_str(), task.source.as_str(), i, j);
            jobs.push(WriteJob { path, doc_index: i, build_index: j });
            j = j + 1;
        }
        proof {
            let next = counts.take(i + 1);
            assert(next.drop_last() =~= counts.take(i as int));
            assert(next.last() == docs@[i as int].item_builds@.len());
            assert(job_views(jobs@) =~= plan_spec(root@, task.source@, task.champion@, next));
        }
        i = i + 1;
    }
    proof {
        assert(counts.take(i as int) =~= counts);
        assert forall|k: int| 0 <= k < jobs@.len() implies (#[trigger] jobs@[k]).doc_index
            < docs@.len() && jobs@[k].build_index < docs@[jobs@[k].doc_index as int].item_builds@.len() by {
            assert(job_views(jobs@)[k] == jobs@[k]@);
            lemma_slot_bounds(counts, k);
        }
    }
    jobs
}

} // verus!
