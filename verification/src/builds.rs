//! Fetch tasks: one per pair of a selected source and a catalog entry.

use vstd::prelude::*;
use vstd::string::*;
use crate::text::views;
use crate::web::{ChampData, ChampListResp};

verus! {

/// The tag under which every source package publishes its current builds.
pub const LATEST_TAG: &'static str = "latest";

/// One unit of remote work: the builds of one champion from one source.
#[derive(Debug, Clone, PartialEq, Eq)]
pub struct FetchTask {
    pub source: String,
    pub champion: String,
}

impl View for FetchTask {
    type V = (Seq<char>, Seq<char>);

    open spec fn view(&self) -> (Seq<char>, Seq<char>) {
        (self.source@, self.champion@)
    }
}

/// The task list of a run: for every catalog key in turn, one task per
/// source in turn.
pub open spec fn generate_spec(sources: Seq<Seq<char>>, champions: Seq<Seq<char>>) -> Seq<
    (Seq<char>, Seq<char>),
> {
    Seq::new(
        sources.len() * champions.len(),
        |k: int| (sources[k % (sources.len() as int)], champions[k / (sources.len() as int)]),
    )
}

/// The views of a list of tasks.
pub open spec fn task_views(v: Seq<FetchTask>) -> Seq<(Seq<char>, Seq<char>)> {
    Seq::new(v.len(), |i: int| v[i]@)
}

/// Expands the selected sources and the catalog into the tasks of a run.
/// An empty selection or an empty catalog gives no task.
pub fn generate(sources: &Vec<String>, catalog: &ChampListResp) -> (tasks: Vec<FetchTask>)
    ensures
        tasks@.len() == sources@.len() * catalog.data@.len(),
        task_views(tasks@) == generate_spec(views(sources@), catalog.keys()),
{
    let mut tasks: Vec<FetchTask> = Vec::new();
    let n: usize = sources.len();
    let mut c: usize = 0;
    while c < catalog.data.len()
        invariant
            n == sources@.len(),
            c <= catalog.data@.len(),
            tasks@.len() == c * n,
            forall|k: int|
                0 <= k < tasks@.len() ==> (#[trigger] tasks@[k])@ == (
                    sources@[k % (n as int)]@,
                    catalog.data@[k / (n as int)].0@,
                ),
        decreases catalog.data@.len() - c,
    {
        let mut s: usize = 0;
        while s < n
            invariant
                n == sources@.len(),
                c < catalog.data@.len(),
                s <= n,
                tasks@.len() == c * n + s,
                forall|k: int|
                    0 <= k < tasks@.len() ==> (#[trigger] tasks@[k])@ == (
                        sources@[k % (n as int)]@,
                        catalog.data@[k / (n as int)].0@,
                    ),
            decreases n - s,
        {
            let task = FetchTask {
                source: sources[s].clone(),
                champion: catalog.data[c].0.clone(),
            };
            proof {
                lemma_cell(c as int, s as int, n as int);
            }
            tasks.push(task);
            s = s + 1;
        }
        proof {
            assert(c * n + n == (c + 1) * n) by (nonlinear_arith);
        }
        c = c + 1;
    }
    proof {
        let m = catalog.data@.len() as int;
        assert(c * n == sources@.len() * catalog.data@.len()) by (nonlinear_arith)
            requires
                c == catalog.data@.len(),
                n == sources@.len(),
        ;
        let want = generate_spec(views(sources@), catalog.keys());
        assert forall|k: int| 0 <= k < tasks@.len() implies #[trigger] task_views(tasks@)[k]
            == want[k] by {
            lemma_cell_of(k, n as int, m);
        }
        assert(task_views(tasks@) =~= generate_spec(views(sources@), catalog.keys()));
    }
    tasks
}

/// Every pair of a source and a catalog key has its task: the source at
/// position `s` and the key at position `c` meet in task `c * |sources| + s`.
pub proof fn lemma_every_pair_has_a_task(
    sources: Seq<Seq<char>>,
    champions: Seq<Seq<char>>,
    s: int,
    c: int,
)
    requires
        0 <= s < sources.len(),
        0 <= c < champions.len(),
    ensures
        0 <= c * sources.len() + s < generate_spec(sources, champions).len(),
        generate_spec(sources, champions)[c * sources.len() + s] == (sources[s], champions[c]),
{
    let n = sources.len() as int;
    let m = champions.len() as int;
    lemma_cell(c, s, n);
    assert(c * n + s < n * m) by (nonlinear_arith)
        requires
            0 <= s < n,
            0 <= c < m,
    ;
    assert(0 <= c * n + s) by (nonlinear_arith)
        requires
            0 <= s,
            0 <= c,
            0 <= n,
    ;
}

/// With no source and no catalog key named twice, no task occurs twice.
pub proof fn lemma_tasks_distinct(
    sources: Seq<Seq<char>>,
    champions: Seq<Seq<char>>,
    a: int,
    b: int,
)
    requires
        forall|i: int, j: int| 0 <= i < j < sources.len() ==> sources[i] != sources[j],
        forall|i: int, j: int| 0 <= i < j < champions.len() ==> champions[i] != champions[j],
        0 <= a < b < generate_spec(sources, champions).len(),
    ensures
        generate_spec(sources, champions)[a] != generate_spec(sources, champions)[b],
{
    let n = sources.len() as int;
    let m = champions.len() as int;
    lemma_cell_of(a, n, m);
    lemma_cell_of(b, n, m);
    if a / n == b / n {
        assert(a % n < b % n);
    } else {
        assert(a / n < b / n) by (nonlinear_arith)
            requires
                a < b,
                a == (a / n) * n + a % n,
                b == (b / n) * n + b % n,
                0 <= a % n < n,
                0 <= b % n < n,
                a / n != b / n,
        ;
    }
}

/// The package in which a source publishes its builds: `@champ-r/{source}`.
pub open spec fn npm_package_spec(source: Seq<char>) -> Seq<char> {
    "@champ-r/"@ + source
}

/// The name of the package in which a source publishes its builds.
pub fn npm_package(source: &str) -> (name: String)
    ensures
        name@ == npm_package_spec(source@),
{
    let mut name = String::from_str("@champ-r/");
    name.append(source);
    name
}

/// The documents that a fetch yielded. A payload that is not a list of
/// documents, and a fetch that failed, both count as no document.
pub fn documents_of<E>(response: Result<Option<Vec<ChampData>>, E>) -> (docs: Vec<ChampData>)
    ensures
        response matches Ok(Some(found)) ==> docs == found,
        !(response matches Ok(Some(_))) ==> docs@.len() == 0,
{
    match response {
        Ok(Some(found)) => found,
        _ => Vec::new(),
    }
}

/// Row `c`, column `s` of a table with `n` columns is cell `c * n + s`.
pub proof fn lemma_cell(c: int, s: int, n: int)
    requires
        0 <= c,
        0 <= s < n,
    ensures
        (c * n + s) / n == c,
        (c * n + s) % n == s,
{
    vstd::arithmetic::div_mod::lemma_fundamental_div_mod_converse(c * n + s, n, c, s);
}

/// Cell `k` of a table with `n` columns and `m` rows lies in a row and a
/// column of the table.
pub proof fn lemma_cell_of(k: int, n: int, m: int)
    requires
        0 <= k < n * m,
        0 <= m,
        0 <= n,
    ensures
        0 < n,
        0 <= k / n < m,
        0 <= k % n < n,
        k == (k / n) * n + k % n,
{
    assert(0 < n) by (nonlinear_arith)
        requires
            0 <= k < n * m,
            0 <= n,
    ;
    vstd::arithmetic::div_mod::lemma_fundamental_div_mod(k, n);
    vstd::arithmetic::div_mod::lemma_mod_bound(k, n);
    let q = k / n;
    assert(k == n * q + k % n);
    assert(q >= 0 && q < m) by (nonlinear_arith)
        requires
            k == n * q + k % n,
            0 <= k % n < n,
            0 <= k < n * m,
            0 < n,
    ;
    assert(n * q == q * n) by (nonlinear_arith);
}

} // verus!
