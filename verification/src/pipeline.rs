//! The order of the stages of a run.
//!
//! A run is driven from outside: the driver performs the action it was
//! given and comes back with the event that tells how it went.

use vstd::prelude::*;
use vstd::string::*;
use crate::text::views;

verus! {

/// Why a run ended before any task was started.
#[derive(Debug, Clone, Copy, PartialEq, Eq, Structural)]
pub enum FatalError {
    /// The list of game versions could not be fetched.
    VersionListUnavailable,
    /// The list of game versions is empty.
    VersionListEmpty,
    /// The first entry of the list of game versions is the empty string.
    BlankVersion,
    /// The champion catalog could not be fetched.
    CatalogUnavailable,
}

impl FatalError {
    /// What the error says in words.
    pub open spec fn message_spec(self) -> Seq<char> {
        match self {
            FatalError::VersionListUnavailable => "fetch lol version list failed"@,
            FatalError::VersionListEmpty => "lol version list is empty"@,
            FatalError::BlankVersion => "fetch lol version failed"@,
            FatalError::CatalogUnavailable => "fetch champion list failed"@,
        }
    }

    /// What the error says in words.
    pub fn message(&self) -> (text: &'static str)
        ensures
            text@ == self.message_spec(),
    {
        match self {
            FatalError::VersionListUnavailable => "fetch lol version list failed",
            FatalError::VersionListEmpty => "lol version list is empty",
            FatalError::BlankVersion => "fetch lol version failed",
            FatalError::CatalogUnavailable => "fetch champion list failed",
        }
    }
}

/// Where a run stands.
#[derive(Debug, Clone, Copy, PartialEq, Eq, Structural)]
pub enum Stage {
    Start,
    /// The version list is being fetched, or, once the version is known,
    /// the catalog of that version.
    CatalogResolving { version_known: bool },
    TaskGeneration,
    Executing,
    Collecting,
    Done,
    Failed(FatalError),
}

/// What the driver reports.
#[derive(Debug, Clone, PartialEq, Eq)]
pub enum Event {
    /// The output area is ready.
    OutputPrepared,
    /// The list of game versions has arrived.
    Versions(Vec<String>),
    /// The list of game versions could not be fetched.
    VersionsFailed,
    /// The champion catalog has arrived.
    CatalogLoaded,
    /// The champion catalog could not be fetched.
    CatalogFailed,
    /// The tasks of the run have been generated.
    TasksGenerated,
    /// Every task has ended.
    TasksCompleted,
    /// Every record has been collected.
    RecordsCollected,
}

/// What the driver is to do next.
#[derive(Debug, Clone, PartialEq, Eq)]
pub enum Action {
    /// Nothing: the event does not belong to the stage, or the run has ended.
    Nothing,
    /// Fetch the list of game versions.
    FetchVersions,
    /// Fetch the champion catalog of this version.
    FetchCatalog(String),
    /// Generate the tasks.
    GenerateTasks,
    /// Run the tasks.
    RunTasks,
    /// Collect the records.
    CollectRecords,
    /// Hand the summary to the caller.
    Finish,
    /// Hand this error to the caller.
    Abort(FatalError),
}

/// The version to work with: the first of the list. An empty list and an
/// empty first entry are errors.
pub open spec fn latest_version_spec(versions: Seq<Seq<char>>) -> Result<Seq<char>, FatalError> {
    if versions.len() == 0 {
        Err(FatalError::VersionListEmpty)
    } else if versions[0].len() == 0 {
        Err(FatalError::BlankVersion)
    } else {
        Ok(versions[0])
    }
}

/// The view of a version or the error in its place.
pub open spec fn picked_view(picked: Result<String, FatalError>) -> Result<Seq<char>, FatalError> {
    match picked {
        Ok(v) => Ok(v@),
        Err(e) => Err(e),
    }
}

/// Picks the version to work with.
pub fn latest_version(versions: &Vec<String>) -> (picked: Result<String, FatalError>)
    ensures
        picked_view(picked) == latest_version_spec(views(versions@)),
{
    if versions.len() == 0 {
        Err(FatalError::VersionListEmpty)
    } else if versions[0].as_str().is_empty() {
        Err(FatalError::BlankVersion)
    } else {
        Ok(versions[0].clone())
    }
}

/// What an event looks like to the stage machine: its kind, and for a
/// version list what `latest_version_spec` makes of it.
pub enum EventView {
    OutputPrepared,
    Versions(Result<Seq<char>, FatalError>),
    VersionsFailed,
    CatalogLoaded,
    CatalogFailed,
    TasksGenerated,
    TasksCompleted,
    RecordsCollected,
}

/// What an action looks like: its kind, and the version to fetch the catalog of.
pub enum ActionView {
    Nothing,
    FetchVersions,
    FetchCatalog(Seq<char>),
    GenerateTasks,
    RunTasks,
    CollectRecords,
    Finish,
    Abort(FatalError),
}

impl View for Event {
    type V = EventView;

    open spec fn view(&self) -> EventView {
        match self {
            Event::OutputPrepared => EventView::OutputPrepared,
            Event::Versions(list) => EventView::Versions(
                latest_version_spec(views(list@)),
            ),
            Event::VersionsFailed => EventView::VersionsFailed,
            Event::CatalogLoaded => EventView::CatalogLoaded,
            Event::CatalogFailed => EventView::CatalogFailed,
            Event::TasksGenerated => EventView::TasksGenerated,
            Event::TasksCompleted => EventView::TasksCompleted,
            Event::RecordsCollected => EventView::RecordsCollected,
        }
    }
}

impl View for Action {
    type V = ActionView;

    open spec fn view(&self) -> ActionView {
        match self {
            Action::Nothing => ActionView::Nothing,
            Action::FetchVersions => ActionView::FetchVersions,
            Action::FetchCatalog(version) => ActionView::FetchCatalog(version@),
            Action::GenerateTasks => ActionView::GenerateTasks,
            Action::RunTasks => ActionView::RunTasks,
            Action::CollectRecords => ActionView::CollectRecords,
            Action::Finish => ActionView::Finish,
            Action::Abort(e) => ActionView::Abort(*e),
        }
    }
}

/// The stage that follows `stage` on `event`, and what is to be done.
/// An event that does not belong to the stage changes nothing.
pub open spec fn step_spec(stage: Stage, event: EventView) -> (Stage, ActionView) {
    match (stage, event) {
        (Stage::Start, EventView::OutputPrepared) => (
            Stage::CatalogResolving { version_known: false },
            ActionView::FetchVersions,
        ),
        (Stage::CatalogResolving { version_known: false }, EventView::Versions(Ok(version))) => (
            Stage::CatalogResolving { version_known: true },
            ActionView::FetchCatalog(version),
        ),
        (Stage::CatalogResolving { version_known: false }, EventView::Versions(Err(e))) => (
            Stage::Failed(e),
            ActionView::Abort(e),
        ),
        (Stage::CatalogResolving { version_known: false }, EventView::VersionsFailed) => (
            Stage::Failed(FatalError::VersionListUnavailable),
            ActionView::Abort(FatalError::VersionListUnavailable),
        ),
        (Stage::CatalogResolving { version_known: true }, EventView::CatalogLoaded) => (
            Stage::TaskGeneration,
            ActionView::GenerateTasks,
        ),
        (Stage::CatalogResolving { version_known: true }, EventView::CatalogFailed) => (
            Stage::Failed(FatalError::CatalogUnavailable),
            ActionView::Abort(FatalError::CatalogUnavailable),
        ),
        (Stage::TaskGeneration, EventView::TasksGenerated) => (
            Stage::Executing,
            ActionView::RunTasks,
        ),
        (Stage::Executing, EventView::TasksCompleted) => (
            Stage::Collecting,
            ActionView::CollectRecords,
        ),
        (Stage::Collecting, EventView::RecordsCollected) => (Stage::Done, ActionView::Finish),
        _ => (stage, ActionView::Nothing),
    }
}

/// Moves a run on by one event.
pub fn step(stage: Stage, event: Event) -> (next: (Stage, Action))
    ensures
        (next.0, next.1@) == step_spec(stage, event@),
{
    match (stage, event) {
        (Stage::Start, Event::OutputPrepared) => (
            Stage::CatalogResolving { version_known: false },
            Action::FetchVersions,
        ),
        (Stage::CatalogResolving { version_known: false }, Event::Versions(list)) => {
            match latest_version(&list) {
                Ok(version) => (
                    Stage::CatalogResolving { version_known: true },
                    Action::FetchCatalog(version),
                ),
                Err(e) => (Stage::Failed(e), Action::Abort(e)),
            }
        },
        (Stage::CatalogResolving { version_known: false }, Event::VersionsFailed) => (
            Stage::Failed(FatalError::VersionListUnavailable),
            Action::Abort(FatalError::VersionListUnavailable),
        ),
        (Stage::CatalogResolving { version_known: true }, Event::CatalogLoaded) => (
            Stage::TaskGeneration,
            Action::GenerateTasks,
        ),
        (Stage::CatalogResolving { version_known: true }, Event::CatalogFailed) => (
            Stage::Failed(FatalError::CatalogUnavailable),
            Action::Abort(FatalError::CatalogUnavailable),
        ),
        (Stage::TaskGeneration, Event::TasksGenerated) => (Stage::Executing, Action::RunTasks),
        (Stage::Executing, Event::TasksCompleted) => (Stage::Collecting, Action::CollectRecords),
        (Stage::Collecting, Event::RecordsCollected) => (Stage::Done, Action::Finish),
        (stage, _) => (stage, Action::Nothing),
    }
}

/// Whether a run has ended, in success or in failure.
pub open spec fn is_terminal(stage: Stage) -> bool {
    stage is Done || stage is Failed
}

/// Whether a stage comes after the tasks have been run.
pub open spec fn past_execution(stage: Stage) -> bool {
    stage is Collecting || stage is Done
}

/// Whether a stage is one in which tasks exist: they are being run, or have been.
pub open spec fn has_tasks(stage: Stage) -> bool {
    stage is Executing || stage is Collecting || stage is Done
}

/// The stage reached from `stage` by a series of events.
pub open spec fn stage_after(stage: Stage, events: Seq<EventView>) -> Stage
    decreases events.len(),
{
    if events.len() == 0 {
        stage
    } else {
        step_spec(stage_after(stage, events.drop_last()), events.last()).0
    }
}

/// A run that has ended stays as it is and asks for nothing more.
pub proof fn lemma_terminal_is_final(stage: Stage, event: EventView)
    requires
        is_terminal(stage),
    ensures
        step_spec(stage, event) == (stage, ActionView::Nothing),
{
}

/// Tasks are run on exactly one occasion: when the report that they were
/// generated arrives in the stage that generates them.
pub proof fn lemma_run_tasks_once(stage: Stage, event: EventView)
    ensures
        step_spec(stage, event).1 is RunTasks <==> stage is TaskGeneration
            && event is TasksGenerated,
{
}

/// A run that fails, fails in the stage that resolves the catalog: before
/// a task exists.
pub proof fn lemma_failure_precedes_tasks(stage: Stage, event: EventView)
    requires
        !(stage is Failed),
        step_spec(stage, event).0 is Failed,
    ensures
        stage is CatalogResolving,
        step_spec(stage, event).1 is Abort,
{
}

/// After a failure no series of events brings tasks into being.
pub proof fn lemma_failed_run_has_no_tasks(error: FatalError, events: Seq<EventView>)
    ensures
        stage_after(Stage::Failed(error), events) == Stage::Failed(error),
    decreases events.len(),
{
    if events.len() > 0 {
        lemma_failed_run_has_no_tasks(error, events.drop_last());
    }
}

/// A run started afresh is past the execution of its tasks only if the
/// completion of all tasks was reported; so it is done only then.
pub proof fn lemma_done_only_after_tasks(events: Seq<EventView>)
    requires
        past_execution(stage_after(Stage::Start, events)),
    ensures
        exists|i: int| 0 <= i < events.len() && events[i] is TasksCompleted,
    decreases events.len(),
{
    if events.len() > 0 {
        let earlier = events.drop_last();
        if past_execution(stage_after(Stage::Start, earlier)) {
            lemma_done_only_after_tasks(earlier);
            let i = choose|i: int| 0 <= i < earlier.len() && earlier[i] is TasksCompleted;
            assert(events[i] is TasksCompleted);
        } else {
            assert(events[events.len() - 1] is TasksCompleted);
        }
    }
}

/// Whether an event is a version list with a usable first entry.
pub open spec fn brings_version(event: EventView) -> bool {
    event matches EventView::Versions(Ok(_))
}

/// Whether a stage is one that is reached only with a version in hand.
pub open spec fn has_version(stage: Stage) -> bool {
    stage == (Stage::CatalogResolving { version_known: true }) || stage is TaskGeneration
        || has_tasks(stage)
}

/// The catalog is asked for on exactly one occasion: when a version list
/// with a usable first entry arrives while the version is awaited; and it
/// is the catalog of that entry.
pub proof fn lemma_catalog_needs_version(stage: Stage, event: EventView)
    ensures
        step_spec(stage, event).1 is FetchCatalog <==> stage == (Stage::CatalogResolving {
            version_known: false,
        }) && brings_version(event),
        step_spec(stage, event).1 matches ActionView::FetchCatalog(version) ==> event
            == EventView::Versions(Ok(version)),
{
}

/// A run started afresh has a version, and so a catalog and tasks, only
/// if a version list with a usable first entry arrived.
pub proof fn lemma_tasks_need_version(events: Seq<EventView>)
    requires
        has_version(stage_after(Stage::Start, events)),
    ensures
        exists|i: int| 0 <= i < events.len() && brings_version(#[trigger] events[i]),
    decreases events.len(),
{
    if events.len() > 0 {
        let earlier = events.drop_last();
        let before = stage_after(Stage::Start, earlier);
        if has_version(before) {
            lemma_tasks_need_version(earlier);
            let i = choose|i: int|
                0 <= i < earlier.len() && brings_version(#[trigger] earlier[i]);
            assert(brings_version(events[i]));
        } else {
            assert(brings_version(events[events.len() - 1]));
        }
    }
}

} // verus!
