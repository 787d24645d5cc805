use champr::pipeline::{latest_version, step, Action, Event, FatalError, Stage};

fn versions(v: &[&str]) -> Vec<String> {
    v.iter().map(|s| s.to_string()).collect()
}

#[test]
fn first_version_is_the_latest() {
    assert_eq!(latest_version(&versions(&["12.1.1", "11.24.1"])), Ok("12.1.1".to_string()));
}

#[test]
fn empty_version_list_is_fatal() {
    assert_eq!(latest_version(&Vec::new()), Err(FatalError::VersionListEmpty));
}

#[test]
fn blank_first_version_is_fatal() {
    assert_eq!(latest_version(&versions(&["", "11.24.1"])), Err(FatalError::BlankVersion));
}

#[test]
fn run_goes_through_the_stages_in_order() {
    let (s, a) = step(Stage::Start, Event::OutputPrepared);
    assert_eq!(s, Stage::CatalogResolving { version_known: false });
    assert_eq!(a, Action::FetchVersions);
    let (s, a) = step(s, Event::Versions(versions(&["12.1.1", "11.24.1"])));
    assert_eq!(s, Stage::CatalogResolving { version_known: true });
    assert_eq!(a, Action::FetchCatalog("12.1.1".to_string()));
    let (s, a) = step(s, Event::CatalogLoaded);
    assert_eq!((s, a), (Stage::TaskGeneration, Action::GenerateTasks));
    let (s, a) = step(s, Event::TasksGenerated);
    assert_eq!((s, a), (Stage::Executing, Action::RunTasks));
    let (s, a) = step(s, Event::TasksCompleted);
    assert_eq!((s, a), (Stage::Collecting, Action::CollectRecords));
    let (s, a) = step(s, Event::RecordsCollected);
    assert_eq!((s, a), (Stage::Done, Action::Finish));
}

#[test]
fn empty_version_list_ends_the_run_before_any_fetch_of_builds() {
    let (s, _) = step(Stage::Start, Event::OutputPrepared);
    let (s, a) = step(s, Event::Versions(Vec::new()));
    assert_eq!(s, Stage::Failed(FatalError::VersionListEmpty));
    assert_eq!(a, Action::Abort(FatalError::VersionListEmpty));
    let later = [
        Event::CatalogLoaded,
        Event::TasksGenerated,
        Event::TasksCompleted,
        Event::RecordsCollected,
        Event::Versions(versions(&["12.1.1"])),
    ];
    let mut stage = s;
    for e in later {
        let (next, action) = step(stage, e);
        assert_eq!(next, Stage::Failed(FatalError::VersionListEmpty));
        assert_eq!(action, Action::Nothing);
        stage = next;
    }
}

#[test]
fn failed_fetches_of_the_prerequisites_are_fatal() {
    let waiting = Stage::CatalogResolving { version_known: false };
    assert_eq!(
        step(waiting, Event::VersionsFailed),
        (
            Stage::Failed(FatalError::VersionListUnavailable),
            Action::Abort(FatalError::VersionListUnavailable)
        )
    );
    assert_eq!(
        step(waiting, Event::Versions(versions(&[""]))),
        (Stage::Failed(FatalError::BlankVersion), Action::Abort(FatalError::BlankVersion))
    );
    let known = Stage::CatalogResolving { version_known: true };
    assert_eq!(
        step(known, Event::CatalogFailed),
        (
            Stage::Failed(FatalError::CatalogUnavailable),
            Action::Abort(FatalError::CatalogUnavailable)
        )
    );
}

#[test]
fn event_out_of_turn_changes_nothing() {
    assert_eq!(step(Stage::Start, Event::TasksCompleted), (Stage::Start, Action::Nothing));
    assert_eq!(step(Stage::Executing, Event::CatalogLoaded), (Stage::Executing, Action::Nothing));
    assert_eq!(
        step(Stage::CatalogResolving { version_known: false }, Event::CatalogLoaded),
        (Stage::CatalogResolving { version_known: false }, Action::Nothing)
    );
    assert_eq!(step(Stage::Done, Event::OutputPrepared), (Stage::Done, Action::Nothing));
}

#[test]
fn fatal_errors_say_what_failed() {
    assert_eq!(FatalError::VersionListUnavailable.message(), "fetch lol version list failed");
    assert_eq!(FatalError::VersionListEmpty.message(), "lol version list is empty");
    assert_eq!(FatalError::BlankVersion.message(), "fetch lol version failed");
    assert_eq!(FatalError::CatalogUnavailable.message(), "fetch champion list failed");
}
