use champr::builds::FetchTask;
use champr::records::{collect, task_records, RunResult, TaskRecord};

fn task(source: &str, champion: &str) -> FetchTask {
    FetchTask { source: source.to_string(), champion: champion.to_string() }
}

fn record(success: bool, source: &str, champion: &str) -> TaskRecord {
    TaskRecord { success, source: source.to_string(), champion: champion.to_string() }
}

#[test]
fn fetch_without_documents_leaves_one_failure() {
    let records = task_records(&task("op.gg", "Ahri"), 0, &Vec::new());
    assert_eq!(records, vec![record(false, "op.gg", "Ahri")]);
}

#[test]
fn two_writes_leave_two_records() {
    let records = task_records(&task("op.gg", "Ahri"), 1, &vec![true, true]);
    assert_eq!(records, vec![record(true, "op.gg", "Ahri"), record(true, "op.gg", "Ahri")]);
}

#[test]
fn failed_write_leaves_a_failed_record_in_its_place() {
    let records = task_records(&task("u.gg", "Zed"), 2, &vec![true, false, true]);
    assert_eq!(
        records,
        vec![record(true, "u.gg", "Zed"), record(false, "u.gg", "Zed"), record(true, "u.gg", "Zed")]
    );
}

#[test]
fn documents_without_builds_leave_no_record() {
    assert_eq!(task_records(&task("u.gg", "Zed"), 3, &Vec::new()).len(), 0);
}

#[test]
fn summary_starts_empty() {
    let result = RunResult::new();
    assert_eq!(result.len(), 0);
    assert_eq!(result.failure_count(), 0);
    assert_eq!(result.success_count(), 0);
}

#[test]
fn summary_tallies_failures_and_successes() {
    let mut result = RunResult::new();
    result.push(record(true, "op.gg", "Ahri"));
    result.push(record(false, "op.gg", "Zed"));
    result.push(record(true, "u.gg", "Ahri"));
    result.push(record(false, "u.gg", "Zed"));
    result.push(record(false, "u.gg", "Akali"));
    assert_eq!(result.len(), 5);
    assert_eq!(result.failure_count(), 3);
    assert_eq!(result.success_count(), 2);
}

#[test]
fn summary_keeps_every_record_in_order() {
    let all = vec![
        record(true, "op.gg", "Ahri"),
        record(false, "op.gg", "Zed"),
        record(true, "op.gg", "Ahri"),
    ];
    let result = collect(all.clone());
    assert_eq!(result.records(), &all);
    assert_eq!(result.failure_count(), 1);
    assert_eq!(result.into_records(), all);
}

#[test]
fn summary_extends_in_order() {
    let mut result = RunResult::new();
    result.extend(vec![record(true, "a", "1"), record(false, "a", "2")]);
    result.extend(Vec::new());
    result.extend(vec![record(false, "b", "1")]);
    assert_eq!(
        result.records(),
        &vec![record(true, "a", "1"), record(false, "a", "2"), record(false, "b", "1")]
    );
    assert_eq!(result.failure_count(), 2);
    assert_eq!(result.success_count(), 1);
}

#[test]
fn one_record_per_task_when_each_task_has_one_build_or_none() {
    let tasks = vec![task("op.gg", "Ahri"), task("op.gg", "Zed"), task("u.gg", "Ahri")];
    let mut result = RunResult::new();
    result.extend(task_records(&tasks[0], 1, &vec![true]));
    result.extend(task_records(&tasks[1], 0, &Vec::new()));
    result.extend(task_records(&tasks[2], 1, &vec![false]));
    assert_eq!(result.len(), tasks.len());
    assert_eq!(result.failure_count(), 2);
}

#[test]
fn failures_of_one_champion_stay_with_it() {
    let sources = ["op.gg", "u.gg"];
    let champions = ["Ahri", "Zed", "Akali"];
    let mut result = RunResult::new();
    for c in champions {
        for s in sources {
            let t = task(s, c);
            if c == "Ahri" {
                result.extend(task_records(&t, 0, &Vec::new()));
            } else {
                result.extend(task_records(&t, 1, &vec![true, true]));
            }
        }
    }
    assert_eq!(result.failure_count(), 2);
    assert_eq!(result.success_count(), 8);
    for r in result.records() {
        assert_eq!(r.success, r.champion != "Ahri");
    }
}

#[test]
fn failed_records_can_be_listed() {
    let result = collect(vec![
        record(true, "op.gg", "Ahri"),
        record(false, "op.gg", "Zed"),
        record(true, "u.gg", "Ahri"),
        record(false, "u.gg", "Akali"),
    ]);
    assert_eq!(result.failed(), vec![record(false, "op.gg", "Zed"), record(false, "u.gg", "Akali")]);
    assert_eq!(result.len(), 4);
    assert!(RunResult::new().failed().is_empty());
}
