use champr::builds::FetchTask;
use champr::output::should_purge;
use champr::text::{contains_text, copy_strings, decimal_string, has_at, push_decimal, remove_all};
use champr::web::{ChampData, ItemBuild};
use champr::writer::{build_path, plan_writes, WriteJob};

fn doc_with_builds(n: usize) -> ChampData {
    let mut doc = ChampData::default();
    for i in 0..n {
        let mut build = ItemBuild::default();
        build.sortrank = i as u32;
        doc.item_builds.push(build);
    }
    doc
}

fn ahri_from_opgg() -> FetchTask {
    FetchTask { source: "op.gg".to_string(), champion: "Ahri".to_string() }
}

#[test]
fn decimal_of_small_and_large_numbers() {
    assert_eq!(decimal_string(0), "0");
    assert_eq!(decimal_string(7), "7");
    assert_eq!(decimal_string(10), "10");
    assert_eq!(decimal_string(109), "109");
    assert_eq!(decimal_string(1234567890), "1234567890");
    assert_eq!(decimal_string(usize::MAX), usize::MAX.to_string());
}

#[test]
fn decimal_is_appended() {
    let mut s = String::from("n=");
    push_decimal(&mut s, 42);
    push_decimal(&mut s, 0);
    assert_eq!(s, "n=420");
}

#[test]
fn path_of_an_item_build() {
    assert_eq!(build_path("/out", "Ahri", "op.gg", 0, 1), "/out/Ahri/op.gg-Ahri-0-1.json");
    assert_eq!(
        build_path("../.json", "MonkeyKing", "lolalytics-aram", 12, 305),
        "../.json/MonkeyKing/lolalytics-aram-MonkeyKing-12-305.json"
    );
    assert_eq!(build_path("", "", "", 0, 0), "//--0-0.json");
}

#[test]
fn paths_differ_with_the_indices() {
    let a = build_path("r", "Ahri", "op.gg", 1, 23);
    let b = build_path("r", "Ahri", "op.gg", 12, 3);
    assert_ne!(a, b);
}

#[test]
fn one_document_with_two_builds_gives_two_files() {
    let docs = vec![doc_with_builds(2)];
    let jobs = plan_writes("/root", &ahri_from_opgg(), &docs);
    assert_eq!(
        jobs,
        vec![
            WriteJob {
                path: "/root/Ahri/op.gg-Ahri-0-0.json".to_string(),
                doc_index: 0,
                build_index: 0,
            },
            WriteJob {
                path: "/root/Ahri/op.gg-Ahri-0-1.json".to_string(),
                doc_index: 0,
                build_index: 1,
            },
        ]
    );
}

#[test]
fn plan_goes_document_by_document() {
    let docs = vec![doc_with_builds(1), doc_with_builds(0), doc_with_builds(2)];
    let jobs = plan_writes("out", &ahri_from_opgg(), &docs);
    let slots: Vec<(usize, usize)> = jobs.iter().map(|j| (j.doc_index, j.build_index)).collect();
    assert_eq!(slots, vec![(0, 0), (2, 0), (2, 1)]);
    let paths: Vec<&str> = jobs.iter().map(|j| j.path.as_str()).collect();
    assert_eq!(
        paths,
        vec![
            "out/Ahri/op.gg-Ahri-0-0.json",
            "out/Ahri/op.gg-Ahri-2-0.json",
            "out/Ahri/op.gg-Ahri-2-1.json",
        ]
    );
}

#[test]
fn plan_without_documents_is_empty() {
    assert_eq!(plan_writes("out", &ahri_from_opgg(), &Vec::new()).len(), 0);
    assert_eq!(plan_writes("out", &ahri_from_opgg(), &vec![doc_with_builds(0)]).len(), 0);
}

#[test]
fn plan_is_the_same_on_a_second_run() {
    let docs = vec![doc_with_builds(3), doc_with_builds(2)];
    let first = plan_writes("out", &ahri_from_opgg(), &docs);
    let second = plan_writes("out", &ahri_from_opgg(), &docs);
    assert_eq!(first, second);
    assert_eq!(first.len(), 5);
}

#[test]
fn plan_paths_are_pairwise_distinct() {
    let docs = vec![doc_with_builds(12), doc_with_builds(11), doc_with_builds(3)];
    let jobs = plan_writes("out", &ahri_from_opgg(), &docs);
    assert_eq!(jobs.len(), 26);
    for a in 0..jobs.len() {
        for b in (a + 1)..jobs.len() {
            assert_ne!(jobs[a].path, jobs[b].path);
        }
    }
}

#[test]
fn purge_only_an_existing_directory_that_is_not_kept() {
    assert!(should_purge(true, false));
    assert!(!should_purge(true, true));
    assert!(!should_purge(false, false));
    assert!(!should_purge(false, true));
}

#[test]
fn occurrence_at_a_position() {
    assert!(has_at("--app-port=123", 0, "--app-port="));
    assert!(has_at("x--app-port=123", 1, "--app-port="));
    assert!(!has_at("x--app-port=123", 0, "--app-port="));
    assert!(!has_at("abc", 2, "cd"));
    assert!(!has_at("abc", 9, "a"));
    assert!(has_at("abc", 3, ""));
}

#[test]
fn removal_agrees_with_replace() {
    let cases = [
        ("--app-port=51234", "--app-port="),
        ("aaa", "aa"),
        ("abcabcab", "abc"),
        ("a\\b\\\\c", "\\"),
        ("héllo wörld", "ö"),
        ("", "x"),
        ("abc", ""),
        ("ababab", "abab"),
        ("xyz", "xyzz"),
    ];
    for (text, key) in cases {
        assert_eq!(remove_all(text, key), text.replace(key, ""));
    }
    assert_eq!(remove_all("--app-port=51234", "--app-port="), "51234");
}

#[test]
fn text_holds_a_key() {
    assert!(contains_text("lolalytics", "lyt"));
    assert!(contains_text("lolalytics", ""));
    assert!(contains_text("", ""));
    assert!(contains_text("abc", "abc"));
    assert!(contains_text("abc", "c"));
    assert!(!contains_text("abc", "abcd"));
    assert!(!contains_text("abc", "ca"));
    assert!(!contains_text("", "a"));
}

#[test]
fn list_of_strings_is_copied() {
    let list = vec!["a".to_string(), String::new(), "bc".to_string()];
    assert_eq!(copy_strings(&list), list);
    assert!(copy_strings(&Vec::new()).is_empty());
}
