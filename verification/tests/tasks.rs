use champr::builds::{documents_of, generate, npm_package, FetchTask, LATEST_TAG};
use champr::web::{ChampData, ChampInfo, ChampListResp, ItemBuild};

fn catalog_of(keys: &[&str]) -> ChampListResp {
    let mut catalog = ChampListResp::default();
    for k in keys {
        catalog.data.push((k.to_string(), ChampInfo::default()));
    }
    catalog
}

fn strings(v: &[&str]) -> Vec<String> {
    v.iter().map(|s| s.to_string()).collect()
}

fn task(source: &str, champion: &str) -> FetchTask {
    FetchTask { source: source.to_string(), champion: champion.to_string() }
}

#[test]
fn generate_gives_one_task_per_pair() {
    let sources = strings(&["op.gg", "op.gg-aram", "lolalytics", "lolalytics-aram"]);
    let catalog = catalog_of(&["Aatrox", "Ahri", "Akali"]);
    let tasks = generate(&sources, &catalog);
    assert_eq!(tasks.len(), 12);
    for c in ["Aatrox", "Ahri", "Akali"] {
        for s in ["op.gg", "op.gg-aram", "lolalytics", "lolalytics-aram"] {
            let n = tasks.iter().filter(|t| t.source == s && t.champion == c).count();
            assert_eq!(n, 1);
        }
    }
}

#[test]
fn generate_goes_champion_by_champion() {
    let sources = strings(&["op.gg", "u.gg"]);
    let catalog = catalog_of(&["Ahri", "Zed"]);
    let tasks = generate(&sources, &catalog);
    assert_eq!(
        tasks,
        vec![
            task("op.gg", "Ahri"),
            task("u.gg", "Ahri"),
            task("op.gg", "Zed"),
            task("u.gg", "Zed"),
        ]
    );
}

#[test]
fn generate_is_repeatable() {
    let sources = strings(&["op.gg", "u.gg", "murderbridge"]);
    let catalog = catalog_of(&["Ahri", "Zed"]);
    assert_eq!(generate(&sources, &catalog), generate(&sources, &catalog));
}

#[test]
fn generate_without_sources_gives_no_task() {
    let catalog = catalog_of(&["Ahri", "Zed"]);
    assert_eq!(generate(&Vec::new(), &catalog).len(), 0);
}

#[test]
fn generate_without_catalog_gives_no_task() {
    let sources = strings(&["op.gg"]);
    assert_eq!(generate(&sources, &ChampListResp::default()).len(), 0);
}

#[test]
fn catalog_keys_come_in_order() {
    let catalog = catalog_of(&["Zed", "Ahri", "Akali"]);
    assert_eq!(catalog.champion_keys(), strings(&["Zed", "Ahri", "Akali"]));
    assert!(catalog.has_distinct_keys());
}

#[test]
fn catalog_with_a_key_twice_is_told() {
    let catalog = catalog_of(&["Zed", "Ahri", "Zed"]);
    assert!(!catalog.has_distinct_keys());
    assert!(ChampListResp::default().has_distinct_keys());
}

#[test]
fn package_name_of_a_source() {
    assert_eq!(npm_package("op.gg"), "@champ-r/op.gg");
    assert_eq!(npm_package(""), "@champ-r/");
    assert_eq!(LATEST_TAG, "latest");
}

#[test]
fn documents_of_a_parsed_payload() {
    let mut doc = ChampData::default();
    doc.alias = "Ahri".to_string();
    doc.item_builds.push(ItemBuild::default());
    let found: Result<Option<Vec<ChampData>>, String> = Ok(Some(vec![doc.clone()]));
    assert_eq!(documents_of(found), vec![doc]);
}

#[test]
fn documents_of_an_unparsable_payload() {
    let found: Result<Option<Vec<ChampData>>, String> = Ok(None);
    assert_eq!(documents_of(found).len(), 0);
}

#[test]
fn documents_of_a_failed_fetch() {
    let found: Result<Option<Vec<ChampData>>, String> = Err("unreachable".to_string());
    assert_eq!(documents_of(found).len(), 0);
}
