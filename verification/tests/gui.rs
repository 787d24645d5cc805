use champr::gui::{
    apply_result_handler, lcu_auth_handler, result_handler, App, Command, Message, Row,
    NO_FOLDER,
};
use champr::selection::{is_selected, position, SourceItem};
use champr::web::Source;

fn source(label: &str, value: &str) -> Source {
    Source { label: label.to_string(), value: value.to_string(), is_aram: None, is_urf: None }
}

fn item(name: &str, value: &str) -> SourceItem {
    SourceItem::new(name.to_string(), value.to_string())
}

fn strings(v: &[&str]) -> Vec<String> {
    v.iter().map(|s| s.to_string()).collect()
}

#[test]
fn item_keeps_its_name_and_value() {
    let it = SourceItem::new("OP.GG".to_string(), "op.gg".to_string());
    assert_eq!(it.name, "OP.GG");
    assert_eq!(it.value, "op.gg");
}

#[test]
fn position_of_the_first_occurrence() {
    let list = strings(&["a", "b", "a", "c"]);
    assert_eq!(position(&list, &"a".to_string()), Some(0));
    assert_eq!(position(&list, &"c".to_string()), Some(3));
    assert_eq!(position(&list, &"d".to_string()), None);
    assert!(is_selected(&list, &"b".to_string()));
    assert!(!is_selected(&list, &"".to_string()));
    assert!(!is_selected(&Vec::new(), &"a".to_string()));
}

#[test]
fn window_starts_with_two_placeholders() {
    let app = App::new();
    assert_eq!(app.items, vec![item("Source 1", "source-1"), item("Source 2", "source-2")]);
    assert!(app.selected.is_empty());
    assert_eq!(app.search, "");
    assert_eq!(app.lol_dir, "");
    assert!(!app.keep_old);
    assert_eq!(app.lcu_auth_url, "");
}

#[test]
fn ticking_a_source_selects_it() {
    let mut app = App::new();
    assert_eq!(app.update(Message::ToggleSource(true, "op.gg".to_string())), Command::Idle);
    assert_eq!(app.update(Message::ToggleSource(true, "u.gg".to_string())), Command::Idle);
    assert_eq!(app.selected, strings(&["op.gg", "u.gg"]));
}

#[test]
fn clearing_a_source_takes_its_first_entry_out() {
    let mut app = App::new();
    app.selected = strings(&["a", "b", "a", "c"]);
    assert_eq!(app.update(Message::ToggleSource(false, "a".to_string())), Command::Idle);
    assert_eq!(app.selected, strings(&["b", "a", "c"]));
    app.update(Message::ToggleSource(false, "c".to_string()));
    assert_eq!(app.selected, strings(&["b", "a"]));
}

#[test]
fn filter_text_is_kept() {
    let mut app = App::new();
    assert_eq!(app.update(Message::OnInput("op".to_string())), Command::Idle);
    assert_eq!(app.search, "op");
}

#[test]
fn run_needs_a_selection_and_a_folder() {
    let mut app = App::new();
    assert_eq!(app.update(Message::OnClick), Command::Idle);
    app.update(Message::ToggleSource(true, "op.gg".to_string()));
    assert_eq!(app.update(Message::OnClick), Command::Idle);
    app.select_dir(Some("C:/Riot Games/League of Legends".to_string()));
    app.update(Message::ToggleKeepOld(true));
    assert_eq!(
        app.update(Message::OnClick),
        Command::ApplyBuilds {
            sources: strings(&["op.gg"]),
            dir: "C:/Riot Games/League of Legends".to_string(),
            keep_old: true,
        }
    );
    app.update(Message::ToggleSource(false, "op.gg".to_string()));
    assert_eq!(app.update(Message::OnClick), Command::Idle);
}

#[test]
fn source_list_replaces_the_items() {
    let mut app = App::new();
    let list = vec![source("OP.GG", "op.gg"), source("U.GG", "u.gg"), source("ARAM", "op.gg-aram")];
    assert_eq!(app.update(Message::OnFetchList(list)), Command::Idle);
    assert_eq!(
        app.items,
        vec![item("OP.GG", "op.gg"), item("U.GG", "u.gg"), item("ARAM", "op.gg-aram")]
    );
    app.update_list(vec![item("x", "y")]);
    assert_eq!(app.items, vec![item("x", "y")]);
}

#[test]
fn keep_old_follows_its_box() {
    let mut app = App::new();
    app.update(Message::ToggleKeepOld(true));
    assert!(app.keep_old);
    app.update(Message::ToggleKeepOld(false));
    assert!(!app.keep_old);
}

#[test]
fn folder_dialog_starts_at_the_present_folder() {
    let mut app = App::new();
    assert_eq!(app.update(Message::OnSelectDir), Command::SelectDir { start: String::new() });
    app.select_dir(Some("D:/lol".to_string()));
    assert_eq!(app.update(Message::OnSelectDir), Command::SelectDir { start: "D:/lol".to_string() });
}

#[test]
fn folder_is_kept_when_none_or_an_empty_one_is_chosen() {
    let mut app = App::new();
    app.select_dir(Some("D:/lol".to_string()));
    app.select_dir(None);
    assert_eq!(app.lol_dir, "D:/lol");
    app.select_dir(Some(String::new()));
    assert_eq!(app.lol_dir, "D:/lol");
    app.select_dir(Some("E:/lol".to_string()));
    assert_eq!(app.lol_dir, "E:/lol");
}

#[test]
fn tick_asks_for_the_local_client() {
    let mut app = App::new();
    assert_eq!(app.update(Message::Tick), Command::ParseAuth);
}

#[test]
fn address_of_the_client_is_taken_unless_empty() {
    let mut app = App::new();
    app.update(Message::OnGetLcuAuth("riot:1@127.0.0.1:a".to_string()));
    assert_eq!(app.lcu_auth_url, "riot:1@127.0.0.1:a");
    app.update(Message::OnGetLcuAuth(String::new()));
    assert_eq!(app.lcu_auth_url, "riot:1@127.0.0.1:a");
    app.update(Message::OnGetLcuAuth("riot:2@127.0.0.1:b".to_string()));
    assert_eq!(app.lcu_auth_url, "riot:2@127.0.0.1:b");
}

#[test]
fn reports_of_outcomes_change_nothing() {
    let mut app = App::new();
    app.update(Message::ToggleSource(true, "op.gg".to_string()));
    for m in [Message::OnReqFailed, Message::OnApplyBuildDone, Message::OnApplyBuildFailed] {
        assert_eq!(app.update(m), Command::Idle);
    }
    assert_eq!(app.selected, strings(&["op.gg"]));
    assert_eq!(app.items.len(), 2);
}

#[test]
fn handlers_turn_outcomes_into_messages() {
    let ok: Result<Vec<Source>, String> = Ok(vec![source("OP.GG", "op.gg")]);
    match result_handler(ok) {
        Message::OnFetchList(list) => {
            assert_eq!(list.len(), 1);
            assert_eq!(list[0].value, "op.gg");
        }
        other => panic!("{:?}", other),
    }
    let failed: Result<Vec<Source>, String> = Err("offline".to_string());
    assert!(matches!(result_handler(failed), Message::OnReqFailed));

    let done: Result<Vec<(bool, String, String)>, String> = Ok(Vec::new());
    assert!(matches!(apply_result_handler(done), Message::OnApplyBuildDone));
    let broken: Result<Vec<(bool, String, String)>, String> = Err("offline".to_string());
    assert!(matches!(apply_result_handler(broken), Message::OnApplyBuildFailed));

    let url: Result<String, String> = Ok("riot:1@127.0.0.1:a".to_string());
    match lcu_auth_handler(url) {
        Message::OnGetLcuAuth(s) => assert_eq!(s, "riot:1@127.0.0.1:a"),
        other => panic!("{:?}", other),
    }
    let none: Result<String, String> = Err("no client".to_string());
    assert!(matches!(lcu_auth_handler(none), Message::OnReqFailed));
}

#[test]
fn rows_are_the_items_that_hold_the_filter_text() {
    let mut app = App::new();
    app.update_list(vec![item("op.gg", "op.gg"), item("u.gg", "u.gg"), item("op.gg aram", "op.gg-aram")]);
    app.update(Message::ToggleSource(true, "op.gg-aram".to_string()));
    let all = app.visible_rows();
    assert_eq!(all.len(), 3);
    assert_eq!(
        all[2],
        Row { label: "op.gg aram".to_string(), value: "op.gg-aram".to_string(), checked: true }
    );
    assert!(!all[0].checked);
    app.update(Message::OnInput("op".to_string()));
    let some = app.visible_rows();
    assert_eq!(
        some,
        vec![
            Row { label: "op.gg".to_string(), value: "op.gg".to_string(), checked: false },
            Row { label: "op.gg aram".to_string(), value: "op.gg-aram".to_string(), checked: true },
        ]
    );
    app.update(Message::OnInput("OP".to_string()));
    assert!(app.visible_rows().is_empty());
}

#[test]
fn folder_label_asks_for_a_folder_while_none_is_chosen() {
    let mut app = App::new();
    assert_eq!(app.dir_label(), "Please select LoL folder.");
    assert_eq!(NO_FOLDER, "Please select LoL folder.");
    app.select_dir(Some("D:/lol".to_string()));
    assert_eq!(app.dir_label(), "D:/lol");
}
