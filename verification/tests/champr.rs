use champr::champr::{ChampR, Config};

fn strings(v: &[&str]) -> Vec<String> {
    v.iter().map(|s| s.to_string()).collect()
}

#[test]
fn default_settings() {
    let config = Config::default();
    assert!(!config.dark_mode);
    assert!(config.sources.is_empty());
}

#[test]
fn list_starts_with_forty_nine_placeholders() {
    let champr = ChampR::new(Config::default());
    assert_eq!(champr.source_list.len(), 49);
    assert_eq!(champr.source_list[0].name, "source 1");
    assert_eq!(champr.source_list[0].value, "source-1");
    assert_eq!(champr.source_list[9].name, "source 10");
    assert_eq!(champr.source_list[48].name, "source 49");
    assert_eq!(champr.source_list[48].value, "source-49");
}

#[test]
fn sources_of_the_settings_are_ticked() {
    let config = Config { dark_mode: true, sources: strings(&["op.gg", "u.gg", "op.gg"]) };
    let champr = ChampR::new(config.clone());
    assert_eq!(champr.config, config);
    assert!(champr.is_checked(&"op.gg".to_string()));
    assert!(champr.is_checked(&"u.gg".to_string()));
    assert!(!champr.is_checked(&"lolalytics".to_string()));
    assert_eq!(champr.selected_sources.len(), 2);
}

#[test]
fn box_can_be_ticked_and_cleared() {
    let mut champr = ChampR::new(Config::default());
    champr.set_selected("op.gg".to_string(), true);
    champr.set_selected("u.gg".to_string(), true);
    champr.set_selected("op.gg".to_string(), false);
    assert!(!champr.is_checked(&"op.gg".to_string()));
    assert!(champr.is_checked(&"u.gg".to_string()));
    assert_eq!(
        champr.selected_sources,
        vec![("op.gg".to_string(), false), ("u.gg".to_string(), true)]
    );
}

#[test]
fn settings_to_keep_name_the_ticked_sources() {
    let mut champr = ChampR::new(Config { dark_mode: false, sources: strings(&["a", "b", "c"]) });
    champr.set_selected("b".to_string(), false);
    champr.set_selected("d".to_string(), true);
    champr.toggle_dark_mode();
    let saved = champr.config_to_save();
    assert_eq!(saved, Config { dark_mode: true, sources: strings(&["a", "c", "d"]) });
}

#[test]
fn look_is_switched_back_and_forth() {
    let mut champr = ChampR::new(Config::default());
    champr.toggle_dark_mode();
    assert!(champr.config.dark_mode);
    champr.toggle_dark_mode();
    assert!(!champr.config.dark_mode);
    assert!(champr.config_to_save().sources.is_empty());
}

#[test]
fn entries_that_name_a_value_twice_are_told() {
    let mut champr = ChampR::new(Config { dark_mode: false, sources: strings(&["a", "b"]) });
    assert!(champr.is_well_formed());
    champr.selected_sources.push(("a".to_string(), false));
    assert!(!champr.is_well_formed());
}
