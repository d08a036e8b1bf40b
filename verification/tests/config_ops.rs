use atomberg::config::model::{Config, Device, DeviceMap};
use atomberg::config::ops::{
    add_group_member, create_group, delete_group, find_device_id_by_alias, normalize_alias,
    normalize_device_id, normalize_group_name, remove_alias, remove_group_member, rename_alias,
    rename_group, resolve_device, set_alias, ConfigError, DeviceSelector,
};
use indexmap::IndexSet;

fn device(id: &str, alias: Option<&str>, ip: &str, groups: &[&str]) -> Device {
    Device {
        alias: alias.map(|a| a.to_string()),
        id: id.to_string(),
        ip: ip.to_string(),
        groups: groups.iter().map(|g| g.to_string()).collect(),
    }
}

fn config_with(devices: Vec<Device>) -> Config {
    let mut config = Config::default();
    for d in devices {
        config.devices.insert(d.id.clone(), d);
    }
    config
}

fn two_fans() -> Config {
    config_with(vec![
        device("AABBCCDDEEFF", Some("bedroom"), "192.168.1.10", &[]),
        device("112233445566", Some("kitchen"), "192.168.1.11", &[]),
    ])
}

fn alias_of(config: &Config, id: &str) -> Option<String> {
    config.devices.get(id).unwrap().alias.clone()
}

fn members(config: &Config, group: &str) -> Vec<String> {
    config.groups.get(group).unwrap().iter().cloned().collect()
}

fn group_names(config: &Config) -> Vec<String> {
    config.groups.keys().cloned().collect()
}

fn device_groups(config: &Config, id: &str) -> Vec<String> {
    config.devices.get(id).unwrap().groups.clone()
}

#[test]
fn default_config_has_documented_ports_and_nothing_else() {
    let config = Config::default();
    assert_eq!(config.network.becon_port, 5625);
    assert_eq!(config.network.command_port, 5600);
    assert_eq!(config.devices.len(), 0);
    assert!(config.groups.is_empty());
}

#[test]
fn device_map_insert_replaces_in_place() {
    let mut m = DeviceMap::new();
    m.insert("A".to_string(), device("A", None, "1", &[]));
    m.insert("B".to_string(), device("B", None, "2", &[]));
    m.insert("A".to_string(), device("A", None, "3", &[]));
    assert_eq!(m.len(), 2);
    assert_eq!(m.key_at(0), "A");
    assert_eq!(m.device_at(0).ip, "3");
    assert_eq!(m.position("B"), Some(1));
    assert_eq!(m.position("C"), None);
    assert!(m.contains_key("B"));
}

#[test]
fn normalizers_trim_and_refuse_empty() {
    assert_eq!(normalize_device_id("  aabbccddeeff "), "AABBCCDDEEFF");
    assert_eq!(normalize_alias("  bed room ").unwrap(), "bed room");
    assert!(matches!(normalize_alias("   "), Err(ConfigError::EmptyAlias)));
    assert_eq!(normalize_group_name(" upstairs ").unwrap(), "upstairs");
    assert!(matches!(normalize_group_name(""), Err(ConfigError::EmptyGroupName)));
}

#[test]
fn find_device_by_alias() {
    let config = two_fans();
    assert_eq!(find_device_id_by_alias(&config, "kitchen"), Some("112233445566".to_string()));
    assert_eq!(find_device_id_by_alias(&config, "garage"), None);
}

#[test]
fn set_alias_changes_alias() {
    let mut config = two_fans();
    let r = set_alias(&mut config, " aabbccddeeff ", " master ");
    assert!(matches!(r, Ok(true)));
    assert_eq!(alias_of(&config, "AABBCCDDEEFF"), Some("master".to_string()));
    assert_eq!(find_device_id_by_alias(&config, "master"), Some("AABBCCDDEEFF".to_string()));
}

#[test]
fn set_alias_same_alias_is_unchanged() {
    let mut config = two_fans();
    assert!(matches!(set_alias(&mut config, "AABBCCDDEEFF", "bedroom"), Ok(false)));
    assert_eq!(alias_of(&config, "AABBCCDDEEFF"), Some("bedroom".to_string()));
}

#[test]
fn set_alias_taken_by_other_device() {
    let mut config = two_fans();
    match set_alias(&mut config, "AABBCCDDEEFF", "kitchen") {
        Err(ConfigError::AliasTaken(a)) => assert_eq!(a, "kitchen"),
        other => panic!("unexpected {:?}", other),
    }
    assert_eq!(alias_of(&config, "AABBCCDDEEFF"), Some("bedroom".to_string()));
}

#[test]
fn set_alias_unknown_device() {
    let mut config = two_fans();
    match set_alias(&mut config, "ffffffffffff", "office") {
        Err(ConfigError::DeviceNotFound(id)) => assert_eq!(id, "FFFFFFFFFFFF"),
        other => panic!("unexpected {:?}", other),
    }
}

#[test]
fn set_alias_empty_alias() {
    let mut config = two_fans();
    assert!(matches!(set_alias(&mut config, "AABBCCDDEEFF", "  "), Err(ConfigError::EmptyAlias)));
}

#[test]
fn set_alias_remaps_group_entries() {
    let mut config = two_fans();
    create_group(&mut config, "upstairs").unwrap();
    create_group(&mut config, "all").unwrap();
    config.groups.get_mut("upstairs").unwrap().insert("bedroom".to_string());
    config.groups.get_mut("upstairs").unwrap().insert("112233445566".to_string());
    config.groups.get_mut("all").unwrap().insert("112233445566".to_string());
    assert!(matches!(set_alias(&mut config, "AABBCCDDEEFF", "master"), Ok(true)));
    assert_eq!(members(&config, "upstairs"), vec!["112233445566", "master"]);
    assert_eq!(members(&config, "all"), vec!["112233445566"]);
}

#[test]
fn rename_alias_moves_alias() {
    let mut config = two_fans();
    assert!(matches!(rename_alias(&mut config, "kitchen", "pantry"), Ok(true)));
    assert_eq!(alias_of(&config, "112233445566"), Some("pantry".to_string()));
    assert_eq!(find_device_id_by_alias(&config, "kitchen"), None);
}

#[test]
fn rename_alias_errors() {
    let mut config = two_fans();
    match rename_alias(&mut config, "garage", "x") {
        Err(ConfigError::AliasNotFound(a)) => assert_eq!(a, "garage"),
        other => panic!("unexpected {:?}", other),
    }
    assert!(matches!(rename_alias(&mut config, "kitchen", " "), Err(ConfigError::EmptyAlias)));
    match rename_alias(&mut config, "kitchen", "bedroom") {
        Err(ConfigError::AliasTaken(a)) => assert_eq!(a, "bedroom"),
        other => panic!("unexpected {:?}", other),
    }
}

#[test]
fn remove_alias_falls_back_to_device_id() {
    let mut config = two_fans();
    assert!(matches!(remove_alias(&mut config, "kitchen"), Ok(true)));
    assert_eq!(alias_of(&config, "112233445566"), Some("112233445566".to_string()));
    match remove_alias(&mut config, "kitchen") {
        Err(ConfigError::AliasNotFound(a)) => assert_eq!(a, "kitchen"),
        other => panic!("unexpected {:?}", other),
    }
}

#[test]
fn resolve_device_by_id_and_alias() {
    let config = two_fans();
    let d = resolve_device(&config, DeviceSelector::DeviceId("aabbccddeeff")).unwrap();
    assert_eq!(d.alias.as_deref(), Some("bedroom"));
    let d = resolve_device(&config, DeviceSelector::Alias(" kitchen ")).unwrap();
    assert_eq!(d.id, "112233445566");
    match resolve_device(&config, DeviceSelector::DeviceId("000000000000")) {
        Err(ConfigError::DeviceNotFound(id)) => assert_eq!(id, "000000000000"),
        other => panic!("unexpected {:?}", other),
    }
    match resolve_device(&config, DeviceSelector::Alias("garage")) {
        Err(ConfigError::AliasNotFound(a)) => assert_eq!(a, "garage"),
        other => panic!("unexpected {:?}", other),
    }
    assert!(matches!(resolve_device(&config, DeviceSelector::Alias("  ")), Err(ConfigError::EmptyAlias)));
}

#[test]
fn create_group_and_duplicates() {
    let mut config = two_fans();
    assert!(matches!(create_group(&mut config, " upstairs "), Ok(true)));
    assert_eq!(group_names(&config), vec!["upstairs"]);
    assert!(config.groups.get("upstairs").unwrap().is_empty());
    match create_group(&mut config, "upstairs") {
        Err(ConfigError::GroupExists(n)) => assert_eq!(n, "upstairs"),
        other => panic!("unexpected {:?}", other),
    }
    assert!(matches!(create_group(&mut config, "  "), Err(ConfigError::EmptyGroupName)));
}

#[test]
fn rename_group_updates_devices_sorted() {
    let mut config = config_with(vec![device("AABBCCDDEEFF", Some("bedroom"), "1", &["zeta", "alpha", "old"])]);
    create_group(&mut config, "old").unwrap();
    create_group(&mut config, "other").unwrap();
    config.groups.get_mut("old").unwrap().insert("AABBCCDDEEFF".to_string());
    assert!(matches!(rename_group(&mut config, "old", "beta"), Ok(true)));
    assert_eq!(group_names(&config), vec!["other", "beta"]);
    assert_eq!(members(&config, "beta"), vec!["AABBCCDDEEFF"]);
    assert_eq!(device_groups(&config, "AABBCCDDEEFF"), vec!["alpha", "beta", "zeta"]);
}

#[test]
fn rename_group_to_same_name_is_unchanged() {
    let mut config = two_fans();
    create_group(&mut config, "g").unwrap();
    assert!(matches!(rename_group(&mut config, "g", " g "), Ok(false)));
    assert_eq!(group_names(&config), vec!["g"]);
}

#[test]
fn rename_group_errors() {
    let mut config = two_fans();
    create_group(&mut config, "a").unwrap();
    create_group(&mut config, "b").unwrap();
    match rename_group(&mut config, "a", "b") {
        Err(ConfigError::GroupExists(n)) => assert_eq!(n, "b"),
        other => panic!("unexpected {:?}", other),
    }
    match rename_group(&mut config, "missing", "c") {
        Err(ConfigError::GroupNotFound(n)) => assert_eq!(n, "missing"),
        other => panic!("unexpected {:?}", other),
    }
    assert!(matches!(rename_group(&mut config, "", "c"), Err(ConfigError::EmptyGroupName)));
}

#[test]
fn rename_group_merges_duplicate_listings() {
    let mut config = config_with(vec![device("AABBCCDDEEFF", None, "1", &["new", "old"])]);
    create_group(&mut config, "old").unwrap();
    assert!(matches!(rename_group(&mut config, "old", "new"), Ok(true)));
    assert_eq!(device_groups(&config, "AABBCCDDEEFF"), vec!["new"]);
}

#[test]
fn delete_group_removes_listings() {
    let mut config = config_with(vec![device("AABBCCDDEEFF", None, "1", &["a", "b", "a"])]);
    create_group(&mut config, "a").unwrap();
    create_group(&mut config, "b").unwrap();
    assert!(matches!(delete_group(&mut config, "a"), Ok(true)));
    assert_eq!(group_names(&config), vec!["b"]);
    assert_eq!(device_groups(&config, "AABBCCDDEEFF"), vec!["b"]);
    match delete_group(&mut config, "a") {
        Err(ConfigError::GroupNotFound(n)) => assert_eq!(n, "a"),
        other => panic!("unexpected {:?}", other),
    }
}

#[test]
fn add_group_member_by_alias_and_id() {
    let mut config = two_fans();
    create_group(&mut config, "upstairs").unwrap();
    assert!(matches!(add_group_member(&mut config, "upstairs", DeviceSelector::Alias("bedroom")), Ok(true)));
    assert!(matches!(
        add_group_member(&mut config, "upstairs", DeviceSelector::DeviceId("112233445566")),
        Ok(true)
    ));
    assert_eq!(members(&config, "upstairs"), vec!["AABBCCDDEEFF", "112233445566"]);
    assert_eq!(device_groups(&config, "AABBCCDDEEFF"), vec!["upstairs"]);
    assert_eq!(device_groups(&config, "112233445566"), vec!["upstairs"]);
}

#[test]
fn add_group_member_errors() {
    let mut config = two_fans();
    match add_group_member(&mut config, "nowhere", DeviceSelector::Alias("bedroom")) {
        Err(ConfigError::GroupNotFound(n)) => assert_eq!(n, "nowhere"),
        other => panic!("unexpected {:?}", other),
    }
    create_group(&mut config, "g").unwrap();
    match add_group_member(&mut config, "g", DeviceSelector::Alias("garage")) {
        Err(ConfigError::AliasNotFound(a)) => assert_eq!(a, "garage"),
        other => panic!("unexpected {:?}", other),
    }
    match add_group_member(&mut config, "g", DeviceSelector::DeviceId("ffffffffffff")) {
        Err(ConfigError::DeviceNotFound(id)) => assert_eq!(id, "FFFFFFFFFFFF"),
        other => panic!("unexpected {:?}", other),
    }
    assert!(matches!(
        add_group_member(&mut config, " ", DeviceSelector::Alias("bedroom")),
        Err(ConfigError::EmptyGroupName)
    ));
}

#[test]
fn remove_group_member_undoes_add() {
    let mut config = two_fans();
    create_group(&mut config, "upstairs").unwrap();
    add_group_member(&mut config, "upstairs", DeviceSelector::Alias("bedroom")).unwrap();
    assert!(matches!(
        remove_group_member(&mut config, "upstairs", DeviceSelector::Alias("bedroom")),
        Ok(true)
    ));
    assert!(members(&config, "upstairs").is_empty());
    assert!(device_groups(&config, "AABBCCDDEEFF").is_empty());
    assert!(matches!(
        remove_group_member(&mut config, "upstairs", DeviceSelector::Alias("bedroom")),
        Ok(false)
    ));
}

#[test]
fn law_create_then_delete_group_restores() {
    let mut config = two_fans();
    create_group(&mut config, "a").unwrap();
    let before_groups = group_names(&config);
    assert!(matches!(create_group(&mut config, "tmp"), Ok(true)));
    assert!(matches!(delete_group(&mut config, "tmp"), Ok(true)));
    assert_eq!(group_names(&config), before_groups);
}

#[test]
fn law_add_then_remove_member_restores() {
    let mut config = two_fans();
    create_group(&mut config, "g").unwrap();
    config.groups.get_mut("g").unwrap().insert("112233445566".to_string());
    let before: Vec<String> = members(&config, "g");
    add_group_member(&mut config, "g", DeviceSelector::Alias("bedroom")).unwrap();
    remove_group_member(&mut config, "g", DeviceSelector::Alias("bedroom")).unwrap();
    assert_eq!(members(&config, "g"), before);
    assert!(device_groups(&config, "AABBCCDDEEFF").is_empty());
}

#[test]
fn law_add_member_twice_is_unchanged() {
    let mut config = two_fans();
    create_group(&mut config, "g").unwrap();
    assert!(matches!(add_group_member(&mut config, "g", DeviceSelector::Alias("bedroom")), Ok(true)));
    assert!(matches!(add_group_member(&mut config, "g", DeviceSelector::Alias("bedroom")), Ok(false)));
    assert_eq!(members(&config, "g"), vec!["AABBCCDDEEFF"]);
    assert_eq!(device_groups(&config, "AABBCCDDEEFF"), vec!["g"]);
}

#[test]
fn law_set_then_rename_alias_finds_device() {
    let mut config = two_fans();
    set_alias(&mut config, "aabbccddeeff", "lounge").unwrap();
    assert_eq!(find_device_id_by_alias(&config, "lounge"), Some("AABBCCDDEEFF".to_string()));
    rename_alias(&mut config, "lounge", "den").unwrap();
    assert_eq!(find_device_id_by_alias(&config, "den"), Some("AABBCCDDEEFF".to_string()));
}

#[test]
fn groups_keep_insertion_order() {
    let mut config = two_fans();
    let mut set: IndexSet<String> = IndexSet::new();
    set.insert("x".to_string());
    config.groups.insert("z".to_string(), set);
    create_group(&mut config, "a").unwrap();
    assert_eq!(group_names(&config), vec!["z", "a"]);
}

#[test]
fn law_set_alias_twice_is_unchanged() {
    let mut config = two_fans();
    assert!(matches!(set_alias(&mut config, "112233445566", "pantry"), Ok(true)));
    assert!(matches!(set_alias(&mut config, "112233445566", "pantry"), Ok(false)));
    assert_eq!(alias_of(&config, "112233445566"), Some("pantry".to_string()));
}

#[test]
fn law_set_alias_keeps_aliases_unique() {
    let mut config = two_fans();
    let _ = set_alias(&mut config, "AABBCCDDEEFF", "kitchen");
    let _ = set_alias(&mut config, "112233445566", "bedroom");
    let _ = rename_alias(&mut config, "bedroom", "kitchen");
    let a = alias_of(&config, "AABBCCDDEEFF");
    let b = alias_of(&config, "112233445566");
    assert_ne!(a, b);
}

#[test]
fn law_rename_alias_round_trip() {
    let mut config = two_fans();
    create_group(&mut config, "g").unwrap();
    config.groups.get_mut("g").unwrap().insert("kitchen".to_string());
    config.groups.get_mut("g").unwrap().insert("AABBCCDDEEFF".to_string());
    assert!(matches!(rename_alias(&mut config, "kitchen", "pantry"), Ok(true)));
    assert_eq!(members(&config, "g"), vec!["AABBCCDDEEFF", "pantry"]);
    assert!(matches!(rename_alias(&mut config, "pantry", "kitchen"), Ok(true)));
    assert_eq!(alias_of(&config, "112233445566"), Some("kitchen".to_string()));
    assert_eq!(alias_of(&config, "AABBCCDDEEFF"), Some("bedroom".to_string()));
    let mut got = members(&config, "g");
    got.sort();
    assert_eq!(got, vec!["AABBCCDDEEFF", "kitchen"]);
}

#[test]
fn config_error_texts() {
    let mut config = two_fans();
    assert_eq!(set_alias(&mut config, "AABBCCDDEEFF", "kitchen").unwrap_err().message(), "Alias 'kitchen' is already used by another device");
    assert_eq!(set_alias(&mut config, "ffffffffffff", "x").unwrap_err().message(), "Device ID 'FFFFFFFFFFFF' not found");
    assert_eq!(rename_alias(&mut config, "garage", "x").unwrap_err().message(), "Alias 'garage' not found");
    assert_eq!(set_alias(&mut config, "AABBCCDDEEFF", " ").unwrap_err().message(), "Alias must not be empty");
    create_group(&mut config, "g").unwrap();
    assert_eq!(create_group(&mut config, "g").unwrap_err().message(), "Group 'g' already exists");
    assert_eq!(delete_group(&mut config, "h").unwrap_err().message(), "Group 'h' not found");
    assert_eq!(create_group(&mut config, "").unwrap_err().message(), "Group name must not be empty");
}
