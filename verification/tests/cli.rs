use atomberg::cli::args::{
    AliasCommand, AliasShowArgs, GroupCommand, GroupMembershipArgs, LightModeState, PowerState, SendArgs,
};
use atomberg::cli::handlers::{
    command_options_from_args, handle_alias, handle_group, parse_light_mode, plural_suffix,
    requested_state_from_args, resolve_alias_show, resolve_membership_selector, send_target, AliasOutcome,
    GroupOutcome,
};
use atomberg::config::model::{Config, Device};
use atomberg::config::ops::{ConfigError, DeviceSelector};
use atomberg::device::target::Target;
use atomberg::device::LightMode;
use atomberg::utils::fan_speed::{speed_parser, timer_parser, TimerError};
use atomberg::utils::paths::{config_path_under, resolve_path, PathError};
use std::path::PathBuf;

fn send_args() -> SendArgs {
    SendArgs {
        alias: None,
        group: None,
        speed: None,
        led: None,
        power: None,
        sleep: None,
        timer: None,
        set_brightness: None,
        color: None,
    }
}

fn config() -> Config {
    let mut c = Config::default();
    for (id, alias) in [("BB0000000002", "kitchen"), ("AA0000000001", "bedroom")] {
        c.devices.insert(
            id.to_string(),
            Device { alias: Some(alias.to_string()), id: id.to_string(), ip: "10.0.0.1".to_string(), groups: Vec::new() },
        );
    }
    c
}

#[test]
fn speed_parser_accepts_one_to_six() {
    assert_eq!(speed_parser("1"), Ok(1));
    assert_eq!(speed_parser("6"), Ok(6));
    assert_eq!(speed_parser("+3"), Ok(3));
    assert_eq!(speed_parser("0"), Err("Speed must be between 1 and 6"));
    assert_eq!(speed_parser("7"), Err("Speed must be between 1 and 6"));
    assert_eq!(speed_parser("fast"), Err("Speed must be a number"));
    assert_eq!(speed_parser("300"), Err("Speed must be a number"));
    assert_eq!(speed_parser(""), Err("Speed must be a number"));
}

#[test]
fn timer_parser_accepts_zero_to_four() {
    assert_eq!(timer_parser("0"), Ok(0));
    assert_eq!(timer_parser("4"), Ok(4));
    assert_eq!(timer_parser("5"), Err(TimerError::OutOfRange));
    assert_eq!(timer_parser("-1"), Err(TimerError::NotANumber));
    assert_eq!(timer_parser("two"), Err(TimerError::NotANumber));
}

#[test]
fn send_settings_from_args() {
    let mut a = send_args();
    a.power = Some(PowerState::On);
    a.led = Some(PowerState::Off);
    a.speed = Some(2);
    a.set_brightness = Some(40);
    a.color = Some(LightModeState::Daylight);
    let o = command_options_from_args(&a);
    assert_eq!(o.power, Some(true));
    assert_eq!(o.led, Some(false));
    assert_eq!(o.sleep, None);
    assert_eq!(o.speed, Some(2));
    assert_eq!(o.brightness, Some(40));
    assert_eq!(o.light_mode, Some(LightMode::Daylight));
    let s = requested_state_from_args(&a);
    assert_eq!(s.power, Some(true));
    assert_eq!(s.led, Some(false));
    assert_eq!(s.brightness, Some(40));
    assert_eq!(s.light_mode, Some(LightMode::Daylight));
}

#[test]
fn colours_map_to_light_modes() {
    let mut a = send_args();
    assert_eq!(parse_light_mode(&a), None);
    a.color = Some(LightModeState::Warm);
    assert_eq!(parse_light_mode(&a), Some(LightMode::Warm));
    a.color = Some(LightModeState::Cool);
    assert_eq!(parse_light_mode(&a), Some(LightMode::Cool));
}

#[test]
fn send_target_prefers_alias() {
    let mut a = send_args();
    a.group = Some("all".to_string());
    assert!(matches!(send_target(&a), Target::Group("all")));
    a.alias = Some("bedroom".to_string());
    assert!(matches!(send_target(&a), Target::Alias("bedroom")));
}

#[test]
fn membership_selector_prefers_device_id() {
    let args = GroupMembershipArgs { name: "g".to_string(), device_id: Some("x".to_string()), alias: Some("y".to_string()) };
    assert!(matches!(resolve_membership_selector(&args), DeviceSelector::DeviceId("x")));
    let args = GroupMembershipArgs { name: "g".to_string(), device_id: None, alias: Some("y".to_string()) };
    assert!(matches!(resolve_membership_selector(&args), DeviceSelector::Alias("y")));
}

#[test]
fn alias_show_resolves() {
    let c = config();
    let d = resolve_alias_show(&c, &AliasShowArgs { device_id: None, alias: Some("kitchen".to_string()) }).unwrap();
    assert_eq!(d.id, "BB0000000002");
    let d = resolve_alias_show(&c, &AliasShowArgs { device_id: Some("aa0000000001".to_string()), alias: None }).unwrap();
    assert_eq!(d.alias.as_deref(), Some("bedroom"));
}

#[test]
fn plural_suffix_counts() {
    assert_eq!(plural_suffix(1), "");
    assert_eq!(plural_suffix(0), "s");
    assert_eq!(plural_suffix(2), "s");
}

#[test]
fn handle_alias_assign_and_list() {
    let mut c = config();
    let r = handle_alias(AliasCommand::Assign { device_id: "aa0000000001".to_string(), alias: "master".to_string() }, &mut c);
    match r {
        Ok(AliasOutcome::Assigned { changed, alias, device_id }) => {
            assert!(changed);
            assert_eq!(alias, "master");
            assert_eq!(device_id, "AA0000000001");
        },
        other => panic!("unexpected {:?}", other),
    }
    match handle_alias(AliasCommand::List, &mut c) {
        Ok(AliasOutcome::Listed(v)) => {
            let ids: Vec<_> = v.iter().map(|d| d.id.clone()).collect();
            assert_eq!(ids, vec!["AA0000000001", "BB0000000002"]);
            assert_eq!(v[0].alias.as_deref(), Some("master"));
        },
        other => panic!("unexpected {:?}", other),
    }
}

#[test]
fn handle_alias_rename_remove_show() {
    let mut c = config();
    let o = handle_alias(AliasCommand::Rename { current: "kitchen".to_string(), replacement: "pantry".to_string() }, &mut c).unwrap();
    assert!(o.changed());
    let o = handle_alias(AliasCommand::Remove { alias: "pantry".to_string() }, &mut c).unwrap();
    assert!(matches!(o, AliasOutcome::Removed { changed: true, .. }));
    let o = handle_alias(
        AliasCommand::Show(AliasShowArgs { device_id: Some("BB0000000002".to_string()), alias: None }),
        &mut c,
    )
    .unwrap();
    assert!(!o.changed());
    match o {
        AliasOutcome::Shown(d) => assert_eq!(d.alias.as_deref(), Some("BB0000000002")),
        other => panic!("unexpected {:?}", other),
    }
    assert!(matches!(
        handle_alias(AliasCommand::Remove { alias: "pantry".to_string() }, &mut c),
        Err(ConfigError::AliasNotFound(_))
    ));
}

#[test]
fn handle_group_flow() {
    let mut c = config();
    let o = handle_group(GroupCommand::Create { name: "upstairs".to_string() }, &mut c).unwrap();
    assert!(o.changed());
    let o = handle_group(
        GroupCommand::Add(GroupMembershipArgs { name: "upstairs".to_string(), device_id: None, alias: Some("bedroom".to_string()) }),
        &mut c,
    )
    .unwrap();
    assert!(matches!(o, GroupOutcome::Added { changed: true, .. }));
    handle_group(GroupCommand::Create { name: "empty".to_string() }, &mut c).unwrap();
    match handle_group(GroupCommand::List, &mut c).unwrap() {
        GroupOutcome::Listed(v) => {
            assert_eq!(v.len(), 2);
            assert_eq!(v[0].name, "upstairs");
            assert_eq!(v[0].members, 1);
            assert_eq!(v[1].name, "empty");
            assert_eq!(v[1].members, 0);
        },
        other => panic!("unexpected {:?}", other),
    }
    match handle_group(GroupCommand::Show { name: "upstairs".to_string() }, &mut c).unwrap() {
        GroupOutcome::Shown { name, members } => {
            assert_eq!(name, "upstairs");
            assert_eq!(members, vec!["AA0000000001"]);
        },
        other => panic!("unexpected {:?}", other),
    }
    let o = handle_group(GroupCommand::Rename { current: "upstairs".to_string(), replacement: "top".to_string() }, &mut c).unwrap();
    assert!(matches!(o, GroupOutcome::Renamed { changed: true, .. }));
    let o = handle_group(
        GroupCommand::Remove(GroupMembershipArgs { name: "top".to_string(), device_id: Some("aa0000000001".to_string()), alias: None }),
        &mut c,
    )
    .unwrap();
    assert!(matches!(o, GroupOutcome::Removed { changed: true, .. }));
    let o = handle_group(GroupCommand::Delete { name: "top".to_string() }, &mut c).unwrap();
    assert!(matches!(o, GroupOutcome::Deleted { changed: true, .. }));
    assert!(matches!(
        handle_group(GroupCommand::Show { name: "top".to_string() }, &mut c),
        Err(ConfigError::GroupNotFound(_))
    ));
}

#[test]
fn given_config_path_is_used() {
    let p = PathBuf::from("/tmp/atomberg.toml");
    assert_eq!(resolve_path(&Some(p.clone())).unwrap(), p);
}

#[test]
fn config_path_under_home() {
    let p = config_path_under(Some(PathBuf::from("/home/fan"))).unwrap();
    assert_eq!(p, PathBuf::from("/home/fan/.atomberg/config"));
    assert_eq!(config_path_under(None), Err(PathError::NoHomeDirectory));
}

#[test]
fn timer_error_texts() {
    assert_eq!(timer_parser("5").unwrap_err().message(), "Timer must be between 0 and 4");
    assert_eq!(timer_parser("x").unwrap_err().message(), "Timer must be a number between 0 and 4");
    assert_eq!(PathError::NoHomeDirectory.message(), "Could not determine home directory");
}
