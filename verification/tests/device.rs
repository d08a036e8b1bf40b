use atomberg::config::model::{Config, Device, DeviceMap};
use atomberg::device::command::{command_payload, CommandOptions};
use atomberg::device::discover::{discovery_start, discovery_step, record_beacon, DiscoveryEvent, Flow};
use atomberg::device::send_workflow::{wait_step, SendWait, StatusError, WaitEvent, WaitStep};
use atomberg::device::state_match::{matches_expected, RequestedState};
use atomberg::device::target::{resolve_target, Target, TargetError};
use atomberg::device::{DeviceState, LightMode};
use atomberg::protocol::becon::BeconPayload;
use atomberg::protocol::command::CommandError;
use atomberg::protocol::status::StatusPayload;
use atomberg::protocol::Payload;
use indexmap::{IndexMap, IndexSet};

fn device(id: &str, alias: Option<&str>, ip: &str) -> Device {
    Device { alias: alias.map(|a| a.to_string()), id: id.to_string(), ip: ip.to_string(), groups: Vec::new() }
}

fn table(devices: Vec<Device>) -> DeviceMap {
    let mut m = DeviceMap::new();
    for d in devices {
        m.insert(d.id.clone(), d);
    }
    m
}

fn state() -> DeviceState {
    DeviceState {
        power: true,
        led: false,
        sleep: false,
        speed: 3,
        timer: 0,
        timer_elapsed_mins: 0,
        brightness: Some(40),
        light_mode: Some(LightMode::Warm),
    }
}

fn options() -> CommandOptions {
    CommandOptions { power: None, speed: None, sleep: None, timer: None, led: None, brightness: None, light_mode: None }
}

fn beacon(id: &str, ip: &str) -> BeconPayload {
    BeconPayload { device_id: id.to_string(), ip: ip.to_string() }
}

fn status(id: &str, message_id: &str, state_string: &str) -> WaitEvent {
    WaitEvent::Packet(Payload::Status(StatusPayload {
        device_id: id.to_string(),
        message_id: message_id.to_string(),
        state_string: state_string.to_string(),
    }))
}

#[test]
fn matches_expected_empty_request() {
    assert!(matches_expected(&state(), &RequestedState::default()));
}

#[test]
fn matches_expected_each_field() {
    let mut want = RequestedState::default();
    want.power = Some(true);
    want.speed = Some(3);
    want.brightness = Some(40);
    want.light_mode = Some(LightMode::Warm);
    assert!(matches_expected(&state(), &want));
    want.light_mode = Some(LightMode::Cool);
    assert!(!matches_expected(&state(), &want));
    let mut want = RequestedState::default();
    want.led = Some(true);
    assert!(!matches_expected(&state(), &want));
    let mut want = RequestedState::default();
    want.timer = Some(1);
    assert!(!matches_expected(&state(), &want));
    let mut none_mode = state();
    none_mode.light_mode = None;
    let mut want = RequestedState::default();
    want.light_mode = Some(LightMode::Warm);
    assert!(!matches_expected(&none_mode, &want));
}

#[test]
fn requested_brightness_needs_a_reported_one() {
    let mut want = RequestedState::default();
    want.brightness = Some(40);
    assert!(matches_expected(&state(), &want));
    let mut unreported = state();
    unreported.brightness = None;
    assert!(!matches_expected(&unreported, &want));
    let decoded = atomberg::protocol::status::decode_device_state(0x10);
    assert!(!matches_expected(&decoded, &want));
}

#[test]
fn command_payload_json() {
    let mut o = options();
    o.speed = Some(4);
    assert_eq!(command_payload(&o).unwrap(), br#"{"speed":4}"#.to_vec());
    let mut o = options();
    o.brightness = Some(10);
    assert_eq!(command_payload(&o).unwrap(), br#"{"brightness":10}"#.to_vec());
    let mut o = options();
    o.light_mode = Some(LightMode::Cool);
    assert_eq!(command_payload(&o).unwrap(), br#"{"light_mode":"cool"}"#.to_vec());
}

#[test]
fn command_payload_errors() {
    assert!(matches!(command_payload(&options()), Err(CommandError::NoCommand)));
    let mut o = options();
    o.power = Some(true);
    o.speed = Some(9);
    assert!(matches!(command_payload(&o), Err(CommandError::SpeedOutOfRange)));
    let mut o = options();
    o.timer = Some(6);
    assert!(matches!(command_payload(&o), Err(CommandError::TimerOutOfRange)));
    let mut o = options();
    o.brightness = Some(5);
    assert!(matches!(command_payload(&o), Err(CommandError::BrightnessOutOfRange)));
}

#[test]
fn resolve_target_alias() {
    let devices = table(vec![device("A1", Some("bedroom"), "1"), device("B2", Some("kitchen"), "2")]);
    let groups: IndexMap<String, IndexSet<String>> = IndexMap::new();
    let v = resolve_target(Target::Alias("kitchen"), &devices, &groups).unwrap();
    assert_eq!(v.len(), 1);
    assert_eq!(v[0].id, "B2");
    match resolve_target(Target::Alias("garage"), &devices, &groups) {
        Err(TargetError::DeviceNotFound(a)) => assert_eq!(a, "garage"),
        other => panic!("unexpected {:?}", other),
    }
}

#[test]
fn resolve_target_group() {
    let devices = table(vec![device("A1", Some("bedroom"), "1"), device("B2", Some("kitchen"), "2")]);
    let mut groups: IndexMap<String, IndexSet<String>> = IndexMap::new();
    let mut m = IndexSet::new();
    m.insert("kitchen".to_string());
    m.insert("A1".to_string());
    groups.insert("all".to_string(), m);
    groups.insert("empty".to_string(), IndexSet::new());
    let mut bad = IndexSet::new();
    bad.insert("A1".to_string());
    bad.insert("ghost".to_string());
    groups.insert("bad".to_string(), bad);
    let v = resolve_target(Target::Group("all"), &devices, &groups).unwrap();
    assert_eq!(v.iter().map(|d| d.id.clone()).collect::<Vec<_>>(), vec!["B2", "A1"]);
    match resolve_target(Target::Group("none"), &devices, &groups) {
        Err(TargetError::GroupNotFound(n)) => assert_eq!(n, "none"),
        other => panic!("unexpected {:?}", other),
    }
    match resolve_target(Target::Group("empty"), &devices, &groups) {
        Err(TargetError::GroupEmpty(n)) => assert_eq!(n, "empty"),
        other => panic!("unexpected {:?}", other),
    }
    match resolve_target(Target::Group("bad"), &devices, &groups) {
        Err(TargetError::UnknownMember { entry, group }) => {
            assert_eq!(entry, "ghost");
            assert_eq!(group, "bad");
        },
        other => panic!("unexpected {:?}", other),
    }
}

#[test]
fn discovery_adds_and_updates() {
    let base = table(vec![device("A1", Some("bedroom"), "10.0.0.1")]);
    let mut results = discovery_start(&base);
    assert!(!results.changed);
    record_beacon(&mut results, &beacon("A1", "10.0.0.1"));
    assert!(!results.changed);
    record_beacon(&mut results, &beacon("A1", "10.0.0.9"));
    assert!(results.changed);
    assert_eq!(results.devices.get("A1").unwrap().ip, "10.0.0.9");
    assert_eq!(results.devices.get("A1").unwrap().alias.as_deref(), Some("bedroom"));
    record_beacon(&mut results, &beacon("C3", "10.0.0.3"));
    let d = results.devices.get("C3").unwrap();
    assert_eq!(d.alias.as_deref(), Some("C3"));
    assert_eq!(d.id, "C3");
    assert!(d.groups.is_empty());
    assert_eq!(results.devices.len(), 2);
}

#[test]
fn discovery_steps_until_timeout() {
    let mut results = discovery_start(&DeviceMap::new());
    let f = discovery_step(&mut results, DiscoveryEvent::Packet(Payload::Becon(beacon("A1", "1"))));
    assert!(matches!(f, Flow::Continue));
    let f = discovery_step(
        &mut results,
        DiscoveryEvent::Packet(Payload::Status(StatusPayload {
            device_id: "A1".to_string(),
            message_id: "m".to_string(),
            state_string: "1,2".to_string(),
        })),
    );
    assert!(matches!(f, Flow::Continue));
    assert!(matches!(discovery_step(&mut results, DiscoveryEvent::TimedOut), Flow::Finish));
    assert!(results.changed);
    assert_eq!(results.devices.len(), 1);
}

#[test]
fn law_same_beacon_twice_changes_nothing_more() {
    let mut results = discovery_start(&Config::default().devices);
    record_beacon(&mut results, &beacon("A1", "1"));
    results.changed = false;
    record_beacon(&mut results, &beacon("A1", "1"));
    assert!(!results.changed);
    assert_eq!(results.devices.len(), 1);
}

#[test]
fn wait_settles_on_matching_status() {
    let mut wait = SendWait::new();
    assert!(wait.is_done());
    wait.add_device("aabbccddeeff");
    wait.add_device("112233445566");
    assert!(!wait.is_done());
    let mut want = RequestedState::default();
    want.power = Some(true);
    want.speed = Some(3);
    let out = wait_step(&mut wait, &want, status("AABBCCDDEEFF", "m1", "19,0"));
    assert!(matches!(out.step, WaitStep::Pending));
    assert_eq!(out.report_timer_mins, None);
    let out = wait_step(&mut wait, &want, status("112233445566", "m2", "19,x"));
    assert!(matches!(out.step, WaitStep::Done(ref r) if !r.timed_out));
}

#[test]
fn wait_ignores_unrelated_packets() {
    let mut wait = SendWait::new();
    wait.add_device("A1");
    let mut want = RequestedState::default();
    want.power = Some(true);
    assert!(matches!(wait_step(&mut wait, &want, status("A1", "internet_query", "16,0")).step, WaitStep::Pending));
    assert!(matches!(wait_step(&mut wait, &want, status("A1", "m", "16")).step, WaitStep::Pending));
    assert!(matches!(wait_step(&mut wait, &want, status("B2", "m", "16,0")).step, WaitStep::Pending));
    assert!(matches!(
        wait_step(&mut wait, &want, WaitEvent::Packet(Payload::Becon(beacon("A1", "1")))).step,
        WaitStep::Pending
    ));
    assert!(matches!(wait_step(&mut wait, &want, status("A1", "m", "0,0")).step, WaitStep::Pending));
    assert!(matches!(wait_step(&mut wait, &want, status("a1", "m", "16,0")).step, WaitStep::Done(_)));
}

#[test]
fn wait_reports_timer_minutes() {
    let mut wait = SendWait::new();
    wait.add_device("A1");
    let mut want = RequestedState::default();
    want.timer = Some(2);
    let state_value: u32 = (2 << 16) | (5 << 24);
    let out = wait_step(&mut wait, &want, status("A1", "m", &format!("{},1", state_value)));
    assert_eq!(out.report_timer_mins, Some(20));
    assert!(matches!(out.step, WaitStep::Done(_)));
}

#[test]
fn wait_fails_on_bad_state_field() {
    let mut wait = SendWait::new();
    wait.add_device("A1");
    let out = wait_step(&mut wait, &RequestedState::default(), status("A1", "m", "abc,1"));
    match out.step {
        WaitStep::Failed(StatusError::InvalidState(f)) => assert_eq!(f, "abc"),
        other => panic!("unexpected {:?}", other),
    }
}

#[test]
fn wait_times_out() {
    let mut wait = SendWait::new();
    wait.add_device("A1");
    let out = wait_step(&mut wait, &RequestedState::default(), WaitEvent::TimedOut);
    assert!(matches!(out.step, WaitStep::Done(ref r) if r.timed_out));
}

#[test]
fn law_beacon_keeps_other_devices() {
    let mut base = table(vec![device("A1", Some("bedroom"), "1"), device("B2", Some("kitchen"), "2")]);
    base.insert("A1".to_string(), Device { alias: Some("bedroom".to_string()), id: "A1".to_string(), ip: "1".to_string(), groups: vec!["g".to_string()] });
    let mut results = discovery_start(&base);
    record_beacon(&mut results, &beacon("A1", "9"));
    record_beacon(&mut results, &beacon("C3", "3"));
    assert_eq!(results.devices.key_at(0), "A1");
    assert_eq!(results.devices.device_at(0).groups, vec!["g".to_string()]);
    assert_eq!(results.devices.device_at(0).ip, "9");
    assert_eq!(results.devices.key_at(1), "B2");
    assert_eq!(results.devices.device_at(1).ip, "2");
    assert_eq!(results.devices.key_at(2), "C3");
}

#[test]
fn resolve_alias_finds_first_match() {
    let devices = table(vec![device("A1", Some("x"), "1"), device("B2", Some("x"), "2")]);
    let v = atomberg::device::target::resolve_alias("x", &devices).unwrap();
    assert_eq!(v[0].id, "A1");
}

#[test]
fn target_error_texts() {
    let devices = table(vec![device("A1", Some("bedroom"), "1")]);
    let mut groups: IndexMap<String, IndexSet<String>> = IndexMap::new();
    groups.insert("empty".to_string(), IndexSet::new());
    let mut bad = IndexSet::new();
    bad.insert("ghost".to_string());
    groups.insert("bad".to_string(), bad);
    assert_eq!(resolve_target(Target::Alias("x"), &devices, &groups).unwrap_err().message(), "Device ID 'x' not found");
    assert_eq!(resolve_target(Target::Group("none"), &devices, &groups).unwrap_err().message(), "Group 'none' not found");
    assert_eq!(resolve_target(Target::Group("empty"), &devices, &groups).unwrap_err().message(), "Group 'empty' is empty");
    assert_eq!(
        resolve_target(Target::Group("bad"), &devices, &groups).unwrap_err().message(),
        "Entry 'ghost' in group 'bad' does not match any device ID of alias"
    );
}
