use atomberg::device::LightMode;
use atomberg::protocol::becon;
use atomberg::protocol::command::{CommandBuilder, CommandError};
use atomberg::protocol::status::{decode_device_state, parse_frame};
use atomberg::device::send_workflow::StatusError;
use atomberg::protocol::{parse_payload, PayloadFrame};

fn json_of(bytes: &[u8]) -> serde_json::Value {
    serde_json::from_slice(bytes).unwrap()
}

#[test]
fn beacon_parse_uppercases_mac() {
    let b = becon::parse("aabbccddeeff", "192.168.1.5".to_string()).unwrap();
    assert_eq!(b.device_id, "AABBCCDDEEFF");
    assert_eq!(b.ip, "192.168.1.5");
}

#[test]
fn beacon_parse_takes_first_twelve() {
    let b = becon::parse("0a1b2c3d4e5fxyz", "10.0.0.1".to_string()).unwrap();
    assert_eq!(b.device_id, "0A1B2C3D4E5F");
}

#[test]
fn beacon_parse_refuses_short_or_non_hex() {
    assert!(becon::parse("aabbccddee", "1".to_string()).is_none());
    assert!(becon::parse("aabbccddeegg", "1".to_string()).is_none());
    assert!(becon::parse("aabbccddéeff", "1".to_string()).is_none());
}

#[test]
fn payload_beacon_is_trimmed() {
    match parse_payload(b"  aabbccddeeff\n", "10.0.0.2".to_string()) {
        Some(PayloadFrame::Becon(b)) => {
            assert_eq!(b.device_id, "AABBCCDDEEFF");
            assert_eq!(b.ip, "10.0.0.2");
        },
        other => panic!("unexpected {:?}", other),
    }
}

#[test]
fn payload_too_short_or_invalid_utf8() {
    assert!(parse_payload(b"abc", "1".to_string()).is_none());
    assert!(parse_payload(&[0xff, 0xfe, 0x41, 0x41, 0x41, 0x41, 0x41, 0x41, 0x41, 0x41, 0x41, 0x41, 0x41], "1".to_string()).is_none());
}

#[test]
fn payload_status_is_hex_json() {
    let json = r#"{"device_id":"aabbccddeeff","message_id":"m1","state_string":"17,0,0"}"#;
    let text = hex::encode(json);
    match parse_payload(text.as_bytes(), "1".to_string()) {
        Some(PayloadFrame::Status(bytes)) => assert_eq!(bytes, json.as_bytes()),
        other => panic!("unexpected {:?}", other),
    }
}

#[test]
fn payload_status_not_hex() {
    let text = "zz".repeat(10);
    assert!(parse_payload(text.as_bytes(), "1".to_string()).is_none());
}

#[test]
fn parse_frame_decodes_hex() {
    assert_eq!(parse_frame("48656c6c6f2c20776f726c64").unwrap(), b"Hello, world".to_vec());
    assert!(parse_frame("4865").is_none());
    assert!(parse_frame("48656c6c6f2c20776f726c6").is_none());
}

#[test]
fn decode_basic_fields() {
    let s = decode_device_state(0x10 | 0x20 | 0x80 | 0x05 | (0x3 << 16) | (0x02 << 24));
    assert!(s.power);
    assert!(s.led);
    assert!(s.sleep);
    assert_eq!(s.speed, 5);
    assert_eq!(s.timer, 3);
    assert_eq!(s.timer_elapsed_mins, 8);
    assert_eq!(s.light_mode, None);
}

#[test]
fn decode_all_off() {
    let s = decode_device_state(0);
    assert!(!s.power && !s.led && !s.sleep);
    assert_eq!(s.speed, 0);
    assert_eq!(s.timer, 0);
    assert_eq!(s.timer_elapsed_mins, 0);
    assert_eq!(s.brightness, None);
}

#[test]
fn decode_light_mode_mapping() {
    assert_eq!(decode_device_state(0x08).light_mode, Some(LightMode::Cool));
    assert_eq!(decode_device_state(0x8000).light_mode, Some(LightMode::Warm));
    assert_eq!(decode_device_state(0x8008).light_mode, Some(LightMode::Daylight));
    assert_eq!(decode_device_state(0x7700).light_mode, None);
}

#[test]
fn decode_reports_no_brightness() {
    assert_eq!(decode_device_state(40 << 8).brightness, None);
    assert_eq!(decode_device_state(0xFFFF_FFFF).brightness, None);
}

#[test]
fn law_decode_ignores_unread_bits() {
    for state in [0u32, 1 << 8, 0x40, 0x7F00, 0xF0_0000, 0xFFFF_FFFF, 0x1234_5678, 0x8008] {
        let a = decode_device_state(state);
        let b = decode_device_state(state & 0xFF0F_80BF);
        assert_eq!(a.power, b.power);
        assert_eq!(a.led, b.led);
        assert_eq!(a.sleep, b.sleep);
        assert_eq!(a.speed, b.speed);
        assert_eq!(a.timer, b.timer);
        assert_eq!(a.timer_elapsed_mins, b.timer_elapsed_mins);
        assert_eq!(a.brightness, b.brightness);
        assert_eq!(a.light_mode, b.light_mode);
    }
}

#[test]
fn builder_brightness_payload() {
    let b = CommandBuilder::new().brightness(10).unwrap().build().unwrap();
    assert_eq!(b, br#"{"brightness":10}"#.to_vec());
}

#[test]
fn builder_light_mode_payload() {
    let b = CommandBuilder::new().light_mode(LightMode::Warm).build().unwrap();
    assert_eq!(b, br#"{"light_mode":"warm"}"#.to_vec());
    let b = CommandBuilder::new().light_mode(LightMode::Daylight).build().unwrap();
    assert_eq!(b, br#"{"light_mode":"daylight"}"#.to_vec());
}

#[test]
fn builder_combined_payload() {
    let b = CommandBuilder::new().power(true).speed(4).unwrap().timer(2).unwrap().led(false).sleep(true).build().unwrap();
    let v = json_of(&b);
    assert_eq!(v["power"], serde_json::Value::Bool(true));
    assert_eq!(v["speed"], serde_json::Value::from(4));
    assert_eq!(v["timer"], serde_json::Value::from(2));
    assert_eq!(v["led"], serde_json::Value::Bool(false));
    assert_eq!(v["sleep"], serde_json::Value::Bool(true));
    assert_eq!(v.as_object().unwrap().len(), 5);
}

#[test]
fn builder_last_setting_wins() {
    let b = CommandBuilder::new().power(true).power(false).build().unwrap();
    assert_eq!(b, br#"{"power":false}"#.to_vec());
}

#[test]
fn builder_range_errors() {
    assert!(matches!(CommandBuilder::new().speed(0), Err(CommandError::SpeedOutOfRange)));
    assert!(matches!(CommandBuilder::new().speed(7), Err(CommandError::SpeedOutOfRange)));
    assert!(CommandBuilder::new().speed(1).is_ok());
    assert!(CommandBuilder::new().speed(6).is_ok());
    assert!(matches!(CommandBuilder::new().timer(5), Err(CommandError::TimerOutOfRange)));
    assert!(CommandBuilder::new().timer(0).is_ok());
    assert!(matches!(CommandBuilder::new().brightness(9), Err(CommandError::BrightnessOutOfRange)));
    assert!(matches!(CommandBuilder::new().brightness(101), Err(CommandError::BrightnessOutOfRange)));
    assert!(CommandBuilder::new().brightness(100).is_ok());
}

#[test]
fn builder_without_settings_is_refused() {
    assert!(matches!(CommandBuilder::new().build(), Err(CommandError::NoCommand)));
}

#[test]
fn law_status_frame_round_trip() {
    let bytes = br#"{"device_id":"AABBCCDDEEFF","message_id":"m","state_string":"16,0"}"#.to_vec();
    assert_eq!(parse_frame(&hex::encode(&bytes)).unwrap(), bytes);
    let short = vec![0u8, 1, 2, 254, 255, 16];
    assert_eq!(parse_frame(&hex::encode(&short)).unwrap(), short);
}

#[test]
fn command_error_texts() {
    assert_eq!(CommandBuilder::new().build().unwrap_err().message(), "Failed to buld payload, no command specified.");
    assert_eq!(CommandError::SpeedOutOfRange.message(), "Speed must be between 1 and 6");
    assert_eq!(CommandError::TimerOutOfRange.message(), "Timer must be between 0 and 4");
    assert_eq!(CommandError::BrightnessOutOfRange.message(), "Brightness must be between 10 and 100");
}

#[test]
fn status_error_texts() {
    assert_eq!(StatusError::InvalidState("abc".to_string()).message(), "invalid digit found in string");
    assert_eq!(StatusError::InvalidState("".to_string()).message(), "cannot parse integer from empty string");
    assert_eq!(StatusError::InvalidState("99999999999".to_string()).message(), "number too large to fit in target type");
    assert_eq!(StatusError::InvalidState("12".to_string()).message(), "Invalid State String");
}
