//! Status packets: a hex-encoded JSON report whose `state_string` starts with
//! the fan's state as a number.
use crate::device::{DeviceState, LightMode};
use vstd::prelude::*;
use vstd::string::StringSliceAdditionalSpecFns;

verus! {

/// A status report, once its JSON is read.
#[derive(Debug)]
pub struct StatusPayload {
    pub device_id: String,
    pub message_id: String,
    pub state_string: String,
}

/// An ASCII hexadecimal digit, as a byte.
pub open spec fn is_hex_byte(b: u8) -> bool {
    (0x30 <= b && b <= 0x39) || (0x41 <= b && b <= 0x46) || (0x61 <= b && b <= 0x66)
}

/// The value of a hexadecimal digit byte.
pub open spec fn hex_value(b: u8) -> nat {
    if 0x41 <= b && b <= 0x46 {
        (b - 0x41 + 10) as nat
    } else if 0x61 <= b && b <= 0x66 {
        (b - 0x61 + 10) as nat
    } else {
        (b - 0x30) as nat
    }
}

/// Text that `hex::decode` accepts: an even number of hexadecimal digits.
pub open spec fn hex_decodable(text: Seq<u8>) -> bool {
    text.len() % 2 == 0 && forall|i: int| 0 <= i < text.len() ==> is_hex_byte(#[trigger] text[i])
}

/// The bytes that hexadecimal text spells, two digits a byte, high digit first.
pub open spec fn hex_decoded(text: Seq<u8>) -> Seq<u8> {
    Seq::new(text.len() / 2, |i: int| (hex_value(text[2 * i]) * 16 + hex_value(text[2 * i + 1])) as u8)
}

/// `hex::decode`, its error dropped: the bytes that the text spells in
/// hexadecimal, upper and lower case alike, when it has an even number of
/// hexadecimal digits and nothing else.
/// The lower-case hexadecimal digit of a value below 16.
pub open spec fn hex_digit(n: u8) -> u8 {
    if n < 10 {
        (0x30 + n) as u8
    } else {
        (0x61 + n - 10) as u8
    }
}

/// `bytes` written as hexadecimal text, two lower-case digits per byte, high
/// digit first.
pub open spec fn hex_encoded(bytes: Seq<u8>) -> Seq<u8> {
    Seq::new(
        2 * bytes.len(),
        |i: int| if i % 2 == 0 { hex_digit(bytes[i / 2] / 16) } else { hex_digit(bytes[i / 2] % 16) },
    )
}

/// Hexadecimal text decodes back to the bytes it was written from.
pub proof fn lemma_hex_round_trip(bytes: Seq<u8>)
    ensures
        hex_decodable(hex_encoded(bytes)),
        hex_decoded(hex_encoded(bytes)) == bytes,
{
    let t = hex_encoded(bytes);
    assert forall|i: int| 0 <= i < t.len() implies is_hex_byte(#[trigger] t[i]) by {
        let b = bytes[i / 2];
        assert(b / 16 < 16 && b % 16 < 16);
    }
    assert(t.len() % 2 == 0);
    assert forall|k: int| 0 <= k < bytes.len() implies #[trigger] hex_decoded(t)[k] == bytes[k] by {
        let b = bytes[k];
        assert((2 * k) % 2 == 0 && (2 * k) / 2 == k);
        assert((2 * k + 1) % 2 == 1 && (2 * k + 1) / 2 == k);
        assert(t[2 * k] == hex_digit(b / 16));
        assert(t[2 * k + 1] == hex_digit(b % 16));
        assert(hex_value(hex_digit(b / 16)) == b / 16);
        assert(hex_value(hex_digit(b % 16)) == b % 16);
        assert((b / 16) * 16 + b % 16 == b);
    }
    assert(hex_decoded(t) =~= bytes);
}

#[verifier::external_body]
fn hex_decode(text: &str) -> (r: Option<Vec<u8>>)
    ensures
        r is Some <==> hex_decodable(text.spec_bytes()),
        r matches Some(v) ==> v@ == hex_decoded(text.spec_bytes()),
{
    hex::decode(text).ok()
}

/// The JSON bytes of a status packet: the packet is at least 12 bytes of
/// hexadecimal text.
pub fn parse_frame(content: &str) -> (r: Option<Vec<u8>>)
    ensures
        content.spec_bytes().len() < 12 ==> r is None,
        content.spec_bytes().len() >= 12 ==> (r is Some <==> hex_decodable(content.spec_bytes())),
        r matches Some(v) ==> v@ == hex_decoded(content.spec_bytes()),
{
    if content.as_bytes().len() < 12 {
        return None;
    }
    hex_decode(content)
}

/// The light colour bits of a state: cool is bit 3, warm bit 15, both daylight.
pub open spec fn light_mode_of(state: u32) -> Option<LightMode> {
    let cool = state & 0x08 != 0;
    let warm = state & 0x8000 != 0;
    if cool && !warm {
        Some(LightMode::Cool)
    } else if !cool && warm {
        Some(LightMode::Warm)
    } else if cool && warm {
        Some(LightMode::Daylight)
    } else {
        None
    }
}

/// The state a status report's number encodes: power is bit 4, the LED bit 5,
/// sleep bit 7, the speed bits 0 to 2, the timer bits 16 to 19, the minutes
/// elapsed on the timer the top byte times 4, and the light colour bits 3 and
/// 15. No bit of it reports the brightness, and bits 6, 8 to 14 and 20 to 23
/// are not read.
pub open spec fn state_of(state: u32) -> DeviceState {
    DeviceState {
        power: state & 0x10 != 0,
        led: state & 0x20 != 0,
        sleep: state & 0x80 != 0,
        speed: (state & 0x07) as u8,
        timer: ((state & 0x0F0000) >> 16) as u8,
        timer_elapsed_mins: (((state & 0xFF000000) >> 24) * 4) as u32,
        brightness: None,
        light_mode: light_mode_of(state),
    }
}

/// Reads the state number of a status report.
pub fn decode_device_state(state: u32) -> (r: DeviceState)
    ensures
        r == state_of(state),
        r.power == (state & 0x10 != 0),
        r.led == (state & 0x20 != 0),
        r.sleep == (state & 0x80 != 0),
        r.speed == state & 0x07,
        r.timer == (state & 0x0F0000) >> 16,
        r.timer_elapsed_mins == ((state & 0xFF000000) >> 24) * 4,
        r.brightness is None,
        r.light_mode == light_mode_of(state),
        r.speed <= 7,
        r.timer <= 15,
        r.timer_elapsed_mins <= 1020,
{
    assert(state & 0x07 <= 7) by (bit_vector);
    assert((state & 0x0F0000) >> 16 <= 15) by (bit_vector);
    assert((state & 0xFF000000) >> 24 <= 255) by (bit_vector);
    let power = (state & 0x10) > 0;
    let led = (state & 0x20) > 0;
    let sleep = (state & 0x80) > 0;
    let speed = (state & 0x07) as u8;
    let timer = ((state & 0x0F0000) >> 16) as u8;
    let timer_elapsed_mins = ((state & 0xFF000000) >> 24) * 4;
    let brightness: Option<u8> = None;
    let cool = (state & 0x08) > 0;
    let warm = (state & 0x8000) > 0;
    let light_mode = if cool && !warm {
        Some(LightMode::Cool)
    } else if !cool && warm {
        Some(LightMode::Warm)
    } else if cool && warm {
        Some(LightMode::Daylight)
    } else {
        None
    };
    DeviceState { power, led, sleep, speed, timer, timer_elapsed_mins, brightness, light_mode }
}

} // verus!
