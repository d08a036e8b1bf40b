//! The fans' UDP protocol: beacons, status reports and commands.
pub mod becon;
pub mod command;
pub mod status;

use crate::protocol::becon::{is_beacon_text, BeconPayload};
use crate::protocol::status::{hex_decodable, hex_decoded, StatusPayload};
use crate::text::{ascii_uppercase, trim, trim_spec, utf8_text};
use vstd::prelude::*;
use vstd::utf8::{decode_utf8, encode_utf8, is_char_boundary, valid_utf8};

verus! {

/// A packet a fan sent.
#[derive(Debug)]
pub enum Payload {
    Becon(BeconPayload),
    Status(StatusPayload),
}

/// A packet as this library reads it: a beacon, or the JSON bytes of a status report.
#[derive(Debug)]
pub enum PayloadFrame {
    Becon(BeconPayload),
    Status(Vec<u8>),
}

/// The packet's text without surrounding white space, as bytes.
pub open spec fn packet_text(buf: Seq<u8>) -> Seq<u8> {
    encode_utf8(trim_spec(decode_utf8(buf)))
}

/// Packets on which reading a beacon would cut a character in two: the
/// trimmed text is 12 to 15 bytes long and byte 12 is inside a character.
pub open spec fn splits_a_character(buf: Seq<u8>) -> bool {
    &&& valid_utf8(buf)
    &&& 12 <= packet_text(buf).len() <= 15
    &&& !is_char_boundary(packet_text(buf), 12)
}

/// Reads a packet: UTF-8 text, trimmed; 12 to 15 bytes are a beacon, more
/// are a status report in hexadecimal.
pub fn parse_payload(buf: &[u8], src_ip: String) -> (r: Option<PayloadFrame>)
    requires
        !splits_a_character(buf@),
    ensures
        !valid_utf8(buf@) ==> r is None,
        valid_utf8(buf@) && packet_text(buf@).len() < 12 ==> r is None,
        valid_utf8(buf@) && 12 <= packet_text(buf@).len() <= 15 ==> {
            &&& r is Some <==> is_beacon_text(trim_spec(decode_utf8(buf@)))
            &&& r matches Some(f) ==> (f matches PayloadFrame::Becon(b) && b.device_id@ == ascii_uppercase(
                trim_spec(decode_utf8(buf@)).take(12),
            ) && b.ip == src_ip)
        },
        valid_utf8(buf@) && packet_text(buf@).len() > 15 ==> {
            &&& r is Some <==> hex_decodable(packet_text(buf@))
            &&& r matches Some(f) ==> (f matches PayloadFrame::Status(v) && v@ == hex_decoded(
                packet_text(buf@),
            ))
        },
{
    let text = match utf8_text(buf) {
        Some(t) => t,
        None => {
            return None;
        },
    };
    let content = trim(text);
    let n = content.as_bytes().len();
    if n < 12 {
        return None;
    }
    if n <= 15 {
        match becon::parse(content, src_ip) {
            Some(b) => Some(PayloadFrame::Becon(b)),
            None => None,
        }
    } else {
        match status::parse_frame(content) {
            Some(v) => Some(PayloadFrame::Status(v)),
            None => None,
        }
    }
}

} // verus!
