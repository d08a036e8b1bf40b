//! Beacon packets: a fan announces itself with its 12-character MAC address,
//! which serves as its device ID.
use crate::text::{ascii_uppercase, is_hex_char, is_hex_digit, to_uppercase, unicode_uppercase};
use vstd::prelude::*;
use vstd::string::{StrSliceExecFns, StringSliceAdditionalSpecFns};
use vstd::utf8::{decode_utf8, encode_utf8, is_ascii_chars, is_char_boundary, valid_utf8};

verus! {

/// A beacon: who sent it, and from which address.
#[derive(Debug)]
pub struct BeconPayload {
    pub device_id: String,
    pub ip: String,
}

/// Text that starts with 12 hexadecimal digits.
pub open spec fn is_beacon_text(chars: Seq<char>) -> bool {
    chars.len() >= 12 && forall|i: int| 0 <= i < 12 ==> is_hex_digit(#[trigger] chars[i])
}

/// Each character takes at least one byte.
proof fn lemma_encoding_len(cs: Seq<char>)
    ensures
        encode_utf8(cs).len() >= cs.len(),
    decreases cs.len(),
{
    if cs.len() > 0 {
        lemma_encoding_len(cs.drop_first());
    }
}

/// Splitting text at a character boundary splits its characters.
proof fn lemma_split_chars(whole: Seq<char>, left: Seq<char>, right: Seq<char>, k: int)
    requires
        is_char_boundary(encode_utf8(whole), k),
        encode_utf8(left) == encode_utf8(whole).subrange(0, k),
        encode_utf8(right) == encode_utf8(whole).subrange(k, encode_utf8(whole).len() as int),
    ensures
        whole == left + right,
{
    let b = encode_utf8(whole);
    vstd::utf8::encode_utf8_valid_utf8(whole);
    vstd::utf8::encode_utf8_decode_utf8(whole);
    vstd::utf8::encode_utf8_decode_utf8(left);
    vstd::utf8::encode_utf8_decode_utf8(right);
    vstd::utf8::decode_utf8_split(b, k);
}

/// Reads a beacon: text whose first 12 characters are hexadecimal digits. The
/// device ID is those 12 characters upper-cased.
pub fn parse(content: &str, src_ip: String) -> (r: Option<BeconPayload>)
    requires
        content.spec_bytes().len() >= 12 ==> is_char_boundary(content.spec_bytes(), 12),
    ensures
        r is Some <==> is_beacon_text(content@),
        r matches Some(b) ==> b.device_id@ == ascii_uppercase(content@.take(12)) && b.device_id@
            == unicode_uppercase(content@.take(12)) && b.ip == src_ip,
{
    if content.as_bytes().len() < 12 {
        proof {
            lemma_encoding_len(content@);
            assert(content.spec_bytes() == encode_utf8(content@));
        }
        return None;
    }
    let (mac, rest) = content.split_at(12);
    proof {
        lemma_split_chars(content@, mac@, rest@, 12);
        lemma_encoding_len(mac@);
        assert(mac@ == content@.take(mac@.len() as int));
    }
    if !mac.is_ascii() {
        proof {
            let j = choose|j: int| 0 <= j < mac@.len() && !('\0' <= #[trigger] mac@[j] <= '\u{7f}');
            assert(content@[j] == mac@[j]);
        }
        return None;
    }
    proof {
        vstd::utf8::is_ascii_chars_encode_utf8(mac@);
    }
    for i in 0..12
        invariant
            mac@.len() == 12,
            content@.len() >= 12,
            mac@ == content@.take(12),
            forall|j: int| 0 <= j < i ==> is_hex_digit(#[trigger] mac@[j]),
    {
        if !is_hex_char(mac.get_char(i)) {
            assert(content@[i as int] == mac@[i as int]);
            return None;
        }
    }
    let device_id = to_uppercase(mac);
    Some(BeconPayload { device_id, ip: src_ip })
}

} // verus!
