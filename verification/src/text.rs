//! Text primitives used across the crate: the std string functions that the
//! library calls, each with the contract that std documents for it, and the
//! spec functions those contracts are written in.
use vstd::prelude::*;
use vstd::string::{StringExecFns, StringSliceAdditionalSpecFns};
use vstd::utf8::{decode_utf8, is_ascii_chars, valid_utf8};

verus! {

/// Unicode `White_Space`, the set that `char::is_whitespace` and `str::trim` use.
pub open spec fn is_white_space(c: char) -> bool {
    let u = c as u32;
    ||| (0x09 <= u && u <= 0x0d)
    ||| u == 0x20
    ||| u == 0x85
    ||| u == 0xa0
    ||| u == 0x1680
    ||| (0x2000 <= u && u <= 0x200a)
    ||| u == 0x2028
    ||| u == 0x2029
    ||| u == 0x202f
    ||| u == 0x205f
    ||| u == 0x3000
}

/// `s` without its leading white space.
pub open spec fn trim_start_spec(s: Seq<char>) -> Seq<char>
    decreases s.len(),
{
    if s.len() > 0 && is_white_space(s[0]) {
        trim_start_spec(s.drop_first())
    } else {
        s
    }
}

/// `s` without its trailing white space.
pub open spec fn trim_end_spec(s: Seq<char>) -> Seq<char>
    decreases s.len(),
{
    if s.len() > 0 && is_white_space(s.last()) {
        trim_end_spec(s.drop_last())
    } else {
        s
    }
}

/// `s` without leading and trailing white space.
pub open spec fn trim_spec(s: Seq<char>) -> Seq<char> {
    trim_end_spec(trim_start_spec(s))
}

/// What `trim_start_spec` leaves starts with no white space.
pub proof fn lemma_trim_start_clean(s: Seq<char>)
    ensures
        trim_start_spec(s).len() == 0 || !is_white_space(trim_start_spec(s)[0]),
    decreases s.len(),
{
    if s.len() > 0 && is_white_space(s[0]) {
        lemma_trim_start_clean(s.drop_first());
    }
}

/// What `trim_end_spec` leaves is a prefix of its input that ends with no white space.
pub proof fn lemma_trim_end_prefix(s: Seq<char>)
    ensures
        trim_end_spec(s).len() <= s.len(),
        trim_end_spec(s) =~= s.subrange(0, trim_end_spec(s).len() as int),
        trim_end_spec(s).len() == 0 || !is_white_space(trim_end_spec(s).last()),
    decreases s.len(),
{
    if s.len() > 0 && is_white_space(s.last()) {
        lemma_trim_end_prefix(s.drop_last());
    }
}

/// Trimming twice is trimming once.
pub proof fn lemma_trim_idempotent(s: Seq<char>)
    ensures
        trim_spec(trim_spec(s)) == trim_spec(s),
{
    let t = trim_start_spec(s);
    let u = trim_end_spec(t);
    lemma_trim_start_clean(s);
    lemma_trim_end_prefix(t);
    if u.len() > 0 {
        assert(u[0] == t[0]);
    }
    assert(trim_start_spec(u) == u);
    assert(trim_end_spec(u) == u);
}

/// The Unicode upper-case mapping of a whole string, as `str::to_uppercase` computes it.
pub uninterp spec fn unicode_uppercase(s: Seq<char>) -> Seq<char>;

/// ASCII letters `a`..=`z` mapped to `A`..=`Z`, every other character kept.
pub open spec fn ascii_upper_char(c: char) -> char {
    if 'a' <= c && c <= 'z' {
        ((c as u32) - 32) as char
    } else {
        c
    }
}

pub open spec fn ascii_uppercase(s: Seq<char>) -> Seq<char> {
    s.map_values(|c: char| ascii_upper_char(c))
}

/// `char::is_ascii_hexdigit`.
pub open spec fn is_hex_digit(c: char) -> bool {
    ||| ('0' <= c && c <= '9')
    ||| ('a' <= c && c <= 'f')
    ||| ('A' <= c && c <= 'F')
}

/// Whether `c` is an ASCII hexadecimal digit.
pub fn is_hex_char(c: char) -> (r: bool)
    ensures
        r == is_hex_digit(c),
{
    ('0' <= c && c <= '9') || ('a' <= c && c <= 'f') || ('A' <= c && c <= 'F')
}

pub open spec fn is_decimal_digit(c: char) -> bool {
    '0' <= c && c <= '9'
}

/// The number that a run of decimal digits spells.
pub open spec fn digits_value(s: Seq<char>) -> nat
    decreases s.len(),
{
    if s.len() == 0 {
        0
    } else {
        digits_value(s.drop_last()) * 10 + ((s.last() as u32) - ('0' as u32)) as nat
    }
}

/// What `<uN as FromStr>::from_str` accepts: an optional `+`, then one or more
/// ASCII digits whose value is at most `max`.
pub open spec fn parse_unsigned_spec(s: Seq<char>, max: nat) -> Option<nat> {
    let d = if s.len() > 0 && s[0] == '+' {
        s.drop_first()
    } else {
        s
    };
    if d.len() > 0 && (forall|i: int| 0 <= i < d.len() ==> is_decimal_digit(#[trigger] d[i]))
        && digits_value(d) <= max {
        Some(digits_value(d))
    } else {
        None
    }
}

/// Lexicographic order of two strings by code point, the order of `str`'s `<`.
pub open spec fn text_lt(a: Seq<char>, b: Seq<char>) -> bool
    decreases a.len(),
{
    if a.len() == 0 {
        b.len() > 0
    } else if b.len() == 0 {
        false
    } else if a[0] != b[0] {
        (a[0] as u32) < (b[0] as u32)
    } else {
        text_lt(a.drop_first(), b.drop_first())
    }
}

pub proof fn lemma_text_lt_irreflexive(a: Seq<char>)
    ensures
        !text_lt(a, a),
    decreases a.len(),
{
    if a.len() > 0 {
        lemma_text_lt_irreflexive(a.drop_first());
    }
}

pub proof fn lemma_text_lt_total(a: Seq<char>, b: Seq<char>)
    ensures
        a != b ==> text_lt(a, b) || text_lt(b, a),
        !(text_lt(a, b) && text_lt(b, a)),
    decreases a.len(),
{
    if a.len() > 0 && b.len() > 0 {
        lemma_text_lt_total(a.drop_first(), b.drop_first());
        if a[0] == b[0] && a != b {
            assert(a =~= seq![a[0]] + a.drop_first());
            assert(b =~= seq![b[0]] + b.drop_first());
        }
        if a[0] != b[0] {
            vstd::utf8::char_u32_cast(a[0], a[0] as u32);
            vstd::utf8::char_u32_cast(b[0], b[0] as u32);
        }
    } else if a.len() == 0 && b.len() == 0 {
        assert(a =~= b);
    }
}

pub proof fn lemma_text_lt_transitive(a: Seq<char>, b: Seq<char>, c: Seq<char>)
    requires
        text_lt(a, b),
        text_lt(b, c),
    ensures
        text_lt(a, c),
    decreases a.len(),
{
    if a.len() > 0 && b.len() > 0 && c.len() > 0 {
        if a[0] == b[0] && b[0] == c[0] {
            lemma_text_lt_transitive(a.drop_first(), b.drop_first(), c.drop_first());
        }
    }
}

/// `str::trim`: the slice without leading and trailing Unicode white space.
#[verifier::external_body]
pub(crate) fn trim<'a>(s: &'a str) -> (r: &'a str)
    ensures
        r@ == trim_spec(s@),
{
    s.trim()
}

/// `str::to_uppercase`: the Unicode upper-case mapping of the string. On ASCII
/// text that mapping turns `a`..=`z` into `A`..=`Z` and keeps everything else.
#[verifier::external_body]
pub(crate) fn to_uppercase(s: &str) -> (r: String)
    ensures
        r@ == unicode_uppercase(s@),
        is_ascii_chars(s@) ==> r@ == ascii_uppercase(s@),
{
    s.to_uppercase()
}

/// `str == str`: the two strings hold the same characters.
#[verifier::external_body]
pub(crate) fn str_eq(a: &str, b: &str) -> (r: bool)
    ensures
        r == (a@ == b@),
{
    a == b
}

/// `str < str`: code-point lexicographic order.
#[verifier::external_body]
pub(crate) fn str_lt(a: &str, b: &str) -> (r: bool)
    ensures
        r == text_lt(a@, b@),
{
    a < b
}

/// `<u8 as FromStr>::from_str`, its error dropped.
#[verifier::external_body]
pub(crate) fn parse_u8(s: &str) -> (r: Option<u8>)
    ensures
        r is Some <==> parse_unsigned_spec(s@, 255) is Some,
        r matches Some(v) ==> v as nat == parse_unsigned_spec(s@, 255)->0,
{
    s.parse::<u8>().ok()
}

/// `<u32 as FromStr>::from_str`, its error dropped.
#[verifier::external_body]
pub(crate) fn parse_u32(s: &str) -> (r: Option<u32>)
    ensures
        r is Some <==> parse_unsigned_spec(s@, 0xffff_ffff) is Some,
        r matches Some(v) ==> v as nat == parse_unsigned_spec(s@, 0xffff_ffff)->0,
{
    s.parse::<u32>().ok()
}

/// `std::str::from_utf8`, its error dropped: the bytes read as UTF-8 text.
#[verifier::external_body]
pub(crate) fn utf8_text(buf: &[u8]) -> (r: Option<&str>)
    ensures
        r is Some <==> valid_utf8(buf@),
        r matches Some(s) ==> s@ == decode_utf8(buf@) && s.spec_bytes() == buf@,
{
    std::str::from_utf8(buf).ok()
}

/// `before`, then `middle`, then `after`, as one string.
pub fn enclose(before: &str, middle: &str, after: &str) -> (r: String)
    ensures
        r@ == before@ + middle@ + after@,
{
    let mut r = before.to_owned();
    r.append(middle);
    r.append(after);
    r
}

/// The text of the error that `str::parse::<u32>` gives on `s`, as its
/// `Display` writes it.
pub uninterp spec fn u32_parse_error_text(s: Seq<char>) -> Seq<char>;

/// `<u32 as FromStr>::from_str`, with its error as text: `None` when `s`
/// parses, else the error's `Display` text.
#[verifier::external_body]
pub(crate) fn u32_parse_error(s: &str) -> (r: Option<String>)
    ensures
        r is None <==> parse_unsigned_spec(s@, 0xffff_ffff) is Some,
        r matches Some(t) ==> t@ == u32_parse_error_text(s@),
{
    match s.parse::<u32>() {
        Ok(_) => None,
        Err(e) => Some(e.to_string()),
    }
}

} // verus!
