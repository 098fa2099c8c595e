//! The decryption-key grammar.

use crate::text::{
    after_first, before_first, chars_of, find_first, lemma_first_index_bounds, lowercase_of,
    remove_char, starts_with, string_of, string_of_range, to_lowercase, without_char,
};
use vstd::prelude::*;
use vstd::string::*;

verus! {

/// Why a key token was rejected.
#[derive(Debug, Clone, Copy, PartialEq, Eq, Structural)]
pub enum KeyError {
    /// What follows `base64:` is no base64 text.
    InvalidBase64,
    /// The token is longer than the decoder accepts.
    TooLong,
}

/// The longest text, in bytes, that the decoder takes.
pub const MAX_KEY_BYTES: usize = 0x7fff_ffff;

/// The error that OpenSSL hands back; only carried, never read.
#[verifier::external_type_specification]
#[verifier::external_body]
pub struct ExErrorStack(openssl::error::ErrorStack);

/// What `openssl::base64::decode_block` makes of a text: the bytes, or
/// nothing where the text is no base64.
pub uninterp spec fn base64_decoded(s: Seq<char>) -> Option<Seq<u8>>;

/// `openssl::base64::decode_block`. It aborts on more bytes than a C `int`
/// counts, which `requires` rules out. Whether it succeeds, and with which
/// bytes, depends on the text alone and goes by the name `base64_decoded`.
#[verifier::external_body]
fn decode_block(src: &str) -> (r: Result<Vec<u8>, openssl::error::ErrorStack>)
    requires
        src.spec_bytes().len() <= MAX_KEY_BYTES,
    ensures
        match r {
            Ok(v) => base64_decoded(src@) == Some(v@),
            Err(_) => base64_decoded(src@) is None,
        },
{
    openssl::base64::decode_block(src)
}

/// Whether a token names a key id in front of its first colon.
pub open spec fn has_key_id(s: Seq<char>) -> bool {
    s.contains(':') && !"base64"@.is_prefix_of(s)
}

/// The key id as written, hyphens left out, case untouched.
pub open spec fn raw_key_id(s: Seq<char>) -> Option<Seq<char>> {
    if has_key_id(s) {
        Some(without_char(before_first(s, ':'), '-'))
    } else {
        None
    }
}

/// The key material as written: what follows the first colon of a token
/// with a key id, else the whole token.
pub open spec fn raw_material(s: Seq<char>) -> Seq<char> {
    if has_key_id(s) {
        after_first(s, ':')
    } else {
        s
    }
}

/// The base64 text of a key material that is marked `base64:`.
pub open spec fn base64_part(material: Seq<char>) -> Option<Seq<char>> {
    if "base64:"@.is_prefix_of(material) {
        Some(material.skip("base64:"@.len() as int))
    } else {
        None
    }
}

/// The lower-case hexadecimal digit for a number below sixteen.
pub open spec fn hex_digit(n: nat) -> char {
    if n < 10 {
        ((48 + n) as u8) as char
    } else {
        ((87 + n % 16) as u8) as char
    }
}

/// Whether a character is a lower-case hexadecimal digit.
pub open spec fn is_hex_digit(c: char) -> bool {
    ('0' <= c && c <= '9') || ('a' <= c && c <= 'f')
}

/// The bytes written as lower-case hexadecimal, two digits for each byte,
/// leading zeros kept.
pub open spec fn hex_of(bytes: Seq<u8>) -> Seq<char>
    decreases bytes.len(),
{
    if bytes.len() == 0 {
        Seq::empty()
    } else {
        hex_of(bytes.drop_last()).push(hex_digit(bytes.last() as nat / 16)).push(
            hex_digit(bytes.last() as nat % 16),
        )
    }
}

/// The stored form of a key token: its key id, if it has one, and its key
/// material, or the reason why it is refused.
pub open spec fn key_of(s: Seq<char>) -> Result<(Option<Seq<char>>, Seq<char>), KeyError> {
    let id = match raw_key_id(s) {
        Some(k) => Some(lowercase_of(k)),
        None => None,
    };
    match base64_part(raw_material(s)) {
        None => Ok((id, raw_material(s))),
        Some(t) => match decoded_hex(t) {
            Ok(h) => Ok((id, h)),
            Err(e) => Err(e),
        },
    }
}

/// The hexadecimal writing of what a base64 text decodes to, or the
/// reason why there is none.
pub open spec fn decoded_hex(t: Seq<char>) -> Result<Seq<char>, KeyError> {
    if vstd::utf8::encode_utf8(t).len() > MAX_KEY_BYTES {
        Err(KeyError::TooLong)
    } else {
        match base64_decoded(t) {
            None => Err(KeyError::InvalidBase64),
            Some(bytes) => Ok(hex_of(bytes)),
        }
    }
}

/// The hexadecimal writing has two digits for each byte, and holds
/// lower-case hexadecimal digits only.
pub proof fn lemma_hex_shape(bytes: Seq<u8>)
    ensures
        hex_of(bytes).len() == 2 * bytes.len(),
        forall|i: int| 0 <= i < hex_of(bytes).len() ==> is_hex_digit(#[trigger] hex_of(bytes)[i]),
    decreases bytes.len(),
{
    if bytes.len() > 0 {
        lemma_hex_shape(bytes.drop_last());
        let b = bytes.last() as nat;
        assert(is_hex_digit(hex_digit(b / 16)));
        assert(is_hex_digit(hex_digit(b % 16)));
    }
}

/// A token that starts with `base64` has no key id, whatever follows: the
/// whole token is its key material.
pub proof fn lemma_base64_token_has_no_id(s: Seq<char>)
    requires
        "base64"@.is_prefix_of(s),
    ensures
        raw_key_id(s) is None,
        raw_material(s) == s,
        key_of(s) is Ok ==> key_of(s)->Ok_0.0 is None,
{
}

/// Whatever a token marked `base64:` is stored as, it has no key id, and
/// its material is as many pairs of lower-case hexadecimal digits as the
/// text decodes to bytes.
pub proof fn lemma_base64_key_is_hex(s: Seq<char>)
    requires
        "base64:"@.is_prefix_of(s),
        key_of(s) is Ok,
    ensures
        key_of(s)->Ok_0.0 is None,
        base64_decoded(base64_part(s)->Some_0) is Some,
        key_of(s)->Ok_0.1.len() == 2 * base64_decoded(base64_part(s)->Some_0)->Some_0.len(),
        forall|i: int|
            0 <= i < key_of(s)->Ok_0.1.len() ==> is_hex_digit(#[trigger] key_of(s)->Ok_0.1[i]),
{
    reveal_strlit("base64:");
    reveal_strlit("base64");
    assert("base64"@ =~= s.subrange(0, 6)) by {
        assert("base64:"@ == s.subrange(0, 7));
        assert forall|i: int| 0 <= i < 6 implies "base64"@[i] == s.subrange(0, 6)[i] by {
            assert(s.subrange(0, 7)[i] == s[i]);
        }
    }
    lemma_hex_shape(base64_decoded(base64_part(s)->Some_0)->Some_0);
}

/// Splits a token into key id (hyphens removed) and key material.
pub fn split_key(s: &str) -> (r: (Option<String>, String))
    ensures
        r.0 is Some <==> has_key_id(s@),
        r.0 is Some ==> Some(r.0->Some_0@) == raw_key_id(s@),
        r.1@ == raw_material(s@),
{
    let v = chars_of(s);
    let i = find_first(&v, ':');
    proof {
        lemma_first_index_bounds(v@, ':');
    }
    if i < v.len() && !starts_with(&v, "base64") {
        assert(v@.contains(':'));
        let kid = remove_char(&v, 0, i, '-');
        assert(v@.subrange(0, i as int) =~= before_first(v@, ':'));
        let material = string_of_range(&v, i + 1, v.len());
        assert(v@.subrange(i as int + 1, v@.len() as int) =~= after_first(v@, ':'));
        (Some(string_of(&kid)), material)
    } else {
        (None, string_of(&v))
    }
}

/// The base64 text behind the mark `base64:`, if the material has it.
pub fn base64_text(material: &str) -> (r: Option<String>)
    ensures
        r is Some <==> base64_part(material@) is Some,
        r is Some ==> Some(r->Some_0@) == base64_part(material@),
{
    let v = chars_of(material);
    if starts_with(&v, "base64:") {
        let k: usize = "base64:".unicode_len();
        let r = string_of_range(&v, k, v.len());
        assert(v@.subrange(k as int, v@.len() as int) =~= v@.skip(k as int));
        Some(r)
    } else {
        None
    }
}

fn hex_char(n: u8) -> (c: char)
    requires
        n < 16,
    ensures
        c == hex_digit(n as nat),
{
    if n < 10 {
        (48 + n) as char
    } else {
        (87 + n) as char
    }
}

/// Writes bytes as lower-case hexadecimal, two digits for each byte.
pub fn hex_encode(bytes: &Vec<u8>) -> (r: String)
    ensures
        r@ == hex_of(bytes@),
{
    let mut r: String = String::new();
    let mut i: usize = 0;
    while i < bytes.len()
        invariant
            i <= bytes.len(),
            r@ == hex_of(bytes@.take(i as int)),
        decreases bytes.len() - i,
    {
        let b: u8 = bytes[i];
        assert(bytes@.take(i as int + 1).drop_last() =~= bytes@.take(i as int));
        assert(bytes@.take(i as int + 1).last() == b);
        r.push(hex_char(b / 16));
        r.push(hex_char(b % 16));
        i = i + 1;
    }
    assert(bytes@.take(bytes@.len() as int) =~= bytes@);
    r
}

/// Decodes base64 text and writes the bytes as lower-case hexadecimal.
pub fn hex_of_base64(text: &str) -> (r: Result<String, KeyError>)
    ensures
        match decoded_hex(text@) {
            Ok(h) => r is Ok && r->Ok_0@ == h,
            Err(e) => r == Err::<String, KeyError>(e),
        },
{
    if text.as_bytes().len() > MAX_KEY_BYTES {
        return Err(KeyError::TooLong);
    }
    match decode_block(text) {
        Err(_) => Err(KeyError::InvalidBase64),
        Ok(bytes) => Ok(hex_encode(&bytes)),
    }
}

/// Parses one key token into its optional key id (hyphens removed, lower
/// case) and its key material; material marked `base64:` is decoded and
/// stored as lower-case hexadecimal.
pub fn key_parser(s: &str) -> (r: Result<(Option<String>, String), KeyError>)
    ensures
        match key_of(s@) {
            Ok(k) => {
                &&& r is Ok
                &&& r->Ok_0.0 is Some <==> k.0 is Some
                &&& k.0 is Some ==> r->Ok_0.0->Some_0@ == k.0->Some_0
                &&& r->Ok_0.1@ == k.1
            },
            Err(e) => r == Err::<(Option<String>, String), KeyError>(e),
        },
{
    let (raw_id, material) = split_key(s);
    let id = match raw_id {
        Some(k) => Some(to_lowercase(k.as_str())),
        None => None,
    };
    match base64_text(material.as_str()) {
        None => Ok((id, material)),
        Some(text) => match hex_of_base64(text.as_str()) {
            Ok(hex) => Ok((id, hex)),
            Err(e) => Err(e),
        },
    }
}

impl KeyError {
    /// The text shown to the user for this failure.
    pub fn message(&self) -> (r: String)
        ensures
            *self == KeyError::InvalidBase64 ==> r@ == "key is not valid base64"@,
            *self == KeyError::TooLong ==> r@ == "key is too long"@,
    {
        match self {
            KeyError::InvalidBase64 => String::from_str("key is not valid base64"),
            KeyError::TooLong => String::from_str("key is too long"),
        }
    }
}

} // verus!
