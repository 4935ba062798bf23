//! Conversions between byte buffers and text, together with the facts about
//! ASCII byte sequences that the codec proofs lean on.

use vstd::prelude::*;
use vstd::utf8::{decode_utf8, encode_utf8, valid_utf8};
use vstd::utf8::{
    encode_utf8_decode_utf8, encode_utf8_valid_utf8, is_ascii_chars, is_ascii_chars_encode_utf8,
};

verus! {

/// Relies on `core::str::from_utf8`: it returns `Ok` exactly when the bytes
/// are a well-formed UTF-8 encoding, the same encoding that vstd's
/// `valid_utf8` describes.
#[verifier::external_body]
pub(crate) fn bytes_are_utf8(v: &[u8]) -> (r: bool)
    ensures
        r == valid_utf8(v@),
{
    core::str::from_utf8(v).is_ok()
}

/// Relies on `String::from_utf8`: it returns `Ok` exactly when the bytes are
/// well-formed UTF-8, and the string it then returns holds the characters
/// those bytes encode.
#[verifier::external_body]
pub(crate) fn string_from_utf8(v: Vec<u8>) -> (r: Option<String>)
    ensures
        r is Some <==> valid_utf8(v@),
        r is Some ==> r.unwrap()@ == decode_utf8(v@),
{
    match String::from_utf8(v) {
        Ok(s) => Some(s),
        Err(_) => None,
    }
}

/// The characters an ASCII byte sequence stands for, one per byte.
pub open spec fn ascii_chars_of(b: Seq<u8>) -> Seq<char> {
    b.map_values(|x: u8| x as char)
}

/// The bytes of an ASCII character sequence, one per character.
pub open spec fn ascii_bytes_of(chars: Seq<char>) -> Seq<u8> {
    chars.map_values(|c: char| c as u8)
}

/// A sequence of ASCII bytes is valid UTF-8 and decodes to one character per
/// byte.
pub proof fn lemma_ascii_bytes_utf8(b: Seq<u8>)
    requires
        forall|i: int| 0 <= i < b.len() ==> b[i] < 128,
    ensures
        valid_utf8(b),
        decode_utf8(b) == ascii_chars_of(b),
        is_ascii_chars(ascii_chars_of(b)),
{
    let chars = ascii_chars_of(b);
    assert(is_ascii_chars(chars)) by {
        assert(forall|i: int| 0 <= i < chars.len() ==> b[i] < 128 && chars[i] == b[i] as char);
    }
    is_ascii_chars_encode_utf8(chars);
    assert(encode_utf8(chars) =~= b);
    encode_utf8_valid_utf8(chars);
    encode_utf8_decode_utf8(chars);
}

/// The bytes of an ASCII character sequence are below 128, and turning them
/// back into characters recovers the sequence.
pub proof fn lemma_ascii_chars_bytes(chars: Seq<char>)
    requires
        is_ascii_chars(chars),
    ensures
        forall|i: int| 0 <= i < chars.len() ==> #[trigger] ascii_bytes_of(chars)[i] < 128,
        ascii_chars_of(ascii_bytes_of(chars)) == chars,
    {
    let b = ascii_bytes_of(chars);
    assert(forall|i: int| 0 <= i < chars.len() ==> chars[i] <= '\u{7f}' && #[trigger] b[i] == chars[i] as u8);
    assert(forall|i: int| 0 <= i < b.len() ==> b[i] < 128);
    assert(ascii_chars_of(b) =~= chars) by {
        assert(forall|i: int| 0 <= i < b.len() ==> #[trigger] ascii_chars_of(b)[i] == (chars[i] as u8) as char);
        assert(forall|i: int| 0 <= i < chars.len() ==> ((chars[i] as u8) as char) == chars[i]);
    }
}

} // verus!
