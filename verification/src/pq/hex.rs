//! Hexadecimal text of byte strings, through the `hex` crate.

use vstd::prelude::*;
use vstd::utf8::encode_utf8;

verus! {

#[verifier::external_type_specification]
#[verifier::external_body]
pub struct ExFromHexError(::hex::FromHexError);

/// The lower-case hex digit of `d` (for `d < 16`).
pub open spec fn hex_digit(d: u8) -> char {
    if d < 10 { ((d + 48) as u8) as char } else { ((d + 87) as u8) as char }
}

/// The lower-case hex text of `b`, two digits per byte.
pub open spec fn hex_spec(b: Seq<u8>) -> Seq<char>
    decreases b.len(),
{
    if b.len() == 0 {
        Seq::empty()
    } else {
        hex_spec(b.drop_last()) + seq![hex_digit(b.last() / 16), hex_digit(b.last() % 16)]
    }
}

/// The value of a hex digit byte (either case), if it is one.
pub open spec fn hex_value(c: u8) -> Option<u8> {
    if 48 <= c <= 57 { Some((c - 48) as u8) }
    else if 65 <= c <= 70 { Some((c - 55) as u8) }
    else if 97 <= c <= 102 { Some((c - 87) as u8) }
    else { None }
}

/// The bytes that hex text (as bytes) stands for: `None` for an odd length
/// or a byte that is not a hex digit.
pub open spec fn unhex_spec(t: Seq<u8>) -> Option<Seq<u8>>
    decreases t.len(),
{
    if t.len() % 2 != 0 {
        None
    } else if t.len() == 0 {
        Some(Seq::empty())
    } else {
        match (unhex_spec(t.subrange(0, t.len() - 2)), hex_value(t[t.len() - 2]), hex_value(t[t.len() - 1])) {
            (Some(p), Some(h), Some(l)) => Some(p.push((h * 16 + l) as u8)),
            _ => None,
        }
    }
}

/// Calls `hex::encode`, which writes each byte as two lower-case hex digits.
#[verifier::external_body]
pub(crate) fn hex_encode(data: &[u8]) -> (r: String)
    ensures
        r@ == hex_spec(data@),
{
    ::hex::encode(data)
}

/// Calls `hex::decode` on the bytes of `text`: two hex digits (either case)
/// per byte, an error for an odd length or another character.
#[verifier::external_body]
pub(crate) fn hex_decode(text: &str) -> (r: Result<Vec<u8>, ::hex::FromHexError>)
    ensures
        match unhex_spec(encode_utf8(text@)) {
            Some(b) => r matches Ok(v) && v@ == b,
            None => r is Err,
        },
{
    ::hex::decode(text)
}

/// Calls `ToString::to_string` on a decoding error; the message is not
/// stated here.
#[verifier::external_body]
pub(crate) fn hex_error_message(e: &::hex::FromHexError) -> (r: String) {
    e.to_string()
}

} // verus!
