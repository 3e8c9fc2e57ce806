//! Hex and base64 transcoding.
//!
//! Block root hashes travel as hex strings and block BoCs as base64 strings;
//! the conversions are delegated to the `hex` and `base64` crates.  Hex is
//! simple enough to state exactly; the base64 results are named and left
//! uninterpreted.

use vstd::prelude::*;

verus! {

/// Whether a character is a hex digit, either case.
pub open spec fn is_hex_digit(c: char) -> bool {
    ('0' <= c && c <= '9') || ('a' <= c && c <= 'f') || ('A' <= c && c <= 'F')
}

/// The value of one hex digit.
pub open spec fn hex_digit_val(c: char) -> int {
    if '0' <= c && c <= '9' {
        c as int - '0' as int
    } else if 'a' <= c && c <= 'f' {
        10 + (c as int - 'a' as int)
    } else {
        10 + (c as int - 'A' as int)
    }
}

/// The lowercase hex digit for a value below sixteen.
pub open spec fn hex_digit_char(d: int) -> char {
    if d < 10 {
        crate::keys::dec_digit_char(d as nat)
    } else if d == 10 {
        'a'
    } else if d == 11 {
        'b'
    } else if d == 12 {
        'c'
    } else if d == 13 {
        'd'
    } else if d == 14 {
        'e'
    } else {
        'f'
    }
}

/// Lowercase hex rendering of a byte sequence: two digits per byte.
pub open spec fn hex_seq_of(b: Seq<u8>) -> Seq<char> {
    Seq::new(
        b.len() * 2,
        |i: int|
            if i % 2 == 0 {
                hex_digit_char((b[i / 2] >> 4) as int)
            } else {
                hex_digit_char((b[i / 2] & 0xf) as int)
            },
    )
}

/// Whether a character sequence is decodable hex: even length, hex digits only.
pub open spec fn valid_hex_seq(s: Seq<char>) -> bool {
    s.len() % 2 == 0 && (forall|i: int| 0 <= i < s.len() ==> is_hex_digit(#[trigger] s[i]))
}

/// The bytes a valid hex sequence denotes.
pub open spec fn bytes_of_hex(s: Seq<char>) -> Seq<u8> {
    Seq::new(s.len() / 2, |i: int| (hex_digit_val(s[2 * i]) * 16 + hex_digit_val(s[2 * i + 1])) as u8)
}

/// Declares `hex::FromHexError`, the error type `hex::decode` returns, so
/// that it can appear in the wrapper's signature; the library maps it to its
/// own error kind and reads nothing out of it.
#[verifier::external_type_specification]
#[verifier::external_body]
pub struct ExFromHexError(hex::FromHexError);

/// Relies on `hex::encode`: each byte becomes exactly two lowercase hex
/// digits, in order.
#[verifier::external_body]
pub fn hex_encode(data: &[u8]) -> (r: String)
    ensures
        r@ == hex_seq_of(data@),
{
    hex::encode(data)
}

/// Relies on `hex::decode`: it accepts exactly the even-length strings of hex
/// digits (either case) and pairs digits into bytes in order.
#[verifier::external_body]
pub fn hex_decode(data: &str) -> (r: Result<Vec<u8>, hex::FromHexError>)
    ensures
        r is Ok <==> valid_hex_seq(data@),
        r matches Ok(b) ==> b@ == bytes_of_hex(data@),
{
    hex::decode(data)
}

/// The base64 rendering (standard alphabet, padded) of a byte sequence.
pub uninterp spec fn base64_encoding(b: Seq<u8>) -> Seq<char>;

/// What a character sequence decodes to under base64, if it decodes at all.
pub uninterp spec fn base64_decoding(s: Seq<char>) -> Option<Seq<u8>>;

/// Declares `base64::DecodeError`, the error type `base64::decode` returns,
/// so that it can appear in the wrapper's signature; the library maps it to
/// its own error kind and reads nothing out of it.
#[verifier::external_type_specification]
#[verifier::external_body]
pub struct ExDecodeError(base64::DecodeError);

/// Relies on `base64::encode`: the standard-alphabet, padded rendering, a
/// function of the input bytes alone.
#[verifier::external_body]
pub fn base64_encode(data: &[u8]) -> (r: String)
    ensures
        r@ == base64_encoding(data@),
{
    base64::encode(data)
}

/// Relies on `base64::decode`: whether and to what a string decodes depends
/// on its characters alone.
#[verifier::external_body]
pub fn base64_decode(data: &str) -> (r: Result<Vec<u8>, base64::DecodeError>)
    ensures
        r is Ok <==> base64_decoding(data@) is Some,
        r matches Ok(b) ==> base64_decoding(data@) == Some(b@),
{
    base64::decode(data)
}

} // verus!
