//! Hexadecimal text: how sealed pastes, keys and digests are written down.
//!
//! Writing uses the lower-case digits; reading accepts both cases.

use vstd::prelude::*;
use vstd::utf8::*;
use vstd::string::*;
use crate::error::PasteError;

verus! {

/// Whether `c` is a hexadecimal digit, of either case.
pub open spec fn is_hex_digit(c: char) -> bool {
    ('0' <= c && c <= '9') || ('a' <= c && c <= 'f') || ('A' <= c && c <= 'F')
}

/// The value of the hexadecimal digit `c`, from 0 to 15.
pub open spec fn hex_digit_value(c: char) -> nat {
    if '0' <= c && c <= '9' {
        (c as u32 - 48) as nat
    } else if 'a' <= c && c <= 'f' {
        (c as u32 - 87) as nat
    } else {
        (c as u32 - 55) as nat
    }
}

/// The lower-case digit that stands for `v`, for `v` below 16.
pub open spec fn hex_digit(v: nat) -> char {
    if v < 10 {
        (v + 48) as char
    } else {
        (v + 87) as char
    }
}

/// Whether `s` is hexadecimal text: an even number of hexadecimal digits.
pub open spec fn is_hex(s: Seq<char>) -> bool {
    s.len() % 2 == 0 && forall|i: int| 0 <= i < s.len() ==> is_hex_digit(#[trigger] s[i])
}

/// The bytes that the hexadecimal text `s` stands for: one for each pair of digits.
pub open spec fn hex_bytes(s: Seq<char>) -> Seq<u8> {
    Seq::new(
        s.len() / 2,
        |i: int| (hex_digit_value(s[2 * i]) * 16 + hex_digit_value(s[2 * i + 1])) as u8,
    )
}

/// The hexadecimal text of `b`: two lower-case digits for each byte.
pub open spec fn hex_text(b: Seq<u8>) -> Seq<char> {
    Seq::new(
        2 * b.len(),
        |i: int|
            if i % 2 == 0 {
                hex_digit(b[i / 2] as nat / 16)
            } else {
                hex_digit(b[i / 2] as nat % 16)
            },
    )
}

/// Each byte read as the character with that code.
pub open spec fn as_chars(data: Seq<u8>) -> Seq<char> {
    Seq::new(data.len(), |i: int| data[i] as char)
}

/// What reading the text `s` gives.
pub open spec fn parsed(s: Seq<char>) -> Result<Seq<u8>, PasteError> {
    if is_hex(s) {
        Ok(hex_bytes(s))
    } else {
        Err(PasteError::MalformedEncoding)
    }
}

/// Reading what was written gives the bytes back.
pub proof fn lemma_hex_round_trip(b: Seq<u8>)
    ensures
        is_hex(hex_text(b)),
        hex_bytes(hex_text(b)) == b,
        parsed(hex_text(b)) == Ok::<Seq<u8>, PasteError>(b),
{
    let t = hex_text(b);
    assert forall|i: int| 0 <= i < t.len() implies is_hex_digit(#[trigger] t[i]) by {
        let byte = b[i / 2] as nat;
        assert(byte / 16 < 16 && byte % 16 < 16);
    }
    assert forall|i: int| 0 <= i < b.len() implies #[trigger] hex_bytes(t)[i] == b[i] by {
        let byte = b[i] as nat;
        assert((2 * i) / 2 == i && (2 * i + 1) / 2 == i);
        assert(t[2 * i] == hex_digit(byte / 16));
        assert(t[2 * i + 1] == hex_digit(byte % 16));
        assert(hex_digit_value(hex_digit(byte / 16)) == byte / 16);
        assert(hex_digit_value(hex_digit(byte % 16)) == byte % 16);
    }
    assert(hex_bytes(t) =~= b);
}

/// Hexadecimal text is ASCII.
pub proof fn lemma_hex_is_ascii(s: Seq<char>)
    requires
        forall|i: int| 0 <= i < s.len() ==> is_hex_digit(#[trigger] s[i]),
    ensures
        is_ascii_chars(s),
{
    assert forall|i: int| 0 <= i < s.len() implies '\0' <= #[trigger] s[i] && s[i] <= '\u{7f}' by {
        assert(is_hex_digit(s[i]));
    }
}

/// A scalar whose encoding starts with a byte below 0x80 is ASCII.
proof fn lemma_low_first_byte(c: u32)
    requires
        is_scalar(c),
        encode_scalar(c)[0] < 0x80,
    ensures
        has_width_1_encoding(c),
{
    let x2 = ((c >> 6) & 0x1F) as u8;
    let x3 = ((c >> 12) & 0x0F) as u8;
    let x4 = ((c >> 18) & 0x7) as u8;
    assert(0xC0u8 | x2 >= 0x80) by (bit_vector);
    assert(0xE0u8 | x3 >= 0x80) by (bit_vector);
    assert(0xF0u8 | x4 >= 0x80) by (bit_vector);
}

/// A text whose UTF-8 bytes are all below 0x80 is ASCII.
proof fn lemma_low_bytes_ascii(s: Seq<char>)
    requires
        forall|i: int| 0 <= i < encode_utf8(s).len() ==> #[trigger] encode_utf8(s)[i] < 0x80,
    ensures
        is_ascii_chars(s),
    decreases s.len(),
{
    if s.len() > 0 {
        let first = encode_scalar(s[0] as u32);
        let rest = encode_utf8(s.drop_first());
        let whole = encode_utf8(s);
        assert(whole == first + rest);
        char_is_scalar(s[0]);
        assert(first.len() >= 1);
        assert(whole[0] == first[0]);
        lemma_low_first_byte(s[0] as u32);
        assert forall|i: int| 0 <= i < rest.len() implies #[trigger] rest[i] < 0x80 by {
            assert(rest[i] == whole[i + first.len()]);
        }
        lemma_low_bytes_ascii(s.drop_first());
        assert forall|i: int| 0 <= i < s.len() implies '\0' <= #[trigger] s[i] && s[i]
            <= '\u{7f}' by {
            if i > 0 {
                let tail = s.drop_first();
                assert(s[i] == tail[i - 1]);
                assert('\0' <= tail[i - 1] && tail[i - 1] <= '\u{7f}');
            } else {
                char_u32_cast(s[0], s[0] as u32);
            }
        }
    }
}

/// Reading a text byte by byte is reading it character by character: a
/// character outside ASCII has no byte that is a hexadecimal digit.
pub proof fn lemma_hex_of_utf8(s: Seq<char>)
    ensures
        is_hex(as_chars(encode_utf8(s))) <==> is_hex(s),
        is_hex(s) ==> as_chars(encode_utf8(s)) == s,
{
    let bytes = encode_utf8(s);
    let read = as_chars(bytes);
    if is_hex(read) {
        assert forall|i: int| 0 <= i < bytes.len() implies #[trigger] bytes[i] < 0x80 by {
            assert(is_hex_digit(read[i]));
        }
        lemma_low_bytes_ascii(s);
    }
    if is_hex(s) {
        lemma_hex_is_ascii(s);
    }
    if is_ascii_chars(s) {
        is_ascii_chars_encode_utf8(s);
        assert forall|i: int| 0 <= i < s.len() implies #[trigger] read[i] == s[i] by {
            assert(s[i] as u8 == bytes[i]);
        }
        assert(read =~= s);
    }
}

#[verifier::external_type_specification]
#[verifier::external_body]
pub struct ExFromHexError(hex::FromHexError);

/// Calls `hex::encode`, which writes each byte as two digits out of
/// `0123456789abcdef`, the high half first. Trusted: the text is `hex_text` of
/// the bytes.
#[verifier::external_body]
fn hex_encode(data: &[u8]) -> (text: String)
    ensures
        text@ == hex_text(data@),
{
    hex::encode(data)
}

/// Calls `hex::decode`, which refuses an odd number of bytes and any byte that
/// is not the ASCII code of a hexadecimal digit, and otherwise joins each pair
/// of digits into one byte. Trusted: success exactly on hexadecimal input, and
/// then the bytes it stands for.
#[verifier::external_body]
fn hex_decode(data: &[u8]) -> (r: Result<Vec<u8>, hex::FromHexError>)
    ensures
        r is Ok <==> is_hex(as_chars(data@)),
        r matches Ok(v) ==> v@ == hex_bytes(as_chars(data@)),
{
    hex::decode(data)
}

/// Writes `data` as hexadecimal text: two lower-case digits for each byte,
/// which `from_hex` reads back as `data`.
pub fn to_hex(data: &[u8]) -> (text: String)
    ensures
        text@ == hex_text(data@),
        text@.len() == 2 * data@.len(),
        parsed(text@) == Ok::<Seq<u8>, PasteError>(data@),
{
    proof {
        lemma_hex_round_trip(data@);
    }
    hex_encode(data)
}

/// Reads hexadecimal text.
///
/// Fails with `MalformedEncoding` when the text has an odd number of
/// characters or a character that is no hexadecimal digit.
pub fn from_hex(text: &str) -> (r: Result<Vec<u8>, PasteError>)
    ensures
        match r {
            Ok(bytes) => parsed(text@) == Ok::<Seq<u8>, PasteError>(bytes@),
            Err(e) => parsed(text@) == Err::<Seq<u8>, PasteError>(e),
        },
{
    proof {
        lemma_hex_of_utf8(text@);
    }
    match hex_decode(text.as_bytes()) {
        Ok(bytes) => Ok(bytes),
        Err(_) => Err(PasteError::MalformedEncoding),
    }
}

} // verus!
