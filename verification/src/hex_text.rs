//! Bytes written as hexadecimal text, through the `hex` crate.
use vstd::prelude::*;

verus! {

/// The lower-case digit that stands for `n`, for `n` below sixteen.
pub open spec fn hex_digit(n: int) -> char {
    if n < 10 {
        (n + '0' as int) as char
    } else {
        (n - 10 + 'a' as int) as char
    }
}

/// The text of `data`: two lower-case digits for each byte, the high half first.
pub open spec fn hex_encoded(data: Seq<u8>) -> Seq<char> {
    Seq::new(
        2 * data.len(),
        |i: int|
            if i % 2 == 0 {
                hex_digit(data[i / 2] as int / 16)
            } else {
                hex_digit(data[i / 2] as int % 16)
            },
    )
}

/// What the character `c` stands for, if it is a hexadecimal digit of either case.
pub open spec fn hex_value(c: char) -> Option<int> {
    if '0' <= c <= '9' {
        Some(c as int - '0' as int)
    } else if 'a' <= c <= 'f' {
        Some(c as int - 'a' as int + 10)
    } else if 'A' <= c <= 'F' {
        Some(c as int - 'A' as int + 10)
    } else {
        None
    }
}

/// A text of hexadecimal digits, an even number of them.
pub open spec fn is_hex(text: Seq<char>) -> bool {
    &&& text.len() % 2 == 0
    &&& forall|i: int| 0 <= i < text.len() ==> hex_value(#[trigger] text[i]) is Some
}

/// The bytes that a text of hexadecimal digits stands for.
pub open spec fn hex_decoded(text: Seq<char>) -> Seq<u8>
    recommends
        is_hex(text),
{
    Seq::new(
        (text.len() / 2) as nat,
        |i: int| (hex_value(text[2 * i])->0 * 16 + hex_value(text[2 * i + 1])->0) as u8,
    )
}

/// The error of `hex::decode`, opaque here.
#[verifier::external_type_specification]
#[verifier::external_body]
pub struct ExFromHexError(hex::FromHexError);

/// Calls `hex::encode`: lower-case digits, two for each byte.
#[verifier::external_body]
pub(crate) fn encode(data: &[u8]) -> (text: String)
    ensures
        text@ == hex_encoded(data@),
{
    hex::encode(data)
}

/// Calls `hex::decode`: succeeds exactly on an even number of hexadecimal digits, of
/// either case, and returns the bytes they stand for.
#[verifier::external_body]
pub(crate) fn decode(text: &str) -> (bytes: Result<Vec<u8>, hex::FromHexError>)
    ensures
        bytes is Ok <==> is_hex(text@),
        bytes matches Ok(b) ==> b@ == hex_decoded(text@),
{
    hex::decode(text)
}

/// Text made from bytes decodes, and decodes to those bytes.
pub proof fn law_hex_reads_back(data: Seq<u8>)
    ensures
        is_hex(hex_encoded(data)),
        hex_decoded(hex_encoded(data)) == data,
{
    let text = hex_encoded(data);
    assert forall|i: int| 0 <= i < text.len() implies hex_value(#[trigger] text[i]) is Some by {
        let b = data[i / 2] as int;
        assert(0 <= b / 16 < 16 && 0 <= b % 16 < 16);
    }
    assert forall|i: int| 0 <= i < data.len() implies hex_decoded(text)[i] == data[i] by {
        let b = data[i] as int;
        assert((2 * i) / 2 == i && (2 * i + 1) / 2 == i);
        assert(0 <= b / 16 < 16 && 0 <= b % 16 < 16);
        assert(hex_value(text[2 * i]) == Some(b / 16));
        assert(hex_value(text[2 * i + 1]) == Some(b % 16));
    }
    assert(hex_decoded(text) =~= data);
}

/// The hexadecimal digits and what they stand for; two of them, the high half first, write a
/// byte.
pub proof fn law_hex_digits(c: char, data: Seq<u8>, i: int)
    ensures
        hex_value(c) is Some <==> ('0' <= c <= '9' || 'a' <= c <= 'f' || 'A' <= c <= 'F'),
        '0' <= c <= '9' ==> hex_value(c) == Some(c as int - 48),
        'a' <= c <= 'f' ==> hex_value(c) == Some(c as int - 87),
        'A' <= c <= 'F' ==> hex_value(c) == Some(c as int - 55),
        hex_encoded(data).len() == 2 * data.len(),
        0 <= i < data.len() ==> {
            let high = hex_encoded(data)[2 * i];
            let low = hex_encoded(data)[2 * i + 1];
            &&& hex_value(high) is Some && hex_value(low) is Some
            &&& hex_value(high)->0 * 16 + hex_value(low)->0 == data[i]
            &&& !('A' <= high <= 'F') && !('A' <= low <= 'F')
        },
{
    if 0 <= i < data.len() {
        let b = data[i] as int;
        assert((2 * i) / 2 == i && (2 * i + 1) / 2 == i);
        assert((2 * i) % 2 == 0 && (2 * i + 1) % 2 == 1);
        assert(0 <= b / 16 < 16 && 0 <= b % 16 < 16);
        assert(hex_encoded(data)[2 * i] == hex_digit(b / 16));
        assert(hex_encoded(data)[2 * i + 1] == hex_digit(b % 16));
    }
}

} // verus!
