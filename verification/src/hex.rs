//! Lower-case hexadecimal text for the UTF-8 bytes of a string, as the stores write it.
use vstd::prelude::*;
use vstd::utf8::{decode_utf8, encode_utf8, valid_utf8};

use crate::text::{chars_of, push_char};

verus! {

/// The lower-case hexadecimal digit of a value below 16.
pub open spec fn hex_digit(d: nat) -> char {
    if d < 10 {
        crate::text::digit_to_char(d)
    } else if d == 10 {
        'a'
    } else if d == 11 {
        'b'
    } else if d == 12 {
        'c'
    } else if d == 13 {
        'd'
    } else if d == 14 {
        'e'
    } else {
        'f'
    }
}

/// Two lower-case hexadecimal digits per byte.
pub open spec fn hex_encode(bytes: Seq<u8>) -> Seq<char>
    decreases bytes.len(),
{
    if bytes.len() == 0 {
        Seq::empty()
    } else {
        hex_encode(bytes.drop_last()) + seq![
            hex_digit((bytes.last() / 16) as nat),
            hex_digit((bytes.last() % 16) as nat),
        ]
    }
}

/// The hexadecimal text of the UTF-8 bytes of `s`.
pub open spec fn hex_text(s: Seq<char>) -> Seq<char> {
    hex_encode(encode_utf8(s))
}

pub open spec fn is_hex_digit(c: char) -> bool {
    ('0' <= c && c <= '9') || ('a' <= c && c <= 'f') || ('A' <= c && c <= 'F')
}

/// The value of a hexadecimal digit of either case.
pub open spec fn hex_value(c: char) -> nat {
    if '0' <= c && c <= '9' {
        (c as int - '0' as int) as nat
    } else if 'a' <= c && c <= 'f' {
        (c as int - 'a' as int + 10) as nat
    } else {
        (c as int - 'A' as int + 10) as nat
    }
}

/// The bytes written by an even number of hexadecimal digits.
pub open spec fn hex_decode(t: Seq<char>) -> Seq<u8>
    decreases t.len(),
{
    if t.len() < 2 {
        Seq::empty()
    } else {
        hex_decode(t.subrange(0, t.len() - 2)).push(
            (hex_value(t[t.len() - 2]) * 16 + hex_value(t[t.len() - 1])) as u8,
        )
    }
}

/// The string whose UTF-8 bytes `t` writes in hexadecimal: `t` must be an even number of
/// hexadecimal digits of either case, and the bytes must be valid UTF-8.
pub open spec fn spec_decode_hex_text(t: Seq<char>) -> Option<Seq<char>> {
    if t.len() % 2 != 0 || !(forall|i: int| 0 <= i < t.len() ==> #[trigger] is_hex_digit(t[i])) {
        None
    } else if valid_utf8(hex_decode(t)) {
        Some(decode_utf8(hex_decode(t)))
    } else {
        None
    }
}

fn hex_digit_exec(d: u8) -> (c: char)
    requires
        d < 16,
    ensures
        c == hex_digit(d as nat),
{
    if d < 10 {
        crate::text::digit_to_char_exec(d as u64)
    } else if d == 10 {
        'a'
    } else if d == 11 {
        'b'
    } else if d == 12 {
        'c'
    } else if d == 13 {
        'd'
    } else if d == 14 {
        'e'
    } else {
        'f'
    }
}

/// Writes bytes as lower-case hexadecimal text, two digits per byte.
pub fn encode_hex_bytes(bytes: &[u8]) -> (encoded: String)
    ensures
        encoded@ == hex_encode(bytes@),
{
    let mut encoded = String::new();
    let mut i: usize = 0;
    while i < bytes.len()
        invariant
            i <= bytes@.len(),
            encoded@ == hex_encode(bytes@.subrange(0, i as int)),
        decreases bytes@.len() - i,
    {
        let byte = bytes[i];
        push_char(&mut encoded, hex_digit_exec(byte / 16));
        push_char(&mut encoded, hex_digit_exec(byte % 16));
        assert(bytes@.subrange(0, i + 1).drop_last() =~= bytes@.subrange(0, i as int));
        i = i + 1;
        assert(encoded@ =~= hex_encode(bytes@.subrange(0, i as int)));
    }
    assert(bytes@.subrange(0, bytes@.len() as int) =~= bytes@);
    encoded
}

/// Writes the UTF-8 bytes of `value` as lower-case hexadecimal text.
pub fn encode_hex_text(value: &str) -> (encoded: String)
    ensures
        encoded@ == hex_text(value@),
{
    encode_hex_bytes(value.as_bytes())
}

/// Calls `String::from_utf8`: the bytes become a string exactly when they are valid UTF-8,
/// and the string holds the characters they encode.
#[verifier::external_body]
pub(crate) fn string_from_utf8(bytes: Vec<u8>) -> (text: Option<String>)
    ensures
        text is Some <==> valid_utf8(bytes@),
        text matches Some(s) ==> s@ == decode_utf8(bytes@),
{
    String::from_utf8(bytes).ok()
}

fn hex_digit_char(c: char) -> (b: bool)
    ensures
        b == is_hex_digit(c),
{
    ('0' <= c && c <= '9') || ('a' <= c && c <= 'f') || ('A' <= c && c <= 'F')
}

fn hex_value_exec(c: char) -> (v: u8)
    requires
        is_hex_digit(c),
    ensures
        v == hex_value(c),
        v < 16,
{
    if '0' <= c && c <= '9' {
        (c as u32 - '0' as u32) as u8
    } else if 'a' <= c && c <= 'f' {
        (c as u32 - 'a' as u32 + 10) as u8
    } else {
        (c as u32 - 'A' as u32 + 10) as u8
    }
}

/// Reads hexadecimal text back into the string whose UTF-8 bytes it writes.
pub fn decode_hex_text(value: &str) -> (decoded: Option<String>)
    ensures
        match decoded {
            Some(s) => spec_decode_hex_text(value@) == Some(s@),
            None => spec_decode_hex_text(value@) is None,
        },
{
    let t = chars_of(value);
    decode_hex_chars(&t)
}

/// Reads hexadecimal text, given as characters, back into a string.
pub fn decode_hex_chars(t: &[char]) -> (decoded: Option<String>)
    ensures
        match decoded {
            Some(s) => spec_decode_hex_text(t@) == Some(s@),
            None => spec_decode_hex_text(t@) is None,
        },
{
    if t.len() % 2 != 0 {
        return None;
    }
    let mut i: usize = 0;
    while i < t.len()
        invariant
            i <= t@.len(),
            forall|k: int| 0 <= k < i ==> #[trigger] is_hex_digit(t@[k]),
        decreases t@.len() - i,
    {
        if !hex_digit_char(t[i]) {
            assert(!is_hex_digit(t@[i as int]));
            return None;
        }
        i = i + 1;
    }
    let mut bytes: Vec<u8> = Vec::new();
    let mut j: usize = 0;
    while j < t.len()
        invariant
            j <= t@.len(),
            j % 2 == 0,
            t@.len() % 2 == 0,
            forall|k: int| 0 <= k < t@.len() ==> #[trigger] is_hex_digit(t@[k]),
            bytes@ == hex_decode(t@.subrange(0, j as int)),
        decreases t@.len() - j,
    {
        let high = hex_value_exec(t[j]);
        let low = hex_value_exec(t[j + 1]);
        bytes.push(high * 16 + low);
        assert(t@.subrange(0, j + 2).subrange(0, j as int) =~= t@.subrange(0, j as int));
        j = j + 2;
    }
    assert(t@.subrange(0, t@.len() as int) =~= t@);
    string_from_utf8(bytes)
}


proof fn lemma_hex_digit_value(d: nat)
    requires
        d < 16,
    ensures
        is_hex_digit(hex_digit(d)),
        hex_value(hex_digit(d)) == d,
{
}

/// Hexadecimal text is twice as long as its bytes, holds only hexadecimal digits, and decodes
/// back to the bytes.
pub proof fn lemma_hex_encode_decode(bytes: Seq<u8>)
    ensures
        hex_encode(bytes).len() == 2 * bytes.len(),
        forall|i: int| 0 <= i < hex_encode(bytes).len() ==> #[trigger] is_hex_digit(hex_encode(bytes)[i]),
        hex_decode(hex_encode(bytes)) == bytes,
    decreases bytes.len(),
{
    if bytes.len() > 0 {
        let rest = bytes.drop_last();
        let last = bytes.last();
        lemma_hex_encode_decode(rest);
        lemma_hex_digit_value((last / 16) as nat);
        lemma_hex_digit_value((last % 16) as nat);
        let t = hex_encode(bytes);
        assert(t.subrange(0, t.len() - 2) =~= hex_encode(rest));
        assert forall|i: int| 0 <= i < t.len() implies #[trigger] is_hex_digit(t[i]) by {
            if i < t.len() - 2 {
                assert(t[i] == hex_encode(rest)[i]);
            }
        }
        assert(hex_decode(t) =~= bytes);
    }
}

/// Decoding the hexadecimal text of a string gives the string back.
pub proof fn lemma_hex_text_round_trip(s: Seq<char>)
    ensures
        spec_decode_hex_text(hex_text(s)) == Some(s),
{
    let bytes = encode_utf8(s);
    lemma_hex_encode_decode(bytes);
    vstd::utf8::encode_utf8_valid_utf8(s);
    vstd::utf8::encode_utf8_decode_utf8(s);
    assert(hex_text(s).len() % 2 == 0);
}

} // verus!
