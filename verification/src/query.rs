//! Text handed to TMDB: percent-encoded search queries and the shape of an access token.
use vstd::prelude::*;
use vstd::utf8::encode_utf8;

use crate::text::{
    chars_of, control_char, is_unicode_control, is_unicode_whitespace, push_char, whitespace_char,
};
use crate::tv_store::{byte_len, has_control};

verus! {

/// Longest accepted access token, in bytes.
pub const TMDB_TOKEN_MAX_LENGTH: usize = 4096;

/// A byte that a query keeps as it is: an ASCII letter or digit, `-`, `.`, `_` or `~`.
pub open spec fn is_unreserved(b: u8) -> bool {
    (48 <= b <= 57) || (65 <= b <= 90) || (97 <= b <= 122) || b == 45 || b == 46 || b == 95
        || b == 126
}

/// The upper-case hexadecimal digit of a value below 16.
pub open spec fn upper_hex_digit(d: nat) -> char {
    if d < 10 {
        ((48 + d) as u8) as char
    } else {
        ((55 + d) as u8) as char
    }
}

/// The percent-encoding of bytes: unreserved bytes as themselves, every other byte as `%`
/// and two upper-case hexadecimal digits.
pub open spec fn percent_encode(bytes: Seq<u8>) -> Seq<char>
    decreases bytes.len(),
{
    if bytes.len() == 0 {
        Seq::empty()
    } else {
        let b = bytes.last();
        percent_encode(bytes.drop_last()) + if is_unreserved(b) {
            seq![b as char]
        } else {
            seq!['%', upper_hex_digit((b / 16) as nat), upper_hex_digit((b % 16) as nat)]
        }
    }
}

fn upper_hex_digit_exec(d: u8) -> (c: char)
    requires
        d < 16,
    ensures
        c == upper_hex_digit(d as nat),
{
    if d < 10 {
        (48 + d) as char
    } else {
        (55 + d) as char
    }
}

/// Percent-encodes the UTF-8 bytes of a query.
pub fn percent_encode_query(query: &str) -> (encoded: String)
    ensures
        encoded@ == percent_encode(encode_utf8(query@)),
{
    let bytes = query.as_bytes();
    let mut encoded = String::new();
    let mut i: usize = 0;
    while i < bytes.len()
        invariant
            i <= bytes@.len(),
            encoded@ == percent_encode(bytes@.subrange(0, i as int)),
        decreases bytes@.len() - i,
    {
        let b = bytes[i];
        let ghost prefix = bytes@.subrange(0, i as int + 1);
        assert(prefix.drop_last() =~= bytes@.subrange(0, i as int));
        if (48 <= b && b <= 57) || (65 <= b && b <= 90) || (97 <= b && b <= 122) || b == 45 || b
            == 46 || b == 95 || b == 126 {
            push_char(&mut encoded, b as char);
        } else {
            push_char(&mut encoded, '%');
            push_char(&mut encoded, upper_hex_digit_exec(b / 16));
            push_char(&mut encoded, upper_hex_digit_exec(b % 16));
        }
        assert(encoded@ =~= percent_encode(prefix));
        i = i + 1;
    }
    assert(bytes@.subrange(0, bytes@.len() as int) =~= bytes@);
    encoded
}

/// Percent-encodes a TV show search query.
pub fn percent_encode_tv_metadata_query(query: &str) -> (encoded: String)
    ensures
        encoded@ == percent_encode(encode_utf8(query@)),
{
    percent_encode_query(query)
}

/// Percent-encodes a movie search query.
pub fn percent_encode_movie_metadata_query(query: &str) -> (encoded: String)
    ensures
        encoded@ == percent_encode(encode_utf8(query@)),
{
    percent_encode_query(query)
}

/// A TMDB access token as it may be stored: not empty, at most `TMDB_TOKEN_MAX_LENGTH`
/// bytes, no surrounding whitespace and no control character.
pub open spec fn spec_valid_tmdb_token(token: Seq<char>) -> bool {
    &&& token.len() > 0
    &&& byte_len(token) <= TMDB_TOKEN_MAX_LENGTH
    &&& !is_unicode_whitespace(token[0])
    &&& !is_unicode_whitespace(token.last())
    &&& !has_control(token)
}

/// Whether `token` may be stored as a TMDB access token.
pub fn is_valid_tmdb_token(token: &str) -> (b: bool)
    ensures
        b == spec_valid_tmdb_token(token@),
{
    let t = chars_of(token);
    if t.len() == 0 || token.as_bytes().len() > TMDB_TOKEN_MAX_LENGTH || whitespace_char(t[0])
        || whitespace_char(t[t.len() - 1]) {
        return false;
    }
    let mut i: usize = 0;
    while i < t.len()
        invariant
            i <= t@.len(),
            t@ == token@,
            forall|k: int| 0 <= k < i ==> !#[trigger] is_unicode_control(t@[k]),
        decreases t@.len() - i,
    {
        if control_char(t[i]) {
            assert(is_unicode_control(token@[i as int]));
            return false;
        }
        i = i + 1;
    }
    true
}

} // verus!
