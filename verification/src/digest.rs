//! SHA-1 identities, written as lower-case hexadecimal.
use sha1::Digest;
use vstd::prelude::*;

use vstd::utf8::{encode_utf8, is_ascii_chars, is_ascii_chars_encode_utf8};

use crate::hex::{encode_hex_bytes, hex_encode, is_hex_digit, lemma_hex_encode_decode};

verus! {

/// The SHA-1 digest of `data`.
pub uninterp spec fn sha1_digest(data: Seq<u8>) -> Seq<u8>;

/// Calls `sha1::Sha1::digest`. The contract names its result `sha1_digest(data)`; the
/// digest type of the crate holds 20 bytes.
#[verifier::external_body]
fn sha1_bytes(data: &[u8]) -> (digest: Vec<u8>)
    ensures
        digest@ == sha1_digest(data@),
        digest@.len() == 20,
{
    sha1::Sha1::digest(data).to_vec()
}

/// The lower-case hexadecimal SHA-1 digest of `data` (40 characters).
pub open spec fn spec_hex_sha1(data: Seq<u8>) -> Seq<char> {
    hex_encode(sha1_digest(data))
}

/// The lower-case hexadecimal SHA-1 digest of `data`.
pub fn hex_sha1(data: &[u8]) -> (digest: String)
    ensures
        digest@ == spec_hex_sha1(data@),
        digest@.len() == 40,
{
    let bytes = sha1_bytes(data);
    proof {
        lemma_hex_encode_decode(bytes@);
    }
    encode_hex_bytes(&bytes)
}

/// Lower-case hexadecimal text is ASCII, so each of its characters is one UTF-8 byte, none of
/// them a newline.
pub proof fn lemma_hex_bytes(bytes: Seq<u8>)
    ensures
        encode_utf8(hex_encode(bytes)).len() == hex_encode(bytes).len(),
        forall|i: int|
            0 <= i < encode_utf8(hex_encode(bytes)).len() ==> #[trigger] encode_utf8(
                hex_encode(bytes),
            )[i] != 10u8,
{
    let t = hex_encode(bytes);
    lemma_hex_encode_decode(bytes);
    assert(is_ascii_chars(t)) by {
        assert forall|i: int| 0 <= i < t.len() implies '\0' <= #[trigger] t[i] <= '\u{7f}' by {
            assert(is_hex_digit(t[i]));
        }
    }
    is_ascii_chars_encode_utf8(t);
    assert forall|i: int| 0 <= i < encode_utf8(t).len() implies #[trigger] encode_utf8(t)[i]
        != 10u8 by {
        assert(is_hex_digit(t[i]));
        assert(t[i] as u8 == encode_utf8(t)[i]);
    }
}

} // verus!
