//! TMDB card covers: which requests are well formed, the poster URL a request may fetch, the
//! raster dimensions a cover must have, and how the transport's output is read.
use vstd::prelude::*;
use vstd::utf8::{decode_utf8, valid_utf8};

use crate::library_scan::{ascii_lower, ascii_lower_char, eq_ignore_ascii_case};
use crate::provider::ProviderRequestError;
use crate::text::{chars_of, decimal_string, decimal_string_of, parse_unsigned, spec_parse_unsigned};
use crate::tv_scan::owned;
use crate::tv_store::{optional_text, optional_view};
use crate::digest::{hex_sha1, spec_hex_sha1};
use vstd::utf8::encode_utf8;

verus! {

pub const TMDB_COVER_FAILED: &'static str = "tmdb_cover_failed";

pub const TMDB_COVER_STALE: &'static str = "tmdb_cover_stale";

/// Largest accepted cover, in bytes.
pub const COVER_MAX_BYTES: usize = 16777216;

/// Smallest accepted cover, in bytes.
pub const COVER_MIN_BYTES: usize = 64;

/// Largest accepted width or height of a cover.
pub const MAX_DIMENSION: u32 = 16384;

/// Largest TMDB id (the largest integer a JavaScript number holds exactly).
pub const MAX_TMDB_ID: u64 = 9007199254740991;

/// What a cover is for.
#[derive(Clone, Copy, Debug, PartialEq, Eq, Hash, Structural)]
pub enum TmdbCoverCategory {
    Movie,
    Tv,
}

impl TmdbCoverCategory {
    pub open spec fn text(self) -> Seq<char> {
        match self {
            TmdbCoverCategory::Movie => "movie"@,
            TmdbCoverCategory::Tv => "tv"@,
        }
    }

    /// The category that `value` names, if any.
    pub fn parse(value: &str) -> (category: Option<Self>)
        ensures
            match category {
                Some(c) => c.text() == value@,
                None => value@ != "movie"@ && value@ != "tv"@,
            },
    {
        proof {
            reveal_strlit("movie");
            reveal_strlit("tv");
        }
        if crate::text::same_text(value, "movie") {
            Some(TmdbCoverCategory::Movie)
        } else if crate::text::same_text(value, "tv") {
            Some(TmdbCoverCategory::Tv)
        } else {
            None
        }
    }

    pub fn as_str(self) -> (text: &'static str)
        ensures
            text@ == self.text(),
    {
        match self {
            TmdbCoverCategory::Movie => "movie",
            TmdbCoverCategory::Tv => "tv",
        }
    }
}

/// Where a cover is shown.
#[derive(Clone, Copy, Debug, PartialEq, Eq, Hash, Structural)]
pub enum TmdbCoverSurface {
    Discover,
    Library,
}

impl TmdbCoverSurface {
    pub open spec fn text(self) -> Seq<char> {
        match self {
            TmdbCoverSurface::Discover => "discover"@,
            TmdbCoverSurface::Library => "library"@,
        }
    }

    /// The surface that `value` names, if any.
    pub fn parse(value: &str) -> (surface: Option<Self>)
        ensures
            match surface {
                Some(s) => s.text() == value@,
                None => value@ != "discover"@ && value@ != "library"@,
            },
    {
        proof {
            reveal_strlit("discover");
            reveal_strlit("library");
        }
        if crate::text::same_text(value, "discover") {
            Some(TmdbCoverSurface::Discover)
        } else if crate::text::same_text(value, "library") {
            Some(TmdbCoverSurface::Library)
        } else {
            None
        }
    }

    pub fn as_str(self) -> (text: &'static str)
        ensures
            text@ == self.text(),
    {
        match self {
            TmdbCoverSurface::Discover => "discover",
            TmdbCoverSurface::Library => "library",
        }
    }
}

/// A request for the cover of a TMDB movie or show, on a surface, for a client context and
/// request generation; a library request also names the library item and the generations of
/// its association and scan.
#[derive(Clone, Debug, PartialEq, Eq)]
pub struct TmdbCoverRequest {
    pub category: TmdbCoverCategory,
    pub surface: TmdbCoverSurface,
    pub tmdb_id: u64,
    pub poster_path: Option<String>,
    pub context_generation: u64,
    pub request_generation: u64,
    pub library_item_id: Option<String>,
    pub association_generation: Option<u64>,
    pub scan_generation: Option<u64>,
}

/// A lower-case hexadecimal digit.
pub open spec fn is_lower_hex(c: char) -> bool {
    ('0' <= c && c <= '9') || ('a' <= c && c <= 'f')
}

/// A library item id: forty lower-case hexadecimal digits.
pub open spec fn spec_valid_library_item_id(value: Seq<char>) -> bool {
    value.len() == 40 && forall|i: int| 0 <= i < 40 ==> #[trigger] is_lower_hex(value[i])
}

/// Whether `value` is a library item id.
pub fn valid_library_item_id(value: &str) -> (b: bool)
    ensures
        b == spec_valid_library_item_id(value@),
{
    let t = chars_of(value);
    if t.len() != 40 {
        return false;
    }
    let mut i: usize = 0;
    while i < 40
        invariant
            i <= 40,
            t@ == value@,
            t@.len() == 40,
            forall|k: int| 0 <= k < i ==> #[trigger] is_lower_hex(t@[k]),
        decreases 40 - i,
    {
        let c = t[i];
        if !(('0' <= c && c <= '9') || ('a' <= c && c <= 'f')) {
            assert(!is_lower_hex(value@[i as int]));
            return false;
        }
        i = i + 1;
    }
    true
}

/// A character a TMDB poster path may hold: an ASCII letter or digit, `/`, `-`, `_` or `.`.
pub open spec fn is_poster_char(c: char) -> bool {
    ('a' <= c && c <= 'z') || ('A' <= c && c <= 'Z') || ('0' <= c && c <= '9') || c == '/' || c
        == '-' || c == '_' || c == '.'
}

/// Whether `t` ends with the lower-case `suffix`, ignoring ASCII case.
pub open spec fn ends_with_ignoring_case(t: Seq<char>, suffix: Seq<char>) -> bool {
    t.len() >= suffix.len() && eq_ignore_ascii_case(
        t.subrange(t.len() - suffix.len(), t.len() as int),
        suffix,
    )
}

/// Whether `t` holds two dots in a row.
pub open spec fn has_double_dot(t: Seq<char>) -> bool {
    exists|i: int| 0 <= i < t.len() - 1 && #[trigger] t[i] == '.' && t[i + 1] == '.'
}

/// A TMDB poster path that may be fetched: 2 to 1024 characters of the poster alphabet
/// (so ASCII, and as many bytes), starting with one `/` (not two), without `..`, and ending
/// with `.jpg`, `.jpeg`, `.png` or `.webp` in any case.
pub open spec fn spec_poster_path_ok(t: Seq<char>) -> bool {
    &&& 2 <= t.len() <= 1024
    &&& forall|i: int| 0 <= i < t.len() ==> #[trigger] is_poster_char(t[i])
    &&& t[0] == '/'
    &&& t[1] != '/'
    &&& !has_double_dot(t)
    &&& (ends_with_ignoring_case(t, ".jpg"@) || ends_with_ignoring_case(t, ".jpeg"@)
        || ends_with_ignoring_case(t, ".png"@) || ends_with_ignoring_case(t, ".webp"@))
}

/// The base of every poster URL.
pub open spec fn tmdb_image_base() -> Seq<char> {
    "https://image.tmdb.org/t/p/w500"@
}

/// The URL of a poster path: the image base followed by the path, when the path may be
/// fetched.
pub open spec fn spec_tmdb_poster_url(path: Seq<char>) -> Option<Seq<char>> {
    if spec_poster_path_ok(path) {
        Some(tmdb_image_base() + path)
    } else {
        None
    }
}

fn ends_with_ignoring_case_exec(t: &Vec<char>, suffix: &str) -> (b: bool)
    ensures
        b == ends_with_ignoring_case(t@, suffix@),
{
    let s = chars_of(suffix);
    if t.len() < s.len() {
        return false;
    }
    let start = t.len() - s.len();
    let ghost tail = t@.subrange(start as int, t@.len() as int);
    let mut i: usize = 0;
    while i < s.len()
        invariant
            s@ == suffix@,
            start + s@.len() == t@.len(),
            t@.len() <= usize::MAX,
            tail == t@.subrange(start as int, t@.len() as int),
            i <= s@.len(),
            forall|k: int| 0 <= k < i ==> #[trigger] ascii_lower(tail[k]) == s@[k],
        decreases s@.len() - i,
    {
        let c = t[start + i];
        let lower = ascii_lower_char(c);
        assert(tail[i as int] == c);
        if lower != s[i] {
            return false;
        }
        i = i + 1;
    }
    true
}

/// The URL of a poster path, when the path may be fetched.
pub fn tmdb_poster_url(path: &str) -> (url: Option<String>)
    ensures
        optional_view(url) == spec_tmdb_poster_url(path@),
{
    let t = chars_of(path);
    if t.len() < 2 || t.len() > 1024 || t[0] != '/' || t[1] == '/' {
        return None;
    }
    let mut i: usize = 0;
    while i < t.len()
        invariant
            t@ == path@,
            2 <= t@.len() <= 1024,
            i <= t@.len(),
            forall|k: int| 0 <= k < i ==> #[trigger] is_poster_char(t@[k]),
            forall|k: int| 0 <= k < i - 1 ==> !(#[trigger] t@[k] == '.' && t@[k + 1] == '.'),
        decreases t@.len() - i,
    {
        let c = t[i];
        if !(('a' <= c && c <= 'z') || ('A' <= c && c <= 'Z') || ('0' <= c && c <= '9') || c == '/'
            || c == '-' || c == '_' || c == '.') {
            assert(!is_poster_char(path@[i as int]));
            return None;
        }
        if i > 0 && c == '.' && t[i - 1] == '.' {
            assert(has_double_dot(path@)) by {
                assert(path@[i - 1] == '.' && path@[i - 1 + 1] == '.');
            }
            return None;
        }
        i = i + 1;
    }
    proof {
        reveal_strlit(".jpg");
        reveal_strlit(".jpeg");
        reveal_strlit(".png");
        reveal_strlit(".webp");
    }
    if !(ends_with_ignoring_case_exec(&t, ".jpg") || ends_with_ignoring_case_exec(&t, ".jpeg")
        || ends_with_ignoring_case_exec(&t, ".png") || ends_with_ignoring_case_exec(&t, ".webp")) {
        return None;
    }
    let mut url = owned("https://image.tmdb.org/t/p/w500");
    crate::text::push_str(&mut url, path);
    Some(url)
}

/// Whether a request is well formed: a TMDB id within range, context and request generations,
/// a poster path that may be fetched when there is one; a discover request names no library
/// item, a library request names a valid item and positive association and scan
/// generations.
pub open spec fn spec_request_valid(request: TmdbCoverRequest) -> bool {
    &&& request.tmdb_id != 0
    &&& request.tmdb_id <= MAX_TMDB_ID
    &&& request.context_generation != 0
    &&& request.request_generation != 0
    &&& (request.poster_path matches Some(p) ==> spec_poster_path_ok(p@))
    &&& match request.surface {
        TmdbCoverSurface::Discover => request.library_item_id is None
            && request.association_generation is None && request.scan_generation is None,
        TmdbCoverSurface::Library => (request.library_item_id matches Some(id)
            && spec_valid_library_item_id(id@)) && (request.association_generation matches Some(
            g,
        ) && g > 0) && (request.scan_generation matches Some(g) && g > 0),
    }
}

/// The slot a request occupies: one current request per category, surface and item (the
/// library item, or else the TMDB id).
#[derive(Clone, Debug, PartialEq, Eq, Hash)]
pub struct RequestSlot {
    pub category: TmdbCoverCategory,
    pub surface: TmdbCoverSurface,
    pub stable_id: String,
}

/// The stable id of a request's slot.
pub open spec fn stable_id(request: TmdbCoverRequest) -> Seq<char> {
    match request.library_item_id {
        Some(id) => id@,
        None => decimal_string(request.tmdb_id as nat),
    }
}

impl TmdbCoverRequest {
    /// Whether the request is well formed.
    pub fn validate(&self) -> (valid: bool)
        ensures
            valid == spec_request_valid(*self),
    {
        if self.tmdb_id == 0 || self.tmdb_id > MAX_TMDB_ID || self.context_generation == 0
            || self.request_generation == 0 {
            return false;
        }
        match &self.poster_path {
            Some(path) => {
                if tmdb_poster_url(path.as_str()).is_none() {
                    return false;
                }
            },
            None => {},
        }
        match self.surface {
            TmdbCoverSurface::Discover => self.library_item_id.is_none()
                && self.association_generation.is_none() && self.scan_generation.is_none(),
            TmdbCoverSurface::Library => {
                let item_ok = match &self.library_item_id {
                    Some(id) => valid_library_item_id(id.as_str()),
                    None => false,
                };
                let association_ok = match self.association_generation {
                    Some(g) => g > 0,
                    None => false,
                };
                let scan_ok = match self.scan_generation {
                    Some(g) => g > 0,
                    None => false,
                };
                item_ok && association_ok && scan_ok
            },
        }
    }

    /// The slot the request occupies.
    pub fn slot(&self) -> (slot: RequestSlot)
        ensures
            slot.category == self.category,
            slot.surface == self.surface,
            slot.stable_id@ == stable_id(*self),
    {
        RequestSlot {
            category: self.category,
            surface: self.surface,
            stable_id: match &self.library_item_id {
                Some(id) => id.clone(),
                None => decimal_string_of(self.tmdb_id),
            },
        }
    }
}

/// A big-endian 16-bit value.
pub open spec fn be16(a: u8, b: u8) -> nat {
    (a as nat) * 256 + (b as nat)
}

/// A big-endian 32-bit value.
pub open spec fn be32(a: u8, b: u8, c: u8, d: u8) -> nat {
    (a as nat) * 16777216 + (b as nat) * 65536 + (c as nat) * 256 + (d as nat)
}

/// A little-endian 24-bit value.
pub open spec fn le24(a: u8, b: u8, c: u8) -> nat {
    (a as nat) + (b as nat) * 256 + (c as nat) * 65536
}

/// A JPEG start-of-frame marker, which carries the image's dimensions.
pub open spec fn is_start_of_frame(m: u8) -> bool {
    m == 0xc0 || m == 0xc1 || m == 0xc2 || m == 0xc3 || m == 0xc5 || m == 0xc6 || m == 0xc7 || m
        == 0xc9 || m == 0xca || m == 0xcb || m == 0xcd || m == 0xce || m == 0xcf
}

/// The dimensions (width, height) that the JPEG segments from `offset` give: bytes other than
/// `0xff` are skipped; the markers `0xd8`, `0xd9` and `0x01` have no length; any other
/// segment has a big-endian length of at least 2 that must fit; the first start-of-frame
/// segment of at least 7 bytes gives the height and width that follow its precision byte.
/// The walk stops, with nothing, once fewer than ten bytes are left.
pub open spec fn jpeg_dimensions(b: Seq<u8>, offset: int) -> Option<(nat, nat)>
    decreases b.len() - offset,
{
    if offset < 0 || offset + 9 >= b.len() {
        None
    } else if b[offset] != 0xff {
        jpeg_dimensions(b, offset + 1)
    } else {
        let marker = b[offset + 1];
        let o = offset + 2;
        if marker == 0xd8 || marker == 0xd9 || marker == 0x01 {
            jpeg_dimensions(b, o)
        } else {
            let length = be16(b[o], b[o + 1]);
            if length < 2 || o + length > b.len() {
                None
            } else if is_start_of_frame(marker) && length >= 7 {
                Some((be16(b[o + 5], b[o + 6]), be16(b[o + 3], b[o + 4])))
            } else {
                jpeg_dimensions(b, o + length)
            }
        }
    }
}

/// A JPEG frame marker: baseline (0xc0), extended (0xc1), progressive (0xc2), lossless
/// (0xc3), their differential (0xc5 to 0xc7) and arithmetic-coded (0xc9 to 0xcb, 0xcd to
/// 0xcf) forms.
pub open spec fn jpeg_frame_marker(m: u8) -> bool {
    ||| m == 0xc0u8
    ||| m == 0xc1u8
    ||| m == 0xc2u8
    ||| m == 0xc3u8
    ||| 0xc5u8 <= m <= 0xc7u8
    ||| 0xc9u8 <= m <= 0xcbu8
    ||| 0xcdu8 <= m <= 0xcfu8
}

/// A JPEG whose first segment is a frame of at least seven bytes that fits the image gives
/// the width and height that segment records (big-endian, height first): a baseline,
/// progressive or any other frame kind alike.
pub proof fn law_jpeg_first_frame_dimensions(b: Seq<u8>)
    requires
        b.len() >= 12,
        b[0] == 0xffu8,
        b[1] == 0xd8u8,
        b[2] == 0xffu8,
        jpeg_frame_marker(b[3]),
        7 <= (b[4] as int) * 256 + (b[5] as int),
        4 + (b[4] as int) * 256 + (b[5] as int) <= b.len(),
    ensures
        spec_image_dimensions(b) == Some(
            (((b[9] as int) * 256 + (b[10] as int)) as nat, ((b[7] as int) * 256 + (b[8] as int)) as nat),
        ),
{
    assert(b.subrange(0, 3) =~= seq![0xffu8, 0xd8, 0xff]);
    assert(is_start_of_frame(b[3]));
}

/// A PNG gives the width and height its header chunk records, big-endian at bytes 16 and 20.
pub proof fn law_png_dimensions(b: Seq<u8>)
    requires
        b.len() >= 24,
        b.subrange(0, 8) == seq![0x89u8, 0x50, 0x4e, 0x47, 0x0d, 0x0a, 0x1a, 0x0a],
    ensures
        spec_image_dimensions(b) == Some(
            (
                ((b[16] as int) * 16777216 + (b[17] as int) * 65536 + (b[18] as int) * 256 + (
                b[19] as int)) as nat,
                ((b[20] as int) * 16777216 + (b[21] as int) * 65536 + (b[22] as int) * 256 + (
                b[23] as int)) as nat,
            ),
        ),
{
    assert(b[0] == 0x89u8);
    assert(!starts_with_bytes(b, seq![0xffu8, 0xd8, 0xff])) by {
        assert(b.subrange(0, 3)[0] == b[0]);
    }
}

/// An extended WebP gives one more than the 24-bit little-endian width and height its VP8X
/// chunk records at bytes 24 and 27.
pub proof fn law_webp_extended_dimensions(b: Seq<u8>)
    requires
        b.len() >= 30,
        b.subrange(0, 4) == seq![0x52u8, 0x49, 0x46, 0x46],
        b.subrange(8, 12) == seq![0x57u8, 0x45, 0x42, 0x50],
        b.subrange(12, 16) == seq![0x56u8, 0x50, 0x38, 0x58],
    ensures
        spec_image_dimensions(b) == Some(
            (
                (1 + (b[24] as int) + (b[25] as int) * 256 + (b[26] as int) * 65536) as nat,
                (1 + (b[27] as int) + (b[28] as int) * 256 + (b[29] as int) * 65536) as nat,
            ),
        ),
{
    assert(b[0] == 0x52u8) by {
        assert(b.subrange(0, 4)[0] == b[0]);
    }
    assert(!starts_with_bytes(b, seq![0xffu8, 0xd8, 0xff])) by {
        assert(b.subrange(0, 3)[0] == b[0]);
    }
    assert(!starts_with_bytes(b, seq![0x89u8, 0x50, 0x4e, 0x47, 0x0d, 0x0a, 0x1a, 0x0a])) by {
        assert(b.subrange(0, 8)[0] == b[0]);
    }
}

/// Whether `b` starts with `prefix`.
pub open spec fn starts_with_bytes(b: Seq<u8>, prefix: Seq<u8>) -> bool {
    b.len() >= prefix.len() && b.subrange(0, prefix.len() as int) == prefix
}

/// The dimensions (width, height) of a JPEG, PNG or WebP (extended or lossless) image, read
/// from its header.
pub open spec fn spec_image_dimensions(b: Seq<u8>) -> Option<(nat, nat)> {
    if starts_with_bytes(b, seq![0xffu8, 0xd8, 0xff]) {
        jpeg_dimensions(b, 2)
    } else if starts_with_bytes(b, seq![0x89u8, 0x50, 0x4e, 0x47, 0x0d, 0x0a, 0x1a, 0x0a])
        && b.len() >= 24 {
        Some((be32(b[16], b[17], b[18], b[19]), be32(b[20], b[21], b[22], b[23])))
    } else if starts_with_bytes(b, seq![0x52u8, 0x49, 0x46, 0x46]) && b.len() >= 12
        && b.subrange(8, 12) == seq![0x57u8, 0x45, 0x42, 0x50] {
        if b.len() >= 30 && b.subrange(12, 16) == seq![0x56u8, 0x50, 0x38, 0x58] {
            Some((1 + le24(b[24], b[25], b[26]), 1 + le24(b[27], b[28], b[29])))
        } else if b.len() >= 25 && b.subrange(12, 16) == seq![0x56u8, 0x50, 0x38, 0x4c] {
            let bits = be32(b[24], b[23], b[22], b[21]);
            Some((bits % 16384 + 1, (bits / 16384) % 16384 + 1))
        } else {
            None
        }
    } else {
        None
    }
}

pub(crate) fn bytes_at(b: &[u8], offset: usize, expected: &[u8]) -> (result: bool)
    requires
        offset + expected@.len() <= b@.len(),
    ensures
        result == (b@.subrange(offset as int, offset + expected@.len()) == expected@),
{
    let n = b.len();
    let mut i: usize = 0;
    while i < expected.len()
        invariant
            offset + expected@.len() <= b@.len(),
            n == b@.len(),
            i <= expected@.len(),
            forall|k: int| 0 <= k < i ==> b@[offset + k] == expected@[k],
        decreases expected@.len() - i,
    {
        if b[offset + i] != expected[i] {
            assert(b@.subrange(offset as int, offset + expected@.len())[i as int] != expected@[i as int]);
            return false;
        }
        i = i + 1;
    }
    assert(b@.subrange(offset as int, offset + expected@.len()) =~= expected@);
    true
}

fn jpeg_dimensions_exec(b: &[u8]) -> (dims: Option<(u32, u32)>)
    requires
        b@.len() >= 3,
    ensures
        match dims {
            Some((w, h)) => jpeg_dimensions(b@, 2) == Some((w as nat, h as nat)),
            None => jpeg_dimensions(b@, 2) is None,
        },
{
    let mut offset: usize = 2;
    while offset < b.len() && b.len() - offset > 9
        invariant
            2 <= offset,
            jpeg_dimensions(b@, 2) == jpeg_dimensions(b@, offset as int),
        decreases b@.len() - offset,
    {
        if b[offset] != 0xff {
            offset = offset + 1;
            continue;
        }
        let marker = b[offset + 1];
        let o = offset + 2;
        if marker == 0xd8 || marker == 0xd9 || marker == 0x01 {
            offset = o;
            continue;
        }
        let length: usize = (b[o] as usize) * 256 + (b[o + 1] as usize);
        if length < 2 || length > b.len() - o {
            return None;
        }
        if (marker == 0xc0 || marker == 0xc1 || marker == 0xc2 || marker == 0xc3 || marker == 0xc5
            || marker == 0xc6 || marker == 0xc7 || marker == 0xc9 || marker == 0xca || marker
            == 0xcb || marker == 0xcd || marker == 0xce || marker == 0xcf) && length >= 7 {
            let width = (b[o + 5] as u32) * 256 + (b[o + 6] as u32);
            let height = (b[o + 3] as u32) * 256 + (b[o + 4] as u32);
            return Some((width, height));
        }
        offset = o + length;
    }
    None
}

/// The dimensions (width, height) of an image, read from its header.
pub fn image_dimensions(bytes: &[u8]) -> (dims: Option<(u32, u32)>)
    ensures
        match dims {
            Some((w, h)) => spec_image_dimensions(bytes@) == Some((w as nat, h as nat)),
            None => spec_image_dimensions(bytes@) is None,
        },
{
    let jpeg: [u8; 3] = [0xff, 0xd8, 0xff];
    let png: [u8; 8] = [0x89, 0x50, 0x4e, 0x47, 0x0d, 0x0a, 0x1a, 0x0a];
    let riff: [u8; 4] = [0x52, 0x49, 0x46, 0x46];
    let webp: [u8; 4] = [0x57, 0x45, 0x42, 0x50];
    let vp8x: [u8; 4] = [0x56, 0x50, 0x38, 0x58];
    let vp8l: [u8; 4] = [0x56, 0x50, 0x38, 0x4c];
    assert(jpeg@ =~= seq![0xffu8, 0xd8, 0xff]);
    assert(png@ =~= seq![0x89u8, 0x50, 0x4e, 0x47, 0x0d, 0x0a, 0x1a, 0x0a]);
    assert(riff@ =~= seq![0x52u8, 0x49, 0x46, 0x46]);
    assert(webp@ =~= seq![0x57u8, 0x45, 0x42, 0x50]);
    assert(vp8x@ =~= seq![0x56u8, 0x50, 0x38, 0x58]);
    assert(vp8l@ =~= seq![0x56u8, 0x50, 0x38, 0x4c]);
    if bytes.len() >= 3 && bytes_at(bytes, 0, &jpeg) {
        return jpeg_dimensions_exec(bytes);
    }
    if bytes.len() >= 24 && bytes_at(bytes, 0, &png) {
        let width = (bytes[16] as u32) * 16777216 + (bytes[17] as u32) * 65536 + (bytes[18] as u32)
            * 256 + (bytes[19] as u32);
        let height = (bytes[20] as u32) * 16777216 + (bytes[21] as u32) * 65536 + (bytes[22] as u32)
            * 256 + (bytes[23] as u32);
        return Some((width, height));
    }
    if bytes.len() >= 12 && bytes_at(bytes, 0, &riff) && bytes_at(bytes, 8, &webp) {
        if bytes.len() >= 30 && bytes_at(bytes, 12, &vp8x) {
            let width = 1 + (bytes[24] as u32) + (bytes[25] as u32) * 256 + (bytes[26] as u32) * 65536;
            let height = 1 + (bytes[27] as u32) + (bytes[28] as u32) * 256 + (bytes[29] as u32) * 65536;
            return Some((width, height));
        }
        if bytes.len() >= 25 && bytes_at(bytes, 12, &vp8l) {
            let bits = (bytes[24] as u32) * 16777216 + (bytes[23] as u32) * 65536 + (bytes[22] as u32)
                * 256 + (bytes[21] as u32);
            return Some((bits % 16384 + 1, (bits / 16384) % 16384 + 1));
        }
    }
    None
}

/// Whether a cover may be shown: 64 bytes to 16 MiB, an image whose dimensions are positive,
/// at most `MAX_DIMENSION`, and at most four times as wide as high.
pub open spec fn spec_cover_dimensions(bytes: Seq<u8>) -> Option<(nat, nat)> {
    if bytes.len() < COVER_MIN_BYTES || bytes.len() > COVER_MAX_BYTES {
        None
    } else {
        match spec_image_dimensions(bytes) {
            None => None,
            Some((w, h)) => if w == 0 || h == 0 || w > MAX_DIMENSION || h > MAX_DIMENSION || w > 4
                * h {
                None
            } else {
                Some((w, h))
            },
        }
    }
}

/// Checks a fetched cover and gives it back with its width and height (the ratio of the two is
/// the cover's aspect ratio); anything else is a provider error.
pub fn validate_cover(bytes: Vec<u8>) -> (result: Result<(Vec<u8>, u32, u32), ProviderRequestError>)
    ensures
        match result {
            Ok((kept, w, h)) => kept@ == bytes@ && spec_cover_dimensions(bytes@) == Some(
                (w as nat, h as nat),
            ),
            Err(e) => spec_cover_dimensions(bytes@) is None && e == ProviderRequestError::Provider,
        },
{
    if bytes.len() < COVER_MIN_BYTES || bytes.len() > COVER_MAX_BYTES {
        return Err(ProviderRequestError::Provider);
    }
    let (width, height) = match image_dimensions(bytes.as_slice()) {
        None => return Err(ProviderRequestError::Provider),
        Some(dims) => dims,
    };
    if width == 0 || height == 0 || width > MAX_DIMENSION || height > MAX_DIMENSION || width > 4
        * height {
        return Err(ProviderRequestError::Provider);
    }
    Ok((bytes, width, height))
}

/// The bytes of the line that the transport appends before the HTTP status.
pub open spec fn transport_marker() -> Seq<u8> {
    seq![
        10u8, 65, 85, 84, 79, 95, 86, 73, 68, 69, 79, 95, 72, 84, 84, 80, 95, 83, 84, 65, 84, 85,
        83, 58,
    ]
}

/// The last position at or before `k` where the transport marker starts, or -1.
pub open spec fn last_transport_marker_from(b: Seq<u8>, k: int) -> int
    decreases k + 1,
{
    if k < 0 {
        -1
    } else if k + 24 <= b.len() && b.subrange(k, k + 24) == transport_marker() {
        k
    } else {
        last_transport_marker_from(b, k - 1)
    }
}

/// What a transport run gives: a failed process is a network error; otherwise the output must
/// end with the marker and a readable HTTP status (UTF-8 text read as a `u16`, not trimmed)
/// after its last marker, and the body before it must fit 16 MiB; status 200 gives the body,
/// 404 is `SourceUnavailable`, anything else `Provider`.
pub open spec fn spec_transport_response(output: Seq<u8>, process_succeeded: bool) -> Result<
    Seq<u8>,
    ProviderRequestError,
> {
    if !process_succeeded {
        Err(ProviderRequestError::Network)
    } else {
        let k = last_transport_marker_from(output, output.len() - 24);
        if k < 0 {
            Err(ProviderRequestError::Provider)
        } else {
            let rest = output.subrange(k + 24, output.len() as int);
            if !valid_utf8(rest) {
                Err(ProviderRequestError::Provider)
            } else {
                match spec_parse_unsigned(decode_utf8(rest), 65535) {
                    None => Err(ProviderRequestError::Provider),
                    Some(status) => if k > COVER_MAX_BYTES {
                        Err(ProviderRequestError::Provider)
                    } else if status == 200 {
                        Ok(output.subrange(0, k))
                    } else if status == 404 {
                        Err(ProviderRequestError::SourceUnavailable)
                    } else {
                        Err(ProviderRequestError::Provider)
                    },
                }
            }
        }
    }
}

/// Where the last transport marker in `output` starts, if there is one.
pub(crate) fn find_last_transport_marker(output: &[u8]) -> (found: Option<usize>)
    ensures
        match found {
            Some(m) => m + 24 <= output@.len() && last_transport_marker_from(
                output@,
                output@.len() - 24,
            ) == m,
            None => last_transport_marker_from(output@, output@.len() - 24) < 0,
        },
{
    let marker: Vec<u8> = vec![
        10u8, 65, 85, 84, 79, 95, 86, 73, 68, 69, 79, 95, 72, 84, 84, 80, 95, 83, 84, 65, 84, 85,
        83, 58,
    ];
    assert(marker@ =~= transport_marker());
    if output.len() < 24 {
        return None;
    }
    let mut k: usize = output.len() - 24;
    let mut found: Option<usize> = None;
    loop
        invariant_except_break
            k + 24 <= output@.len(),
            marker@ == transport_marker(),
            found is None,
            last_transport_marker_from(output@, output@.len() - 24) == last_transport_marker_from(
                output@,
                k as int,
            ),
        ensures
            match found {
                Some(m) => m + 24 <= output@.len() && last_transport_marker_from(
                    output@,
                    output@.len() - 24,
                ) == m,
                None => last_transport_marker_from(output@, output@.len() - 24) < 0,
            },
        decreases k,
    {
        if bytes_at(output, k, marker.as_slice()) {
            found = Some(k);
            break;
        }
        if k == 0 {
            assert(last_transport_marker_from(output@, -1) == -1);
            break;
        }
        k = k - 1;
    }
    found
}

/// Reads what the transport printed: the body, or why there is none.
pub fn parse_transport_response(output: &[u8], process_succeeded: bool) -> (result: Result<
    Vec<u8>,
    ProviderRequestError,
>)
    ensures
        match result {
            Ok(body) => spec_transport_response(output@, process_succeeded) == Ok::<
                Seq<u8>,
                ProviderRequestError,
            >(body@),
            Err(e) => spec_transport_response(output@, process_succeeded) == Err::<
                Seq<u8>,
                ProviderRequestError,
            >(e),
        },
{
    if !process_succeeded {
        return Err(ProviderRequestError::Network);
    }
    let m = match find_last_transport_marker(output) {
        None => return Err(ProviderRequestError::Provider),
        Some(m) => m,
    };
    let n = output.len();
    assert(n == output@.len());
    let rest = vstd::slice::slice_subrange(output, m + 24, n);
    let text = match crate::hex::string_from_utf8(vstd::slice::slice_to_vec(rest)) {
        None => return Err(ProviderRequestError::Provider),
        Some(text) => text,
    };
    let chars = chars_of(text.as_str());
    let status = match parse_unsigned(chars.as_slice(), 65535) {
        None => return Err(ProviderRequestError::Provider),
        Some(status) => status,
    };
    if m > COVER_MAX_BYTES {
        return Err(ProviderRequestError::Provider);
    }
    if status == 200 {
        let body = vstd::slice::slice_to_vec(vstd::slice::slice_subrange(output, 0, m));
        Ok(body)
    } else if status == 404 {
        Err(ProviderRequestError::SourceUnavailable)
    } else {
        Err(ProviderRequestError::Provider)
    }
}

/// Most current requests kept; beyond it the oldest other request is dropped.
pub const MAX_CURRENT_REQUESTS: usize = 256;

/// Most fetched covers kept; beyond it the oldest other cover is dropped.
pub const MAX_CURRENT_AUTHORITIES: usize = 128;

/// A fetched or cached cover, waiting to be shown: the request it answers, its id, the URL it
/// came from, its bytes and dimensions, and whether it is in the cache.
#[derive(Clone, Debug, PartialEq, Eq)]
pub struct CoverAuthority {
    pub request: TmdbCoverRequest,
    pub authority_id: String,
    pub source: String,
    pub bytes: Vec<u8>,
    pub width: u32,
    pub height: u32,
    pub persisted: bool,
}

/// The current request of each slot, in the order they were first registered, and the covers
/// waiting to be shown.
pub struct TmdbCoverContext {
    pub requests: Vec<TmdbCoverRequest>,
    pub authorities: Vec<CoverAuthority>,
}

/// Whether two requests occupy the same slot.
pub open spec fn same_slot(a: TmdbCoverRequest, b: TmdbCoverRequest) -> bool {
    a.category == b.category && a.surface == b.surface && stable_id(a) == stable_id(b)
}

/// The index of the first request in the slot of `request`, or the number of requests.
pub open spec fn slot_index(requests: Seq<TmdbCoverRequest>, request: TmdbCoverRequest, i: int) -> int
    decreases requests.len() - i,
{
    if i < 0 || i >= requests.len() {
        requests.len() as int
    } else if same_slot(requests[i], request) {
        i
    } else {
        slot_index(requests, request, i + 1)
    }
}

/// Whether two requests are the same request, field by field.
pub open spec fn same_request_spec(a: TmdbCoverRequest, b: TmdbCoverRequest) -> bool {
    &&& a.category == b.category
    &&& a.surface == b.surface
    &&& a.tmdb_id == b.tmdb_id
    &&& optional_view(a.poster_path) == optional_view(b.poster_path)
    &&& a.context_generation == b.context_generation
    &&& a.request_generation == b.request_generation
    &&& optional_view(a.library_item_id) == optional_view(b.library_item_id)
    &&& a.association_generation == b.association_generation
    &&& a.scan_generation == b.scan_generation
}

/// Whether `request` is the current request of its slot.
pub open spec fn spec_request_is_current(requests: Seq<TmdbCoverRequest>, request: TmdbCoverRequest) -> bool {
    let i = slot_index(requests, request, 0);
    i < requests.len() && same_request_spec(requests[i], request)
}

impl TmdbCoverContext {
    /// No two current requests share a slot.
    pub open spec fn wf(self) -> bool {
        forall|i: int, j: int|
            0 <= i < j < self.requests@.len() ==> !same_slot(
                #[trigger] self.requests@[i],
                #[trigger] self.requests@[j],
            )
    }

    pub fn new() -> (context: Self)
        ensures
            context.wf(),
            context.requests@.len() == 0,
            context.authorities@.len() == 0,
    {
        TmdbCoverContext { requests: Vec::new(), authorities: Vec::new() }
    }
}

fn same_stable_id(a: &TmdbCoverRequest, b: &TmdbCoverRequest) -> (same: bool)
    ensures
        same == (stable_id(*a) == stable_id(*b)),
{
    let x = a.slot();
    let y = b.slot();
    x.stable_id == y.stable_id
}

fn same_slot_exec(a: &TmdbCoverRequest, b: &TmdbCoverRequest) -> (same: bool)
    ensures
        same == same_slot(*a, *b),
{
    a.category == b.category && a.surface == b.surface && same_stable_id(a, b)
}

fn same_optional_text(a: &Option<String>, b: &Option<String>) -> (same: bool)
    ensures
        same == (optional_view(*a) == optional_view(*b)),
{
    match (a, b) {
        (Some(x), Some(y)) => *x == *y,
        (None, None) => true,
        _ => false,
    }
}

fn same_request(a: &TmdbCoverRequest, b: &TmdbCoverRequest) -> (same: bool)
    ensures
        same == same_request_spec(*a, *b),
{
    a.category == b.category && a.surface == b.surface && a.tmdb_id == b.tmdb_id
        && same_optional_text(&a.poster_path, &b.poster_path) && a.context_generation
        == b.context_generation && a.request_generation == b.request_generation
        && same_optional_text(&a.library_item_id, &b.library_item_id) && a.association_generation
        == b.association_generation && a.scan_generation == b.scan_generation
}

fn find_slot(requests: &Vec<TmdbCoverRequest>, request: &TmdbCoverRequest) -> (index: usize)
    ensures
        index == slot_index(requests@, *request, 0),
{
    let mut i: usize = 0;
    while i < requests.len()
        invariant
            i <= requests@.len(),
            slot_index(requests@, *request, 0) == slot_index(requests@, *request, i as int),
        decreases requests@.len() - i,
    {
        if same_slot_exec(&requests[i], request) {
            return i;
        }
        i = i + 1;
    }
    i
}

/// Whether `request` is the current request of its slot.
pub fn request_is_current(context: &TmdbCoverContext, request: &TmdbCoverRequest) -> (current: bool)
    ensures
        current == spec_request_is_current(context.requests@, *request),
{
    let i = find_slot(&context.requests, request);
    i < context.requests.len() && same_request(&context.requests[i], request)
}

fn copy_request(r: &TmdbCoverRequest) -> (copy: TmdbCoverRequest)
    ensures
        copy == *r,
{
    TmdbCoverRequest {
        category: r.category,
        surface: r.surface,
        tmdb_id: r.tmdb_id,
        poster_path: crate::tv_store::copy_optional_text(&r.poster_path),
        context_generation: r.context_generation,
        request_generation: r.request_generation,
        library_item_id: crate::tv_store::copy_optional_text(&r.library_item_id),
        association_generation: r.association_generation,
        scan_generation: r.scan_generation,
    }
}

/// The current requests once `request` is registered: it replaces the request of its slot,
/// or is added last; past `MAX_CURRENT_REQUESTS` the oldest is dropped.
pub open spec fn registered(requests: Seq<TmdbCoverRequest>, request: TmdbCoverRequest) -> Seq<
    TmdbCoverRequest,
> {
    let i = slot_index(requests, request, 0);
    if i < requests.len() {
        requests.update(i, request)
    } else if requests.len() < MAX_CURRENT_REQUESTS {
        requests.push(request)
    } else {
        requests.push(request).drop_first()
    }
}

/// The covers of `authorities` whose request is of a slot that has a current request other
/// than `request`'s, in order.
pub open spec fn authorities_kept(
    authorities: Seq<CoverAuthority>,
    requests: Seq<TmdbCoverRequest>,
    request: TmdbCoverRequest,
) -> Seq<CoverAuthority>
    decreases authorities.len(),
{
    if authorities.len() == 0 {
        Seq::empty()
    } else {
        let rest = authorities_kept(authorities.drop_last(), requests, request);
        let a = authorities.last();
        if !same_slot(a.request, request) && slot_index(requests, a.request, 0) < requests.len() {
            rest.push(a)
        } else {
            rest
        }
    }
}

/// In requests with distinct slots, the slot index of an element is its position.
proof fn lemma_slot_index_distinct(requests: Seq<TmdbCoverRequest>, k: int, i: int)
    requires
        forall|a: int, b: int|
            0 <= a < b < requests.len() ==> !same_slot(#[trigger] requests[a], #[trigger] requests[b]),
        0 <= i <= k < requests.len(),
    ensures
        slot_index(requests, requests[k], i) == k,
    decreases k - i,
{
    if i < k {
        assert(!same_slot(requests[i], requests[k]));
        lemma_slot_index_distinct(requests, k, i + 1);
    }
}

/// When no request is in the slot of `request`, its slot index is the number of requests.
proof fn lemma_slot_index_absent(requests: Seq<TmdbCoverRequest>, request: TmdbCoverRequest, i: int)
    requires
        forall|a: int| 0 <= a < requests.len() ==> !same_slot(#[trigger] requests[a], request),
        0 <= i <= requests.len(),
    ensures
        slot_index(requests, request, i) == requests.len(),
    decreases requests.len() - i,
{
    if i < requests.len() {
        lemma_slot_index_absent(requests, request, i + 1);
    }
}

/// The slot index from `i` is the first matching position at or after `i`.
proof fn lemma_slot_index_found(requests: Seq<TmdbCoverRequest>, request: TmdbCoverRequest, i: int)
    requires
        0 <= i <= requests.len(),
    ensures
        i <= slot_index(requests, request, i) <= requests.len(),
        slot_index(requests, request, i) < requests.len() ==> same_slot(
            requests[slot_index(requests, request, i)],
            request,
        ),
        forall|a: int| i <= a < slot_index(requests, request, i) ==> !same_slot(#[trigger] requests[a], request),
    decreases requests.len() - i,
{
    if i < requests.len() && !same_slot(requests[i], request) {
        lemma_slot_index_found(requests, request, i + 1);
    }
}

proof fn lemma_same_slot(a: TmdbCoverRequest, b: TmdbCoverRequest, c: TmdbCoverRequest)
    ensures
        same_slot(a, a),
        same_slot(a, b) ==> same_slot(b, a),
        same_slot(a, b) && same_slot(b, c) ==> same_slot(a, c),
{
}

/// Registering keeps the slots distinct and makes the request current.
proof fn lemma_registered(requests: Seq<TmdbCoverRequest>, request: TmdbCoverRequest)
    requires
        forall|a: int, b: int|
            0 <= a < b < requests.len() ==> !same_slot(#[trigger] requests[a], #[trigger] requests[b]),
    ensures
        forall|a: int, b: int|
            0 <= a < b < registered(requests, request).len() ==> !same_slot(
                #[trigger] registered(requests, request)[a],
                #[trigger] registered(requests, request)[b],
            ),
        spec_request_is_current(registered(requests, request), request),
{
    let i = slot_index(requests, request, 0);
    lemma_slot_index_found(requests, request, 0);
    let r = registered(requests, request);
    if i < requests.len() {
        assert forall|a: int, b: int| 0 <= a < b < r.len() implies !same_slot(
            #[trigger] r[a],
            #[trigger] r[b],
        ) by {
            lemma_same_slot(r[a], requests[i], r[b]);
            lemma_same_slot(r[b], requests[i], r[a]);
            lemma_same_slot(requests[a], request, requests[i]);
            lemma_same_slot(requests[b], request, requests[i]);
            lemma_same_slot(request, requests[i], requests[b]);
            lemma_same_slot(request, requests[i], requests[a]);
        }
        lemma_slot_index_distinct(r, i, 0);
    } else {
        let pushed = requests.push(request);
        assert forall|a: int, b: int| 0 <= a < b < pushed.len() implies !same_slot(
            #[trigger] pushed[a],
            #[trigger] pushed[b],
        ) by {
            if b == requests.len() {
                lemma_same_slot(pushed[a], request, request);
            }
        }
        if requests.len() < MAX_CURRENT_REQUESTS {
            lemma_slot_index_distinct(r, r.len() - 1, 0);
        } else {
            assert forall|a: int, b: int| 0 <= a < b < r.len() implies !same_slot(
                #[trigger] r[a],
                #[trigger] r[b],
            ) by {
                assert(r[a] == pushed[a + 1] && r[b] == pushed[b + 1]);
            }
            lemma_slot_index_distinct(r, r.len() - 1, 0);
        }
    }
}

/// Registers `request` as the current request of its slot, dropping the covers of its slot
/// (and of a slot dropped past the bound); a malformed request is stale.
pub fn begin_request(context: &mut TmdbCoverContext, request: &TmdbCoverRequest) -> (result: Result<
    (),
    &'static str,
>)
    requires
        old(context).wf(),
    ensures
        final(context).wf(),
        !spec_request_valid(*request) ==> result == Err::<(), &'static str>(TMDB_COVER_STALE)
            && final(context).requests == old(context).requests && final(context).authorities
            == old(context).authorities,
        spec_request_valid(*request) ==> {
            &&& result is Ok
            &&& final(context).requests@ == registered(old(context).requests@, *request)
            &&& final(context).authorities@ == authorities_kept(
                old(context).authorities@,
                final(context).requests@,
                *request,
            )
            &&& spec_request_is_current(final(context).requests@, *request)
        },
{
    if !request.validate() {
        return Err(TMDB_COVER_STALE);
    }
    let ghost before = context.requests@;
    let i = find_slot(&context.requests, request);
    if i < context.requests.len() {
        context.requests[i] = copy_request(request);
    } else {
        context.requests.push(copy_request(request));
        if context.requests.len() > MAX_CURRENT_REQUESTS {
            context.requests.remove(0);
        }
    }
    let ghost requests = context.requests@;
    assert(requests == registered(before, *request));
    proof {
        lemma_registered(before, *request);
    }
    let mut rest: Vec<CoverAuthority> = Vec::new();
    std::mem::swap(&mut rest, &mut context.authorities);
    let ghost all = rest@;
    let mut kept: Vec<CoverAuthority> = Vec::new();
    while rest.len() > 0
        invariant
            context.requests@ == requests,
            0 <= all.len() - rest@.len(),
            rest@ == all.subrange(all.len() - rest@.len(), all.len() as int),
            kept@ == authorities_kept(all.subrange(0, all.len() - rest@.len()), requests, *request),
        decreases rest@.len(),
    {
        let ghost done = all.len() - rest@.len();
        let a = rest.remove(0);
        assert(a == all[done]);
        let ghost prefix = all.subrange(0, done + 1);
        assert(prefix.drop_last() =~= all.subrange(0, done));
        assert(rest@ =~= all.subrange(all.len() - rest@.len(), all.len() as int));
        if !same_slot_exec(&a.request, request) && find_slot(&context.requests, &a.request)
            < context.requests.len() {
            kept.push(a);
        }
    }
    assert(all.subrange(0, all.len() as int) =~= all);
    context.authorities = kept;
    Ok(())
}

/// The index of the first cover with id `id`, or the number of covers.
pub open spec fn authority_index(authorities: Seq<CoverAuthority>, id: Seq<char>, i: int) -> int
    decreases authorities.len() - i,
{
    if i < 0 || i >= authorities.len() {
        authorities.len() as int
    } else if authorities[i].authority_id@ == id {
        i
    } else {
        authority_index(authorities, id, i + 1)
    }
}

fn find_authority(authorities: &Vec<CoverAuthority>, id: &str) -> (index: usize)
    ensures
        index == authority_index(authorities@, id@, 0),
{
    let mut i: usize = 0;
    while i < authorities.len()
        invariant
            i <= authorities@.len(),
            authority_index(authorities@, id@, 0) == authority_index(authorities@, id@, i as int),
        decreases authorities@.len() - i,
    {
        if crate::text::same_text(authorities[i].authority_id.as_str(), id) {
            return i;
        }
        i = i + 1;
    }
    i
}

/// The covers once `a` is kept: it replaces the cover with its id, or is added last; past
/// `MAX_CURRENT_AUTHORITIES` the oldest is dropped.
pub open spec fn with_authority(authorities: Seq<CoverAuthority>, a: CoverAuthority) -> Seq<CoverAuthority> {
    let i = authority_index(authorities, a.authority_id@, 0);
    if i < authorities.len() {
        authorities.update(i, a)
    } else if authorities.len() < MAX_CURRENT_AUTHORITIES {
        authorities.push(a)
    } else {
        authorities.push(a).drop_first()
    }
}

/// The covers of `authorities` that do not answer `request`, in order.
pub open spec fn authorities_without(authorities: Seq<CoverAuthority>, request: TmdbCoverRequest) -> Seq<
    CoverAuthority,
>
    decreases authorities.len(),
{
    if authorities.len() == 0 {
        Seq::empty()
    } else {
        let rest = authorities_without(authorities.drop_last(), request);
        if same_request_spec(authorities.last().request, request) {
            rest
        } else {
            rest.push(authorities.last())
        }
    }
}

fn remove_authorities_of(context: &mut TmdbCoverContext, request: &TmdbCoverRequest)
    ensures
        final(context).requests == old(context).requests,
        final(context).authorities@ == authorities_without(old(context).authorities@, *request),
{
    let mut rest: Vec<CoverAuthority> = Vec::new();
    std::mem::swap(&mut rest, &mut context.authorities);
    let ghost all = rest@;
    let mut kept: Vec<CoverAuthority> = Vec::new();
    while rest.len() > 0
        invariant
            0 <= all.len() - rest@.len(),
            rest@ == all.subrange(all.len() - rest@.len(), all.len() as int),
            kept@ == authorities_without(all.subrange(0, all.len() - rest@.len()), *request),
        decreases rest@.len(),
    {
        let ghost done = all.len() - rest@.len();
        let a = rest.remove(0);
        assert(a == all[done]);
        let ghost prefix = all.subrange(0, done + 1);
        assert(prefix.drop_last() =~= all.subrange(0, done));
        assert(rest@ =~= all.subrange(all.len() - rest@.len(), all.len() as int));
        if !same_request(&a.request, request) {
            kept.push(a);
        }
    }
    assert(all.subrange(0, all.len() as int) =~= all);
    context.authorities = kept;
}

/// Withdraws `request` when it is current: its slot is emptied and its covers dropped; a
/// request that is not current changes nothing.
pub fn cancel_request(context: &mut TmdbCoverContext, request: &TmdbCoverRequest)
    requires
        old(context).wf(),
    ensures
        final(context).wf(),
        !spec_request_is_current(old(context).requests@, *request) ==> final(context).requests
            == old(context).requests && final(context).authorities == old(context).authorities,
        spec_request_is_current(old(context).requests@, *request) ==> {
            &&& final(context).requests@ == old(context).requests@.remove(
                slot_index(old(context).requests@, *request, 0),
            )
            &&& final(context).authorities@ == authorities_without(
                old(context).authorities@,
                *request,
            )
            &&& !spec_request_is_current(final(context).requests@, *request)
        },
{
    let i = find_slot(&context.requests, request);
    if i < context.requests.len() && same_request(&context.requests[i], request) {
        let ghost before = context.requests@;
        context.requests.remove(i);
        proof {
            let after = context.requests@;
            assert forall|a: int, b: int| 0 <= a < b < after.len() implies !same_slot(
                #[trigger] after[a],
                #[trigger] after[b],
            ) by {
                let x = if a < i { a } else { a + 1 };
                let y = if b < i { b } else { b + 1 };
                assert(after[a] == before[x] && after[b] == before[y]);
            }
            assert forall|a: int| 0 <= a < after.len() implies !same_slot(#[trigger] after[a], *request) by {
                let x = if a < i { a } else { a + 1 };
                assert(after[a] == before[x]);
                lemma_slot_index_distinct(before, x, 0);
                lemma_slot_index_found(before, *request, 0);
                lemma_same_slot(before[x], *request, before[i as int]);
                lemma_same_slot(*request, before[i as int], before[x]);
                if x < i {
                } else {
                    lemma_slot_index_distinct(before, i as int, 0);
                    assert(!same_slot(before[i as int], before[x]));
                }
            }
            lemma_slot_index_absent(after, *request, 0);
        }
        remove_authorities_of(context, request);
    }
}

/// Drops the covers of `request` and removes its cache file through `remove_cache` (which
/// receives the file's name and reports whether it is gone); a malformed or superseded
/// request is stale, a failed removal is `TMDB_COVER_FAILED`.
pub fn invalidate_cover(
    context: &mut TmdbCoverContext,
    request: &TmdbCoverRequest,
    remove_cache: impl FnOnce(String) -> bool,
) -> (result: Result<(), &'static str>)
    requires
        spec_request_valid(*request) && spec_request_is_current(old(context).requests@, *request)
            ==> forall|name: String| name@ == cache_file_name(*request) ==> call_requires(
            remove_cache,
            (name,),
        ),
    ensures
        final(context).requests == old(context).requests,
        !spec_request_valid(*request) || !spec_request_is_current(old(context).requests@, *request)
            ==> result == Err::<(), &'static str>(TMDB_COVER_STALE) && final(context).authorities
            == old(context).authorities,
        spec_request_valid(*request) && spec_request_is_current(old(context).requests@, *request)
            ==> {
            &&& final(context).authorities@ == authorities_without(
                old(context).authorities@,
                *request,
            )
            &&& exists|name: String, removed: bool|
                name@ == cache_file_name(*request) && call_ensures(remove_cache, (name,), removed)
                    && (removed ==> result is Ok) && (!removed ==> result == Err::<(), &'static str>(
                    TMDB_COVER_FAILED,
                ))
        },
{
    if !request.validate() {
        return Err(TMDB_COVER_STALE);
    }
    if !request_is_current(context, request) {
        return Err(TMDB_COVER_STALE);
    }
    remove_authorities_of(context, request);
    let name = cache_file_name_exec(request);
    if remove_cache(name) {
        Ok(())
    } else {
        Err(TMDB_COVER_FAILED)
    }
}

/// The bytes of cover `authority_id` for `request`, when the request is current and that cover
/// answers it.
pub fn fetch_cover(context: &TmdbCoverContext, request: &TmdbCoverRequest, authority_id: &str) -> (result:
    Result<Vec<u8>, &'static str>)
    ensures
        !spec_request_is_current(context.requests@, *request) ==> result == Err::<
            Vec<u8>,
            &'static str,
        >(TMDB_COVER_STALE),
        spec_request_is_current(context.requests@, *request) ==> {
            let i = authority_index(context.authorities@, authority_id@, 0);
            if i < context.authorities@.len() && same_request_spec(
                context.authorities@[i].request,
                *request,
            ) {
                result matches Ok(bytes) && bytes@ == context.authorities@[i].bytes@
            } else {
                result == Err::<Vec<u8>, &'static str>(TMDB_COVER_STALE)
            }
        },
{
    if !request_is_current(context, request) {
        return Err(TMDB_COVER_STALE);
    }
    let i = find_authority(&context.authorities, authority_id);
    if i >= context.authorities.len() || !same_request(&context.authorities[i].request, request) {
        return Err(TMDB_COVER_STALE);
    }
    Ok(vstd::slice::slice_to_vec(context.authorities[i].bytes.as_slice()))
}

/// Keeps cover `a` for its request, when that request still is current; otherwise stale.
pub fn record_cover(context: &mut TmdbCoverContext, a: CoverAuthority) -> (result: Result<
    (),
    &'static str,
>)
    ensures
        final(context).requests == old(context).requests,
        !spec_request_is_current(old(context).requests@, a.request) ==> result == Err::<
            (),
            &'static str,
        >(TMDB_COVER_STALE) && final(context).authorities == old(context).authorities,
        spec_request_is_current(old(context).requests@, a.request) ==> result is Ok
            && final(context).authorities@ == with_authority(old(context).authorities@, a),
{
    if !request_is_current(context, &a.request) {
        return Err(TMDB_COVER_STALE);
    }
    let i = find_authority(&context.authorities, a.authority_id.as_str());
    if i < context.authorities.len() {
        context.authorities[i] = a;
    } else {
        context.authorities.push(a);
        if context.authorities.len() > MAX_CURRENT_AUTHORITIES {
            context.authorities.remove(0);
        }
    }
    Ok(())
}

/// The text whose SHA-1 names a request's cache file.
pub open spec fn cache_identity_text(request: TmdbCoverRequest) -> Seq<char> {
    "tmdb-cover"@ + seq!['\0'] + request.category.text() + seq!['\0'] + request.surface.text()
        + seq!['\0'] + optional_text(optional_view(request.library_item_id)) + seq!['\0']
        + decimal_string(optional_number(request.association_generation) as nat) + seq!['\0']
        + decimal_string(request.tmdb_id as nat) + seq!['\0'] + optional_text(
        optional_view(request.poster_path),
    )
}

/// An optional number, zero when absent.
pub open spec fn optional_number(value: Option<u64>) -> u64 {
    match value {
        Some(n) => n,
        None => 0,
    }
}

/// The name of a request's cache file: `tmdb-cover-`, the SHA-1 of its identity text, `.bin`.
pub open spec fn cache_file_name(request: TmdbCoverRequest) -> Seq<char> {
    "tmdb-cover-"@ + spec_hex_sha1(encode_utf8(cache_identity_text(request))) + ".bin"@
}

pub(crate) fn push_separator(text: &mut String)
    ensures
        final(text)@ == old(text)@ + seq!['\0'],
{
    crate::text::push_char(text, '\0');
}

fn cache_file_name_exec(request: &TmdbCoverRequest) -> (name: String)
    ensures
        name@ == cache_file_name(*request),
{
    let mut text = owned("tmdb-cover");
    push_separator(&mut text);
    crate::text::push_str(&mut text, request.category.as_str());
    push_separator(&mut text);
    crate::text::push_str(&mut text, request.surface.as_str());
    push_separator(&mut text);
    crate::text::push_str(&mut text, crate::tv_store::optional_str(&request.library_item_id));
    push_separator(&mut text);
    let association = match request.association_generation {
        Some(n) => n,
        None => 0,
    };
    let association_text = decimal_string_of(association);
    crate::text::push_str(&mut text, association_text.as_str());
    push_separator(&mut text);
    let id_text = decimal_string_of(request.tmdb_id);
    crate::text::push_str(&mut text, id_text.as_str());
    push_separator(&mut text);
    crate::text::push_str(&mut text, crate::tv_store::optional_str(&request.poster_path));
    proof {
        reveal_strlit("tmdb-cover");
        reveal_strlit("tmdb-cover-");
        reveal_strlit(".bin");
    }
    assert(text@ == cache_identity_text(*request));
    let identity = hex_sha1(text.as_str().as_bytes());
    let mut name = owned("tmdb-cover-");
    crate::text::push_str(&mut name, identity.as_str());
    crate::text::push_str(&mut name, ".bin");
    name
}

/// The name of a request's cache file.
pub fn cache_file_name_of(request: &TmdbCoverRequest) -> (name: String)
    ensures
        name@ == cache_file_name(*request),
{
    cache_file_name_exec(request)
}

/// Registers `request` and gives the URL its cover comes from, or none when it names no
/// poster (its cover is then missing); a malformed request is stale.
pub fn prepare_cover(context: &mut TmdbCoverContext, request: &TmdbCoverRequest) -> (result: Result<
    Option<String>,
    &'static str,
>)
    requires
        old(context).wf(),
    ensures
        final(context).wf(),
        !spec_request_valid(*request) ==> result == Err::<Option<String>, &'static str>(
            TMDB_COVER_STALE,
        ) && final(context).requests == old(context).requests && final(context).authorities
            == old(context).authorities,
        spec_request_valid(*request) ==> {
            &&& final(context).requests@ == registered(old(context).requests@, *request)
            &&& final(context).authorities@ == authorities_kept(
                old(context).authorities@,
                final(context).requests@,
                *request,
            )
            &&& match request.poster_path {
                None => result == Ok::<Option<String>, &'static str>(None),
                Some(path) => result matches Ok(Some(url)) && url@ == tmdb_image_base() + path@,
            }
        },
{
    match begin_request(context, request) {
        Err(e) => return Err(e),
        Ok(()) => {},
    }
    match &request.poster_path {
        None => Ok(None),
        Some(path) => match tmdb_poster_url(path.as_str()) {
            Some(url) => Ok(Some(url)),
            None => Err(TMDB_COVER_FAILED),
        },
    }
}

/// The bytes of a cover: read back from the cache, or what fetching its URL gave.
pub enum CoverBytes {
    Cached(Vec<u8>),
    Fetched(Result<Vec<u8>, ProviderRequestError>),
}

/// The text whose SHA-1 identifies a cover.
pub open spec fn authority_text(request: TmdbCoverRequest, source: Seq<char>) -> Seq<char> {
    request.category.text() + seq!['\0'] + request.surface.text() + seq!['\0'] + decimal_string(
        request.tmdb_id as nat,
    ) + seq!['\0'] + optional_text(optional_view(request.poster_path)) + seq!['\0']
        + decimal_string(request.context_generation as nat) + seq!['\0'] + decimal_string(
        request.request_generation as nat,
    ) + seq!['\0'] + optional_text(optional_view(request.library_item_id)) + seq!['\0']
        + decimal_string(optional_number(request.scan_generation) as nat) + seq!['\0'] + source
}

/// The id of the cover that `source` gives for `request`.
pub open spec fn spec_authority_id(request: TmdbCoverRequest, source: Seq<char>) -> Seq<char> {
    "tmdb-cover-"@ + spec_hex_sha1(encode_utf8(authority_text(request, source)))
}

pub(crate) fn push_number(text: &mut String, n: u64)
    ensures
        final(text)@ == old(text)@ + decimal_string(n as nat),
{
    let digits = decimal_string_of(n);
    crate::text::push_str(text, digits.as_str());
}

/// The id of the cover that `source` gives for `request`.
pub fn authority_id(request: &TmdbCoverRequest, source: &str) -> (id: String)
    ensures
        id@ == spec_authority_id(*request, source@),
{
    let mut text = owned(request.category.as_str());
    push_separator(&mut text);
    crate::text::push_str(&mut text, request.surface.as_str());
    push_separator(&mut text);
    push_number(&mut text, request.tmdb_id);
    push_separator(&mut text);
    crate::text::push_str(&mut text, crate::tv_store::optional_str(&request.poster_path));
    push_separator(&mut text);
    push_number(&mut text, request.context_generation);
    push_separator(&mut text);
    push_number(&mut text, request.request_generation);
    push_separator(&mut text);
    crate::text::push_str(&mut text, crate::tv_store::optional_str(&request.library_item_id));
    push_separator(&mut text);
    let scan = match request.scan_generation {
        Some(n) => n,
        None => 0,
    };
    push_number(&mut text, scan);
    push_separator(&mut text);
    crate::text::push_str(&mut text, source);
    assert(text@ == authority_text(*request, source@));
    let digest = hex_sha1(text.as_str().as_bytes());
    proof {
        reveal_strlit("tmdb-cover-");
    }
    let mut id = owned("tmdb-cover-");
    crate::text::push_str(&mut id, digest.as_str());
    id
}

/// What finishing a cover gives, before it is kept: a failed fetch or bytes that are not a
/// valid cover fail, and a request that is no longer wanted or current is stale.
pub open spec fn spec_cover_outcome(
    requests: Seq<TmdbCoverRequest>,
    request: TmdbCoverRequest,
    cover: CoverBytes,
    still_wanted: bool,
) -> Result<(Seq<u8>, nat, nat, bool), &'static str> {
    let bytes = match cover {
        CoverBytes::Cached(b) => Ok((b@, true)),
        CoverBytes::Fetched(Ok(b)) => Ok((b@, false)),
        CoverBytes::Fetched(Err(_)) => Err(TMDB_COVER_FAILED),
    };
    match bytes {
        Err(e) => Err(e),
        Ok((b, persisted)) => match spec_cover_dimensions(b) {
            None => Err(TMDB_COVER_FAILED),
            Some((w, h)) => if !still_wanted || !spec_request_is_current(requests, request) {
                Err(TMDB_COVER_STALE)
            } else {
                Ok((b, w, h, persisted))
            },
        },
    }
}

/// Keeps the cover of `request` that `source` gave (`still_wanted` says whether the client
/// still wants it), and gives its id and dimensions.
pub fn finish_cover(
    context: &mut TmdbCoverContext,
    request: &TmdbCoverRequest,
    source: String,
    cover: CoverBytes,
    still_wanted: bool,
) -> (result: Result<(String, u32, u32), &'static str>)
    ensures
        final(context).requests == old(context).requests,
        match spec_cover_outcome(old(context).requests@, *request, cover, still_wanted) {
            Err(e) => result == Err::<(String, u32, u32), &'static str>(e) && final(context).authorities
                == old(context).authorities,
            Ok((b, w, h, persisted)) => result matches Ok((id, width, height)) && width == w
                && height == h && id@ == spec_authority_id(*request, source@) && exists|
                a: CoverAuthority,
            |
                #[trigger] with_authority(old(context).authorities@, a) == final(context).authorities@
                    && same_request_spec(a.request, *request) && a.authority_id@ == id@
                    && a.source == source && a.bytes@ == b && a.width == w && a.height == h
                    && a.persisted == persisted,
        },
{
    let (bytes, persisted) = match cover {
        CoverBytes::Cached(b) => (b, true),
        CoverBytes::Fetched(Ok(b)) => (b, false),
        CoverBytes::Fetched(Err(_)) => return Err(TMDB_COVER_FAILED),
    };
    let (bytes, width, height) = match validate_cover(bytes) {
        Err(_) => return Err(TMDB_COVER_FAILED),
        Ok(valid) => valid,
    };
    if !still_wanted || !request_is_current(context, request) {
        return Err(TMDB_COVER_STALE);
    }
    let id = authority_id(request, source.as_str());
    let result_id = id.clone();
    let a = CoverAuthority {
        request: copy_request(request),
        authority_id: id,
        source,
        bytes,
        width,
        height,
        persisted,
    };
    let ghost kept = a;
    match record_cover(context, a) {
        Err(e) => return Err(e),
        Ok(()) => {},
    }
    assert(with_authority(old(context).authorities@, kept) == context.authorities@);
    Ok((result_id, width, height))
}

/// The response for a request whose cover is missing: its fields, no cover, and the default
/// two-to-three ratio.
pub open spec fn spec_missing_response(request: TmdbCoverRequest) -> Seq<Seq<char>> {
    seq![
        "tmdb-card-cover-v1"@,
        "missing"@,
        request.category.text(),
        request.surface.text(),
        decimal_string(request.tmdb_id as nat),
        Seq::empty(),
        decimal_string(request.context_generation as nat),
        decimal_string(request.request_generation as nat),
        optional_text(optional_view(request.library_item_id)),
        decimal_string(optional_number(request.association_generation) as nat),
        decimal_string(optional_number(request.scan_generation) as nat),
        Seq::empty(),
        "0.6666666666666666"@,
        Seq::empty(),
    ]
}

/// The response for a request whose cover is missing.
pub fn missing_response(request: &TmdbCoverRequest) -> (response: Vec<String>)
    ensures
        crate::tv_scan::texts(response@) == spec_missing_response(*request),
{
    let mut response: Vec<String> = Vec::new();
    response.push(owned("tmdb-card-cover-v1"));
    response.push(owned("missing"));
    response.push(owned(request.category.as_str()));
    response.push(owned(request.surface.as_str()));
    response.push(decimal_string_of(request.tmdb_id));
    response.push(owned(""));
    response.push(decimal_string_of(request.context_generation));
    response.push(decimal_string_of(request.request_generation));
    response.push(owned(crate::tv_store::optional_str(&request.library_item_id)));
    response.push(decimal_string_of(match request.association_generation {
        Some(n) => n,
        None => 0,
    }));
    response.push(decimal_string_of(match request.scan_generation {
        Some(n) => n,
        None => 0,
    }));
    response.push(owned(""));
    response.push(owned("0.6666666666666666"));
    response.push(owned(""));
    proof {
        reveal_strlit("tmdb-card-cover-v1");
        reveal_strlit("missing");
        reveal_strlit("0.6666666666666666");
        reveal_strlit("");
        assert(""@ =~= Seq::<char>::empty());
    }
    assert(crate::tv_scan::texts(response@) =~= spec_missing_response(*request));
    response
}

/// The first twelve fields of the response for a pending cover (the ratio and the source
/// name follow them): its request's fields and the cover's id.
pub open spec fn spec_pending_fields(request: TmdbCoverRequest, authority_id: Seq<char>) -> Seq<Seq<char>> {
    seq![
        "tmdb-card-cover-v1"@,
        "pending"@,
        request.category.text(),
        request.surface.text(),
        decimal_string(request.tmdb_id as nat),
        optional_text(optional_view(request.poster_path)),
        decimal_string(request.context_generation as nat),
        decimal_string(request.request_generation as nat),
        optional_text(optional_view(request.library_item_id)),
        decimal_string(optional_number(request.association_generation) as nat),
        decimal_string(optional_number(request.scan_generation) as nat),
        authority_id,
    ]
}

/// The first twelve fields of the response for a pending cover.
pub fn pending_fields(request: &TmdbCoverRequest, authority_id: &str) -> (fields: Vec<String>)
    ensures
        crate::tv_scan::texts(fields@) == spec_pending_fields(*request, authority_id@),
{
    let mut fields: Vec<String> = Vec::new();
    fields.push(owned("tmdb-card-cover-v1"));
    fields.push(owned("pending"));
    fields.push(owned(request.category.as_str()));
    fields.push(owned(request.surface.as_str()));
    fields.push(decimal_string_of(request.tmdb_id));
    fields.push(owned(crate::tv_store::optional_str(&request.poster_path)));
    fields.push(decimal_string_of(request.context_generation));
    fields.push(decimal_string_of(request.request_generation));
    fields.push(owned(crate::tv_store::optional_str(&request.library_item_id)));
    fields.push(decimal_string_of(match request.association_generation {
        Some(n) => n,
        None => 0,
    }));
    fields.push(decimal_string_of(match request.scan_generation {
        Some(n) => n,
        None => 0,
    }));
    fields.push(owned(authority_id));
    proof {
        reveal_strlit("tmdb-card-cover-v1");
        reveal_strlit("pending");
    }
    assert(crate::tv_scan::texts(fields@) =~= spec_pending_fields(*request, authority_id@));
    fields
}

/// The cache file names of the current requests, in order.
pub open spec fn active_cache_names(requests: Seq<TmdbCoverRequest>) -> Seq<Seq<char>> {
    requests.map_values(|r: TmdbCoverRequest| cache_file_name(r))
}

/// Puts cover `authority_id` of `request` in the cache when it is not there yet:
/// `write_cache` receives the cover and the cache file names of every current request (which
/// it must keep) and reports whether it wrote; the cover is then marked as in the cache. A
/// request that is not current, or a cover that does not answer it, is stale; a failed write
/// is `TMDB_COVER_FAILED`.
pub fn confirm_cover(
    context: &mut TmdbCoverContext,
    request: &TmdbCoverRequest,
    authority_id: &str,
    write_cache: impl FnOnce(&CoverAuthority, Vec<String>) -> bool,
) -> (result: Result<(), &'static str>)
    requires
        ({
            let i = authority_index(old(context).authorities@, authority_id@, 0);
            spec_request_is_current(old(context).requests@, *request) && i < old(
                context,
            ).authorities@.len() && same_request_spec(old(context).authorities@[i].request, *request)
                && !old(context).authorities@[i].persisted ==> forall|a: &CoverAuthority, names: Vec<String>|
                *a == old(context).authorities@[i] ==> call_requires(write_cache, (a, names))
        }),
    ensures
        final(context).requests == old(context).requests,
        !spec_request_is_current(old(context).requests@, *request) ==> result == Err::<
            (),
            &'static str,
        >(TMDB_COVER_STALE) && final(context).authorities == old(context).authorities,
        spec_request_is_current(old(context).requests@, *request) ==> {
            let i = authority_index(old(context).authorities@, authority_id@, 0);
            if i < old(context).authorities@.len() && same_request_spec(
                old(context).authorities@[i].request,
                *request,
            ) {
                let a = old(context).authorities@[i];
                if a.persisted {
                    result is Ok && final(context).authorities == old(context).authorities
                } else {
                    exists|names: Vec<String>, written: bool|
                        crate::tv_scan::texts(names@) == active_cache_names(old(context).requests@)
                            && call_ensures(write_cache, (&a, names), written) && if written {
                            result is Ok && final(context).authorities@
                                == old(context).authorities@.update(
                                i,
                                CoverAuthority { persisted: true, ..a },
                            )
                        } else {
                            result == Err::<(), &'static str>(TMDB_COVER_FAILED)
                                && final(context).authorities == old(context).authorities
                        }
                }
            } else {
                result == Err::<(), &'static str>(TMDB_COVER_STALE) && final(context).authorities
                    == old(context).authorities
            }
        },
{
    if !request_is_current(context, request) {
        return Err(TMDB_COVER_STALE);
    }
    let i = find_authority(&context.authorities, authority_id);
    if i >= context.authorities.len() || !same_request(&context.authorities[i].request, request) {
        return Err(TMDB_COVER_STALE);
    }
    if context.authorities[i].persisted {
        return Ok(());
    }
    let mut names: Vec<String> = Vec::new();
    let mut k: usize = 0;
    while k < context.requests.len()
        invariant
            k <= context.requests@.len(),
            crate::tv_scan::texts(names@) == active_cache_names(context.requests@.take(k as int)),
        decreases context.requests@.len() - k,
    {
        let name = cache_file_name_exec(&context.requests[k]);
        let ghost before = crate::tv_scan::texts(names@);
        let ghost added = name@;
        names.push(name);
        assert(crate::tv_scan::texts(names@) =~= before.push(added));
        assert(active_cache_names(context.requests@.take(k + 1)) =~= active_cache_names(
            context.requests@.take(k as int),
        ).push(cache_file_name(context.requests@[k as int])));
        k = k + 1;
    }
    assert(context.requests@.take(context.requests@.len() as int) =~= context.requests@);
    let written = write_cache(&context.authorities[i], names);
    if !written {
        return Err(TMDB_COVER_FAILED);
    }
    context.authorities[i].persisted = true;
    Ok(())
}

} // verus!
