//! The cache file kept for a TMDB card cover: a header of newline-separated fields that names
//! the request it answers, the source, when it was saved, the cover's aspect ratio and the
//! length of the image bytes, then a `DATA` line and the image bytes themselves.
use vstd::prelude::*;
use vstd::utf8::{decode_utf8, encode_utf8, valid_utf8};

use crate::hex::{decode_hex_chars, encode_hex_text, hex_text, spec_decode_hex_text, string_from_utf8};
use crate::presentation_cache::{lines_of, pieces_view, text_lines};
use crate::text::{lemma_text_less_order, text_less, text_less_chars, chars_of, chars_equal, decimal_string, decimal_string_of, parse_unsigned, push_char, push_str, spec_parse_unsigned};
use crate::tmdb_cover::{
    optional_number, spec_cover_dimensions, spec_tmdb_poster_url, tmdb_poster_url, validate_cover,
    TmdbCoverRequest,
};
use crate::tv_store::{optional_text, optional_view};

verus! {

/// The first line of every TMDB card cover cache file.
pub const TMDB_COVER_CACHE_VERSION: &'static str = "AUTO_VIDEO_TMDB_CARD_COVER_V1";

/// How long a cached TMDB card cover is used, in seconds.
pub const TMDB_COVER_CACHE_TTL_SECONDS: u64 = 86400;

/// The bytes that end the header: a newline, `DATA` and a newline.
pub open spec fn data_marker() -> Seq<u8> {
    seq![10u8, 68u8, 65u8, 84u8, 65u8, 10u8]
}

/// Whether the data marker starts at `k` of `file`.
pub open spec fn data_marker_at(file: Seq<u8>, k: int) -> bool {
    0 <= k && k + 6 <= file.len() && file.subrange(k, k + 6) == data_marker()
}

/// Where the first data marker of `file` starts, if it has one.
pub open spec fn first_data_marker(file: Seq<u8>) -> Option<int> {
    if exists|k: int| data_marker_at(file, k) {
        Some(choose|k: int| data_marker_at(file, k) && forall|j: int| 0 <= j < k ==> !data_marker_at(file, j))
    } else {
        None
    }
}

/// The header fields of a cache file for `request`: the version, the category and surface,
/// the library item id, the association generation, the TMDB id and the poster path, the
/// source URL, the save time, the aspect ratio's text, the image length, and `DATA`.
pub open spec fn cache_header_fields(
    request: TmdbCoverRequest,
    source: Seq<char>,
    ratio: Seq<char>,
    timestamp: u64,
    length: nat,
) -> Seq<Seq<char>> {
    seq![
        TMDB_COVER_CACHE_VERSION@,
        request.category.text(),
        request.surface.text(),
        hex_text(optional_text(optional_view(request.library_item_id))),
        decimal_string(optional_number(request.association_generation) as nat),
        decimal_string(request.tmdb_id as nat),
        hex_text(optional_text(optional_view(request.poster_path))),
        hex_text(source),
        decimal_string(timestamp as nat),
        ratio,
        decimal_string(length),
        "DATA"@,
    ]
}

/// Lines each ended by a newline.
pub open spec fn ended_lines(lines: Seq<Seq<char>>) -> Seq<char>
    decreases lines.len(),
{
    if lines.len() == 0 {
        Seq::empty()
    } else {
        ended_lines(lines.drop_last()) + lines.last() + seq!['\n']
    }
}

/// The bytes of a cache file holding `bytes` for `request`.
pub open spec fn spec_tmdb_cover_cache_file(
    request: TmdbCoverRequest,
    source: Seq<char>,
    ratio: Seq<char>,
    timestamp: u64,
    bytes: Seq<u8>,
) -> Seq<u8> {
    encode_utf8(ended_lines(cache_header_fields(request, source, ratio, timestamp, bytes.len()))) + bytes
}

/// Whether the header fields name `request`: the version, its category and surface, its
/// library item id (empty when none), its association generation (0 when none), its TMDB id
/// and its poster path (empty when none).
pub open spec fn header_names_request(f: Seq<Seq<char>>, request: TmdbCoverRequest) -> bool {
    &&& f.len() == 11
    &&& f[0] == TMDB_COVER_CACHE_VERSION@
    &&& f[1] == request.category.text()
    &&& f[2] == request.surface.text()
    &&& spec_decode_hex_text(f[3]) == Some(optional_text(optional_view(request.library_item_id)))
    &&& spec_parse_unsigned(f[4], u64::MAX as nat) == Some(optional_number(request.association_generation) as nat)
    &&& spec_parse_unsigned(f[5], u64::MAX as nat) == Some(request.tmdb_id as nat)
    &&& spec_decode_hex_text(f[6]) == Some(optional_text(optional_view(request.poster_path)))
}

/// A cover read from a cache file: its bytes, the text of its aspect ratio as saved, and the
/// width and height its image has.
pub struct CachedTmdbCover {
    pub bytes: Vec<u8>,
    pub ratio: String,
    pub width: u32,
    pub height: u32,
}

/// What a cache file gives for `request` at `now`: the header (before the first data marker)
/// is UTF-8 whose lines are eleven fields naming the request, the saved source is the URL of
/// the request's poster, the save time is not in the future and less than
/// `TMDB_COVER_CACHE_TTL_SECONDS` ago, the announced length is that of the bytes after the
/// marker, and those bytes pass the cover checks; the cover is then those bytes, the saved
/// ratio text, and the image's width and height.
pub open spec fn spec_read_tmdb_cover_cache(file: Seq<u8>, request: TmdbCoverRequest, now: u64) -> Option<
    (Seq<u8>, Seq<char>, nat, nat),
> {
    match first_data_marker(file) {
        None => None,
        Some(m) => {
            let header = file.subrange(0, m);
            let bytes = file.subrange(m + 6, file.len() as int);
            if !valid_utf8(header) {
                None
            } else {
                let f = text_lines(decode_utf8(header));
                if !header_names_request(f, request) {
                    None
                } else {
                    cover_from_fields(f, bytes, request, now)
                }
            }
        },
    }
}

/// What header fields that name `request` give with the image bytes `bytes` at `now`.
pub open spec fn cover_from_fields(f: Seq<Seq<char>>, bytes: Seq<u8>, request: TmdbCoverRequest, now: u64) -> Option<
    (Seq<u8>, Seq<char>, nat, nat),
> {
    match (
        spec_decode_hex_text(f[7]),
        spec_parse_unsigned(f[8], u64::MAX as nat),
        spec_parse_unsigned(f[10], usize::MAX as nat),
    ) {
        (Some(source), Some(timestamp), Some(length)) => if request.poster_path is Some
            && spec_tmdb_poster_url(request.poster_path->0@) == Some(source) && timestamp <= now && now
            - timestamp < TMDB_COVER_CACHE_TTL_SECONDS && length == bytes.len() {
            match spec_cover_dimensions(bytes) {
                Some((w, h)) => Some((bytes, f[9], w, h)),
                None => None,
            }
        } else {
            None
        },
        _ => None,
    }
}

/// Where the first data marker of `file` starts.
fn find_data_marker(file: &[u8]) -> (found: Option<usize>)
    ensures
        match found {
            Some(k) => first_data_marker(file@) == Some(k as int) && k + 6 <= file@.len(),
            None => first_data_marker(file@) is None,
        },
{
    let mut k: usize = 0;
    while file.len() >= 6 && k <= file.len() - 6
        invariant
            forall|j: int| 0 <= j < k ==> !data_marker_at(file@, j),
        decreases file@.len() - k,
    {
        if file[k] == 10 && file[k + 1] == 68 && file[k + 2] == 65 && file[k + 3] == 84 && file[k + 4] == 65
            && file[k + 5] == 10 {
            proof {
                assert(file@.subrange(k as int, k + 6) =~= data_marker());
                let c = choose|c: int| data_marker_at(file@, c) && forall|j: int| 0 <= j < c ==> !data_marker_at(file@, j);
                assert(data_marker_at(file@, k as int));
                if c < k {
                } else if c > k {
                    assert(!data_marker_at(file@, k as int));
                }
            }
            return Some(k);
        }
        proof {
            if data_marker_at(file@, k as int) {
                assert(file@.subrange(k as int, k + 6)[0] == file@[k as int]);
                assert(file@.subrange(k as int, k + 6)[1] == file@[k + 1]);
                assert(file@.subrange(k as int, k + 6)[2] == file@[k + 2]);
                assert(file@.subrange(k as int, k + 6)[3] == file@[k + 3]);
                assert(file@.subrange(k as int, k + 6)[4] == file@[k + 4]);
                assert(file@.subrange(k as int, k + 6)[5] == file@[k + 5]);
            }
        }
        k = k + 1;
    }
    proof {
        assert forall|j: int| !data_marker_at(file@, j) by {
            if data_marker_at(file@, j) {
                assert(j < k);
            }
        }
    }
    None
}

fn copy_bytes(bytes: &[u8], start: usize, end: usize) -> (copy: Vec<u8>)
    requires
        start <= end <= bytes@.len(),
    ensures
        copy@ == bytes@.subrange(start as int, end as int),
{
    let mut copy: Vec<u8> = Vec::new();
    let mut i = start;
    while i < end
        invariant
            start <= i <= end <= bytes@.len(),
            copy@ == bytes@.subrange(start as int, i as int),
        decreases end - i,
    {
        copy.push(bytes[i]);
        i = i + 1;
        assert(copy@ =~= bytes@.subrange(start as int, i as int));
    }
    copy
}

fn is_word(t: &Vec<char>, word: &str) -> (result: bool)
    ensures
        result == (t@ == word@),
{
    let w = chars_of(word);
    chars_equal(t.as_slice(), &w)
}

fn optional_str(value: &Option<String>) -> (text: &str)
    ensures
        text@ == optional_text(optional_view(*value)),
{
    match value {
        Some(s) => s.as_str(),
        None => {
            proof {
                reveal_strlit("");
            }
            ""
        },
    }
}

fn decodes_to(t: &Vec<char>, expected: &str) -> (same: bool)
    ensures
        same == (spec_decode_hex_text(t@) == Some(expected@)),
{
    match decode_hex_chars(t.as_slice()) {
        Some(s) => {
            let x = chars_of(s.as_str());
            let y = chars_of(expected);
            chars_equal(&x, &y)
        },
        None => false,
    }
}

fn number_is(t: &Vec<char>, expected: u64) -> (same: bool)
    ensures
        same == (spec_parse_unsigned(t@, u64::MAX as nat) == Some(expected as nat)),
{
    match parse_unsigned(t.as_slice(), u64::MAX) {
        Some(n) => n == expected,
        None => false,
    }
}

/// The header lines of `file`, before the data marker at `m`, when they are UTF-8.
fn header_fields(file: &[u8], m: usize) -> (fields: Option<Vec<Vec<char>>>)
    requires
        m <= file@.len(),
    ensures
        match fields {
            Some(f) => valid_utf8(file@.subrange(0, m as int)) && pieces_view(f@) == text_lines(
                decode_utf8(file@.subrange(0, m as int)),
            ),
            None => !valid_utf8(file@.subrange(0, m as int)),
        },
{
    let header = copy_bytes(file, 0, m);
    let text = match string_from_utf8(header) {
        Some(text) => text,
        None => return None,
    };
    let t = chars_of(text.as_str());
    let f = lines_of(t.as_slice());
    assert(pieces_view(f@) =~= text_lines(t@));
    Some(f)
}

/// Whether header fields name `request` (see `header_names_request`).
fn names_request(f: &Vec<Vec<char>>, request: &TmdbCoverRequest) -> (named: bool)
    ensures
        named == header_names_request(pieces_view(f@), *request),
{
    if f.len() != 11 {
        return false;
    }
    let ghost v = pieces_view(f@);
    assert(f@[0]@ == v[0] && f@[1]@ == v[1] && f@[2]@ == v[2] && f@[3]@ == v[3]);
    assert(f@[4]@ == v[4] && f@[5]@ == v[5] && f@[6]@ == v[6]);
    is_word(&f[0], TMDB_COVER_CACHE_VERSION) && is_word(&f[1], request.category.as_str()) && is_word(
        &f[2],
        request.surface.as_str(),
    ) && decodes_to(&f[3], optional_str(&request.library_item_id)) && number_is(
        &f[4],
        match request.association_generation {
            Some(n) => n,
            None => 0,
        },
    ) && number_is(&f[5], request.tmdb_id) && decodes_to(&f[6], optional_str(&request.poster_path))
}

/// Reads the cache file `file` for `request` at `now` (see `spec_read_tmdb_cover_cache`).
#[verifier::rlimit(60)]
pub fn read_tmdb_cover_cache(file: &[u8], request: &TmdbCoverRequest, now: u64) -> (cover: Option<
    CachedTmdbCover,
>)
    ensures
        match cover {
            Some(c) => spec_read_tmdb_cover_cache(file@, *request, now) == Some(
                (c.bytes@, c.ratio@, c.width as nat, c.height as nat),
            ),
            None => spec_read_tmdb_cover_cache(file@, *request, now) is None,
        },
{
    let found = find_data_marker(file);
    let m = match found {
        Some(m) => m,
        None => return None,
    };
    let total = file.len();
    assert(m + 6 <= total);
    let f = match header_fields(file, m) {
        Some(f) => f,
        None => return None,
    };
    if !names_request(&f, request) {
        return None;
    }
    let bytes = copy_bytes(file, m + 6, total);
    cover_of_fields(&f, bytes, request, now)
}

fn cover_of_fields(f: &Vec<Vec<char>>, bytes: Vec<u8>, request: &TmdbCoverRequest, now: u64) -> (cover: Option<
    CachedTmdbCover,
>)
    requires
        f@.len() == 11,
    ensures
        match cover {
            Some(c) => cover_from_fields(pieces_view(f@), bytes@, *request, now) == Some(
                (c.bytes@, c.ratio@, c.width as nat, c.height as nat),
            ),
            None => cover_from_fields(pieces_view(f@), bytes@, *request, now) is None,
        },
{
    proof {
        assert(f@[7]@ == pieces_view(f@)[7] && f@[8]@ == pieces_view(f@)[8]);
        assert(f@[9]@ == pieces_view(f@)[9] && f@[10]@ == pieces_view(f@)[10]);
    }
    let source = match decode_hex_chars(f[7].as_slice()) {
        Some(s) => s,
        None => return None,
    };
    let timestamp = match parse_unsigned(f[8].as_slice(), u64::MAX) {
        Some(n) => n,
        None => return None,
    };
    let length = match parse_unsigned(f[10].as_slice(), usize::MAX as u64) {
        Some(n) => n,
        None => return None,
    };
    let poster_matches = match &request.poster_path {
        Some(p) => match tmdb_poster_url(p.as_str()) {
            Some(url) => {
                let x = chars_of(url.as_str());
                let y = chars_of(source.as_str());
                chars_equal(&x, &y)
            },
            None => false,
        },
        None => false,
    };
    if !poster_matches || timestamp > now || now - timestamp >= TMDB_COVER_CACHE_TTL_SECONDS || length
        != bytes.len() as u64 {
        return None;
    }
    match validate_cover(bytes) {
        Ok((kept, width, height)) => Some(
            CachedTmdbCover { bytes: kept, ratio: crate::text::string_from_chars(f[9].as_slice()), width, height },
        ),
        Err(_) => None,
    }
}

fn push_line(text: &mut String, line: &str, Ghost(lines): Ghost<Seq<Seq<char>>>)
    requires
        old(text)@ == ended_lines(lines),
    ensures
        final(text)@ == ended_lines(lines.push(line@)),
{
    assert(lines.push(line@).drop_last() =~= lines);
    push_str(text, line);
    push_char(text, '\n');
}

/// Writes the cache file of `bytes` for `request`: the header, saved at `timestamp`, with the
/// source URL and the ratio's text, then the bytes.
pub fn tmdb_cover_cache_file(
    request: &TmdbCoverRequest,
    source: &str,
    ratio: &str,
    timestamp: u64,
    bytes: &[u8],
) -> (file: Vec<u8>)
    ensures
        file@ == spec_tmdb_cover_cache_file(*request, source@, ratio@, timestamp, bytes@),
{
    proof {
        reveal_strlit("DATA");
    }
    let mut header = String::new();
    let ghost mut lines: Seq<Seq<char>> = Seq::empty();
    assert(header@ =~= ended_lines(lines));
    push_line(&mut header, TMDB_COVER_CACHE_VERSION, Ghost(lines));
    proof { lines = lines.push(TMDB_COVER_CACHE_VERSION@); }
    push_line(&mut header, request.category.as_str(), Ghost(lines));
    proof { lines = lines.push(request.category.text()); }
    push_line(&mut header, request.surface.as_str(), Ghost(lines));
    proof { lines = lines.push(request.surface.text()); }
    let item = encode_hex_text(optional_str(&request.library_item_id));
    push_line(&mut header, item.as_str(), Ghost(lines));
    proof { lines = lines.push(item@); }
    let association = decimal_string_of(match request.association_generation {
        Some(n) => n,
        None => 0,
    });
    push_line(&mut header, association.as_str(), Ghost(lines));
    proof { lines = lines.push(association@); }
    let id = decimal_string_of(request.tmdb_id);
    push_line(&mut header, id.as_str(), Ghost(lines));
    proof { lines = lines.push(id@); }
    let poster = encode_hex_text(optional_str(&request.poster_path));
    push_line(&mut header, poster.as_str(), Ghost(lines));
    proof { lines = lines.push(poster@); }
    let source_text = encode_hex_text(source);
    push_line(&mut header, source_text.as_str(), Ghost(lines));
    proof { lines = lines.push(source_text@); }
    let saved = decimal_string_of(timestamp);
    push_line(&mut header, saved.as_str(), Ghost(lines));
    proof { lines = lines.push(saved@); }
    push_line(&mut header, ratio, Ghost(lines));
    proof { lines = lines.push(ratio@); }
    let length = decimal_string_of(bytes.len() as u64);
    push_line(&mut header, length.as_str(), Ghost(lines));
    proof { lines = lines.push(length@); }
    push_line(&mut header, "DATA", Ghost(lines));
    proof {
        lines = lines.push("DATA"@);
        assert(lines =~= cache_header_fields(*request, source@, ratio@, timestamp, bytes@.len()));
    }
    let mut file: Vec<u8> = Vec::new();
    let head = header.as_str().as_bytes();
    let mut i: usize = 0;
    while i < head.len()
        invariant
            i <= head@.len(),
            file@ == head@.take(i as int),
        decreases head@.len() - i,
    {
        file.push(head[i]);
        i = i + 1;
        assert(file@ =~= head@.take(i as int));
    }
    let mut j: usize = 0;
    while j < bytes.len()
        invariant
            j <= bytes@.len(),
            file@ == head@ + bytes@.take(j as int),
        decreases bytes@.len() - j,
    {
        file.push(bytes[j]);
        j = j + 1;
        assert(file@ =~= head@ + bytes@.take(j as int));
    }
    assert(head@.take(head@.len() as int) =~= head@);
    assert(bytes@.take(bytes@.len() as int) =~= bytes@);
    file
}

/// Most files the cover cache directory holds.
pub const TMDB_COVER_CACHE_MAX_FILES: usize = 256;

/// Most bytes the cover cache directory holds.
pub const TMDB_COVER_CACHE_MAX_TOTAL_BYTES: u64 = 268435456;

/// A file in the cover cache directory: its path, its length, when it was last modified (in
/// nanoseconds from the epoch), whether it is an unfinished temporary file, and whether a
/// current cover still needs it.
#[derive(Clone, Debug, PartialEq, Eq)]
pub struct CacheFileInfo {
    pub path: String,
    pub length: u64,
    pub modified: i128,
    pub temporary: bool,
    pub protected: bool,
}

/// Whether `a` goes before `b` when files are given up: temporary files first, then the
/// least recently modified, then by path.
pub open spec fn evicted_before(a: CacheFileInfo, b: CacheFileInfo) -> bool {
    ||| a.temporary && !b.temporary
    ||| a.temporary == b.temporary && a.modified < b.modified
    ||| a.temporary == b.temporary && a.modified == b.modified && text_less(a.path@, b.path@)
}

/// Whether files are in the order they are given up in.
pub open spec fn eviction_ordered(files: Seq<CacheFileInfo>) -> bool {
    forall|i: int, j: int| 0 <= i < j < files.len() ==> !evicted_before(#[trigger] files[j], #[trigger] files[i])
}

proof fn lemma_evicted_before_order(a: CacheFileInfo, b: CacheFileInfo, c: CacheFileInfo)
    ensures
        !evicted_before(a, a),
        evicted_before(a, b) ==> !evicted_before(b, a),
        !evicted_before(a, b) && !evicted_before(b, c) ==> !evicted_before(a, c),
{
    lemma_text_less_order(a.path@, b.path@, c.path@);
    lemma_text_less_order(b.path@, a.path@, c.path@);
    lemma_text_less_order(a.path@, c.path@, b.path@);
    lemma_text_less_order(c.path@, b.path@, a.path@);
    lemma_text_less_order(b.path@, c.path@, a.path@);
    lemma_text_less_order(c.path@, a.path@, b.path@);
}

/// The total length of files.
pub open spec fn total_length(files: Seq<CacheFileInfo>) -> nat
    decreases files.len(),
{
    if files.len() == 0 {
        0
    } else {
        (total_length(files.drop_last()) + files.last().length) as nat
    }
}

/// Whether the first file that is not protected sits at `k`.
pub open spec fn first_unprotected(files: Seq<CacheFileInfo>, k: int) -> bool {
    0 <= k < files.len() && !files[k].protected && forall|j: int| 0 <= j < k ==> (#[trigger] files[j]).protected
}

/// The files given up, in order, to make room for one more file of `required` bytes among
/// ordered `files` holding `total` bytes: while the directory would hold too many files or
/// bytes, the first unprotected file goes; `None` when only protected files are left.
pub open spec fn evictions(files: Seq<CacheFileInfo>, total: nat, required: nat) -> Option<Seq<CacheFileInfo>>
    decreases files.len(),
{
    if files.len() + 1 <= TMDB_COVER_CACHE_MAX_FILES && total + required <= TMDB_COVER_CACHE_MAX_TOTAL_BYTES {
        Some(Seq::empty())
    } else if exists|k: int| first_unprotected(files, k) {
        let k = choose|k: int| first_unprotected(files, k);
        match evictions(files.remove(k), if total >= files[k].length { (total - files[k].length) as nat } else { 0 }, required) {
            Some(rest) => Some(seq![files[k]] + rest),
            None => None,
        }
    } else {
        None
    }
}

fn evicted_before_exec(a: &CacheFileInfo, b: &CacheFileInfo) -> (before: bool)
    ensures
        before == evicted_before(*a, *b),
{
    if a.temporary != b.temporary {
        return a.temporary;
    }
    if a.modified != b.modified {
        return a.modified < b.modified;
    }
    let x = chars_of(a.path.as_str());
    let y = chars_of(b.path.as_str());
    text_less_chars(&x, &y)
}

/// Puts files in the order they are given up in.
pub fn eviction_order(files: Vec<CacheFileInfo>) -> (sorted: Vec<CacheFileInfo>)
    ensures
        eviction_ordered(sorted@),
        sorted@.to_multiset() == files@.to_multiset(),
{
    let ghost original = files@;
    let mut rest = files;
    let mut sorted: Vec<CacheFileInfo> = Vec::new();
    let ghost mut i: int = 0;
    proof {
        assert(original.take(0) =~= Seq::<CacheFileInfo>::empty());
        assert(sorted@ =~= Seq::<CacheFileInfo>::empty());
    }
    while rest.len() > 0
        invariant
            0 <= i <= original.len(),
            rest@ == original.subrange(i, original.len() as int),
            eviction_ordered(sorted@),
            sorted@.to_multiset() == original.take(i).to_multiset(),
        decreases rest@.len(),
    {
        let x = rest.remove(0);
        let mut p: usize = sorted.len();
        while p > 0 && evicted_before_exec(&x, &sorted[p - 1])
            invariant
                p <= sorted@.len(),
                forall|k: int| p <= k < sorted@.len() ==> evicted_before(x, #[trigger] sorted@[k]),
            decreases p,
        {
            p = p - 1;
        }
        let ghost before = sorted@;
        proof {
            assert forall|k: int| 0 <= k < p implies !evicted_before(x, #[trigger] before[k]) by {
                if k < p - 1 {
                    assert(!evicted_before(x, before[p - 1]));
                    assert(!evicted_before(before[p - 1], before[k]));
                    lemma_evicted_before_order(x, before[p - 1], before[k]);
                    lemma_evicted_before_order(before[k], before[p - 1], x);
                }
            }
        }
        let ghost xv = x;
        sorted.insert(p, x);
        proof {
            let after = sorted@;
            assert(after =~= before.insert(p as int, xv));
            assert forall|a: int, b: int| 0 <= a < b < after.len() implies !evicted_before(
                #[trigger] after[b],
                #[trigger] after[a],
            ) by {
                if a < p && b == p {
                    lemma_evicted_before_order(xv, before[a], xv);
                } else if a == p && b > p {
                    assert(after[b] == before[b - 1]);
                    lemma_evicted_before_order(xv, before[b - 1], xv);
                } else if b < p {
                    assert(after[a] == before[a] && after[b] == before[b]);
                } else if a > p {
                    assert(after[a] == before[a - 1] && after[b] == before[b - 1]);
                } else {
                    assert(after[a] == before[a] && after[b] == before[b - 1]);
                }
            }
            vstd::seq_lib::to_multiset_insert(before, p as int, xv);
            assert(xv == original[i]);
            assert(original.take(i + 1) =~= original.take(i).push(original[i]));
            vstd::seq_lib::to_multiset_build(original.take(i), original[i]);
            i = i + 1;
            assert(rest@ =~= original.subrange(i, original.len() as int));
        }
    }
    proof {
        assert(original.take(i) =~= original);
    }
    sorted
}

proof fn lemma_total_prefix(s: Seq<CacheFileInfo>, k: int)
    requires
        0 <= k <= s.len(),
    ensures
        total_length(s.take(k)) <= total_length(s),
    decreases s.len() - k,
{
    if k < s.len() {
        lemma_total_prefix(s, k + 1);
        assert(s.take(k + 1).drop_last() =~= s.take(k));
    } else {
        assert(s.take(k) =~= s);
    }
}

fn total_of(files: &Vec<CacheFileInfo>) -> (total: u64)
    requires
        total_length(files@) <= u64::MAX,
    ensures
        total == total_length(files@),
{
    let mut total: u64 = 0;
    let mut k: usize = 0;
    while k < files.len()
        invariant
            k <= files@.len(),
            total_length(files@) <= u64::MAX,
            total == total_length(files@.take(k as int)),
        decreases files@.len() - k,
    {
        proof {
            assert(files@.take(k + 1).drop_last() =~= files@.take(k as int));
            lemma_total_prefix(files@, k + 1);
        }
        total = total + files[k].length;
        k = k + 1;
    }
    assert(files@.take(files@.len() as int) =~= files@);
    total
}

fn find_unprotected(files: &Vec<CacheFileInfo>) -> (found: Option<usize>)
    ensures
        match found {
            Some(k) => first_unprotected(files@, k as int),
            None => !exists|k: int| first_unprotected(files@, k),
        },
{
    let mut k: usize = 0;
    while k < files.len()
        invariant
            k <= files@.len(),
            forall|j: int| 0 <= j < k ==> (#[trigger] files@[j]).protected,
        decreases files@.len() - k,
    {
        if !files[k].protected {
            return Some(k);
        }
        k = k + 1;
    }
    None
}

/// The files to give up, in order, so that ordered `files` leave room for one more file of
/// `required` bytes (see `evictions`); `None` when protected files alone are too many.
pub fn cache_evictions(files: Vec<CacheFileInfo>, required: u64) -> (evicted: Option<Vec<CacheFileInfo>>)
    requires
        total_length(files@) <= u64::MAX,
    ensures
        match evicted {
            Some(v) => evictions(files@, total_length(files@), required as nat) == Some(v@),
            None => evictions(files@, total_length(files@), required as nat) is None,
        },
{
    let ghost original = files@;
    let mut total = total_of(&files);
    let mut rest = files;
    let mut out: Vec<CacheFileInfo> = Vec::new();
    proof {
        assert(out@ + Seq::<CacheFileInfo>::empty() =~= out@);
        match evictions(rest@, total as nat, required as nat) {
            Some(r) => assert(Seq::<CacheFileInfo>::empty() + r =~= r),
            None => {},
        }
    }
    loop
        invariant
            original == files@,
            evictions(original, total_length(original), required as nat) == match evictions(
                rest@,
                total as nat,
                required as nat,
            ) {
                Some(r) => Some(out@ + r),
                None => None::<Seq<CacheFileInfo>>,
            },
        decreases rest@.len(),
    {
        let sum = total.saturating_add(required);
        assert(sum <= TMDB_COVER_CACHE_MAX_TOTAL_BYTES <==> total + required <= TMDB_COVER_CACHE_MAX_TOTAL_BYTES);
        let room = rest.len() < TMDB_COVER_CACHE_MAX_FILES && sum <= TMDB_COVER_CACHE_MAX_TOTAL_BYTES;
        if room {
            proof {
                assert(evictions(rest@, total as nat, required as nat) == Some(Seq::<CacheFileInfo>::empty()));
                assert(out@ + Seq::<CacheFileInfo>::empty() =~= out@);
            }
            return Some(out);
        }
        let k = match find_unprotected(&rest) {
            Some(k) => k,
            None => {
                assert(evictions(rest@, total as nat, required as nat) is None);
                return None;
            },
        };
        let ghost before = rest@;
        let ghost t = total;
        let gone = rest.remove(k);
        total = total.saturating_sub(gone.length);
        proof {
            let c = choose|c: int| first_unprotected(before, c);
            assert(c == k as int) by {
                if c < k {
                    assert(before[c].protected);
                } else if c > k {
                    assert(before[k as int].protected);
                }
            }
            assert(rest@ =~= before.remove(k as int));
            match evictions(rest@, total as nat, required as nat) {
                Some(r) => {
                    assert(out@.push(gone) + r =~= out@ + (seq![gone] + r));
                },
                None => {},
            }
        }
        out.push(gone);
    }
}

} // verus!
