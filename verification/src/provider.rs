//! What the native boundary makes of provider replies and volume queries: the HTTP status
//! that the fetch appends to a document, the errors each provider reports, and the storage
//! figures a volume query prints.
use vstd::prelude::*;
use vstd::utf8::{decode_utf8, valid_utf8};

use crate::hex::string_from_utf8;
use crate::text::{
    chars_of, copy_range, parse_unsigned, spec_parse_unsigned, split_ranges_exec, split_text,
    string_from_chars, trim_space, trim_space_exec, word_ranges, words,
};
use crate::tv_store::{blank, byte_len, is_blank, text_byte_len};

verus! {

/// The largest provider document taken across the native boundary, in bytes.
pub const PROVIDER_RESPONSE_MAX_BYTES: usize = 4194304;

pub const VR_NETWORK_ERROR: &'static str = "vr_network_error";

pub const VR_PROVIDER_ERROR: &'static str = "vr_provider_error";

pub const VR_SOURCE_UNAVAILABLE: &'static str = "vr_source_unavailable";

pub const ADULT_NETWORK_ERROR: &'static str = "adult_network_error";

pub const ADULT_PROVIDER_ERROR: &'static str = "adult_provider_error";

pub const ADULT_SOURCE_UNAVAILABLE: &'static str = "adult_source_unavailable";

pub const MOVIE_TMDB_NETWORK_ERROR: &'static str = "movie_tmdb_network_error";

pub const MOVIE_TMDB_PROVIDER_ERROR: &'static str = "movie_tmdb_provider_error";

pub const MOVIE_TMDB_RATE_LIMITED: &'static str = "movie_tmdb_rate_limited";

pub const MOVIE_TMDB_UNAUTHORIZED: &'static str = "movie_tmdb_unauthorized";

pub const TV_METADATA_TMDB_NETWORK_ERROR: &'static str = "tv_metadata_tmdb_network_error";

pub const TV_METADATA_TMDB_PROVIDER_ERROR: &'static str = "tv_metadata_tmdb_provider_error";

pub const TV_METADATA_TMDB_RATE_LIMITED: &'static str = "tv_metadata_tmdb_rate_limited";

pub const TV_METADATA_TMDB_UNAUTHORIZED: &'static str = "tv_metadata_tmdb_unauthorized";

pub const MOVIE_YTS_NETWORK_ERROR: &'static str = "movie_yts_network_error";

pub const MOVIE_YTS_PROVIDER_ERROR: &'static str = "movie_yts_provider_error";

pub const MOVIE_YTS_SOURCE_UNAVAILABLE: &'static str = "movie_yts_source_unavailable";

/// Why a catalog provider request failed.
#[derive(Clone, Copy, Debug, PartialEq, Eq)]
pub enum ProviderRequestError {
    SourceUnavailable,
    Network,
    Provider,
}

/// Why a movie metadata or release provider request failed.
#[derive(Clone, Copy, Debug, PartialEq, Eq)]
pub enum MovieProviderRequestError {
    Unauthorized,
    RateLimited,
    SourceUnavailable,
    Network,
    Provider,
}

/// Why a volume storage query failed.
#[derive(Clone, Copy, Debug, PartialEq, Eq)]
pub enum MoviesVolumeStorageQueryError {
    Unavailable,
    Failed,
}

/// The line that the fetch appends after a document, before the HTTP status.
pub open spec fn status_marker() -> Seq<char> {
    seq![
        '\n', 'A', 'U', 'T', 'O', '_', 'V', 'I', 'D', 'E', 'O', '_', 'H', 'T', 'T', 'P', '_', 'S',
        'T', 'A', 'T', 'U', 'S', ':',
    ]
}

/// Whether the status marker starts at `k`.
pub open spec fn marker_at(t: Seq<char>, k: int) -> bool {
    0 <= k && k + 24 <= t.len() && t.subrange(k, k + 24) == status_marker()
}

/// The last position at or before `k` where the status marker starts, or -1.
pub open spec fn last_marker_from(t: Seq<char>, k: int) -> int
    decreases k + 1,
{
    if k < 0 {
        -1
    } else if marker_at(t, k) {
        k
    } else {
        last_marker_from(t, k - 1)
    }
}

/// Where the last status marker of `t` starts, or -1.
pub open spec fn last_marker(t: Seq<char>) -> int {
    last_marker_from(t, t.len() - 24)
}

/// The document and HTTP status of a provider reply: the text before the last status marker,
/// and what follows it trimmed of whitespace and read as a `u16`; none when the reply is not
/// UTF-8, has no marker or no readable status.
pub open spec fn spec_provider_reply(bytes: Seq<u8>) -> Option<(Seq<char>, nat)> {
    if !valid_utf8(bytes) {
        None
    } else {
        let t = decode_utf8(bytes);
        let k = last_marker(t);
        if k < 0 {
            None
        } else {
            match spec_parse_unsigned(trim_space(t.subrange(k + 24, t.len() as int)), 65535) {
                None => None,
                Some(status) => Some((t.subrange(0, k), status)),
            }
        }
    }
}

/// Whether a reply carries a document: a 2xx status and at most
/// `PROVIDER_RESPONSE_MAX_BYTES` bytes of document.
pub open spec fn reply_accepted(document: Seq<char>, status: nat) -> bool {
    200 <= status <= 299 && byte_len(document) <= PROVIDER_RESPONSE_MAX_BYTES
}

/// What a catalog provider reply gives: the document of an accepted reply, `SourceUnavailable`
/// for 404, 410 and 451, `Provider` for anything else.
pub open spec fn spec_provider_response(bytes: Seq<u8>) -> Result<Seq<char>, ProviderRequestError> {
    match spec_provider_reply(bytes) {
        None => Err(ProviderRequestError::Provider),
        Some((document, status)) => if reply_accepted(document, status) {
            Ok(document)
        } else if status == 404 || status == 410 || status == 451 {
            Err(ProviderRequestError::SourceUnavailable)
        } else {
            Err(ProviderRequestError::Provider)
        },
    }
}

/// What a movie provider reply gives: the document of an accepted reply, `Unauthorized` for
/// 401 and 403, `SourceUnavailable` for 404, 410 and 451, `RateLimited` for 429, `Network` for
/// status 0 (no response), `Provider` for anything else.
pub open spec fn spec_movie_provider_response(bytes: Seq<u8>) -> Result<
    Seq<char>,
    MovieProviderRequestError,
> {
    match spec_provider_reply(bytes) {
        None => Err(MovieProviderRequestError::Provider),
        Some((document, status)) => if reply_accepted(document, status) {
            Ok(document)
        } else if status == 401 || status == 403 {
            Err(MovieProviderRequestError::Unauthorized)
        } else if status == 404 || status == 410 || status == 451 {
            Err(MovieProviderRequestError::SourceUnavailable)
        } else if status == 429 {
            Err(MovieProviderRequestError::RateLimited)
        } else if status == 0 {
            Err(MovieProviderRequestError::Network)
        } else {
            Err(MovieProviderRequestError::Provider)
        },
    }
}

/// The status marker holds a line break at its start only.
proof fn lemma_marker_breaks_once()
    ensures
        status_marker().len() == 24,
        forall|i: int| 1 <= i < 24 ==> #[trigger] status_marker()[i] != '\n',
{
    let m = status_marker();
    assert forall|i: int| 1 <= i < 24 implies #[trigger] m[i] != '\n' by {
        assert(m[i] == seq![
            '\n', 'A', 'U', 'T', 'O', '_', 'V', 'I', 'D', 'E', 'O', '_', 'H', 'T', 'T', 'P', '_', 'S',
            'T', 'A', 'T', 'U', 'S', ':',
        ][i]);
    }
}

/// In a document followed by the status marker and a status text with no line break, the
/// last marker is the one after the document.
proof fn lemma_last_marker_after_document(d: Seq<char>, status: Seq<char>, k: int)
    requires
        forall|i: int| 0 <= i < status.len() ==> status[i] != '\n',
        d.len() <= k <= d.len() + status.len(),
    ensures
        last_marker_from(d + status_marker() + status, k) == d.len(),
    decreases k,
{
    let t = d + status_marker() + status;
    let m = status_marker();
    lemma_marker_breaks_once();
    if k == d.len() {
        assert(t.subrange(k, k + 24) =~= m);
    } else {
        if marker_at(t, k) {
            assert(t.subrange(k, k + 24)[0] == t[k]);
            if k < d.len() + 24 {
                assert(t[k] == m[k - d.len()]);
            } else {
                assert(t[k] == status[k - d.len() - 24]);
            }
        }
        lemma_last_marker_after_document(d, status, k - 1);
    }
}

/// A movie provider reply that fails by its status reports the same error whatever document
/// came before the status: an error depends on the status alone and carries nothing of the
/// document.
pub proof fn law_movie_provider_error_ignores_document(
    o1: Seq<u8>,
    o2: Seq<u8>,
    d1: Seq<char>,
    d2: Seq<char>,
    status: Seq<char>,
)
    requires
        valid_utf8(o1),
        valid_utf8(o2),
        decode_utf8(o1) == d1 + status_marker() + status,
        decode_utf8(o2) == d2 + status_marker() + status,
        forall|i: int| 0 <= i < status.len() ==> status[i] != '\n',
        spec_parse_unsigned(trim_space(status), 65535) matches Some(n) ==> !(200 <= n <= 299),
    ensures
        spec_movie_provider_response(o1) is Err,
        spec_movie_provider_response(o1) == spec_movie_provider_response(o2),
{
    lemma_last_marker_after_document(d1, status, (d1.len() + status.len()) as int);
    lemma_last_marker_after_document(d2, status, (d2.len() + status.len()) as int);
    let t1 = d1 + status_marker() + status;
    let t2 = d2 + status_marker() + status;
    assert(t1.subrange(d1.len() + 24int, t1.len() as int) =~= status);
    assert(t2.subrange(d2.len() + 24int, t2.len() as int) =~= status);
}

/// Whether the status marker starts at `k` of `t`.
fn marker_at_exec(t: &[char], k: usize) -> (found: bool)
    ensures
        found == marker_at(t@, k as int),
{
    let marker = [
        '\n', 'A', 'U', 'T', 'O', '_', 'V', 'I', 'D', 'E', 'O', '_', 'H', 'T', 'T', 'P', '_', 'S',
        'T', 'A', 'T', 'U', 'S', ':',
    ];
    assert(marker@ == status_marker());
    if t.len() < 24 || k > t.len() - 24 {
        return false;
    }
    let mut i: usize = 0;
    while i < 24
        invariant
            k + 24 <= t.len(),
            marker@ == status_marker(),
            i <= 24,
            forall|j: int| 0 <= j < i ==> t@[k + j] == marker@[j],
        decreases 24 - i,
    {
        if t[k + i] != marker[i] {
            assert(t@.subrange(k as int, k + 24)[i as int] != status_marker()[i as int]);
            return false;
        }
        i = i + 1;
    }
    assert(t@.subrange(k as int, k + 24) =~= status_marker());
    true
}

/// Where the last status marker of `t` starts.
fn find_last_marker(t: &[char]) -> (found: Option<usize>)
    ensures
        match found {
            Some(k) => last_marker(t@) == k as int && k + 24 <= t@.len(),
            None => last_marker(t@) < 0,
        },
{
    if t.len() < 24 {
        assert(last_marker_from(t@, t@.len() - 24) == -1);
        return None;
    }
    let mut j: usize = t.len() - 23;
    while j > 0
        invariant
            24 <= t@.len(),
            j <= t@.len() - 23,
            last_marker(t@) == last_marker_from(t@, j - 1),
        decreases j,
    {
        if marker_at_exec(t, j - 1) {
            return Some(j - 1);
        }
        j = j - 1;
    }
    assert(last_marker_from(t@, -1) == -1);
    None
}

/// The document and HTTP status of a provider reply.
fn provider_reply(output: &[u8]) -> (reply: Option<(Vec<char>, u64)>)
    ensures
        match reply {
            Some((document, status)) => spec_provider_reply(output@) == Some(
                (document@, status as nat),
            ),
            None => spec_provider_reply(output@) is None,
        },
{
    let text = match string_from_utf8(vstd::slice::slice_to_vec(output)) {
        None => return None,
        Some(text) => text,
    };
    let t = chars_of(text.as_str());
    assert(t@ == decode_utf8(output@));
    let k = match find_last_marker(&t) {
        None => return None,
        Some(k) => k,
    };
    let status_text = trim_space_exec(vstd::slice::slice_subrange(&t, k + 24, t.len()));
    let status = match parse_unsigned(&status_text, 65535) {
        None => return None,
        Some(status) => status,
    };
    Some((copy_range(&t, 0, k), status))
}

/// The document of a catalog provider reply, or why there is none.
pub fn parse_provider_response(output: &[u8]) -> (result: Result<String, ProviderRequestError>)
    ensures
        match result {
            Ok(document) => spec_provider_response(output@) == Ok::<
                Seq<char>,
                ProviderRequestError,
            >(document@),
            Err(e) => spec_provider_response(output@) == Err::<Seq<char>, ProviderRequestError>(e),
        },
{
    let (document, status) = match provider_reply(output) {
        None => return Err(ProviderRequestError::Provider),
        Some(reply) => reply,
    };
    let document = string_from_chars(&document);
    if 200 <= status && status <= 299 && text_byte_len(&document) <= PROVIDER_RESPONSE_MAX_BYTES {
        Ok(document)
    } else if status == 404 || status == 410 || status == 451 {
        Err(ProviderRequestError::SourceUnavailable)
    } else {
        Err(ProviderRequestError::Provider)
    }
}

/// The document of a movie provider reply, or why there is none.
pub fn parse_movie_provider_response(output: &[u8]) -> (result: Result<String, MovieProviderRequestError>)
    ensures
        match result {
            Ok(document) => spec_movie_provider_response(output@) == Ok::<
                Seq<char>,
                MovieProviderRequestError,
            >(document@),
            Err(e) => spec_movie_provider_response(output@) == Err::<
                Seq<char>,
                MovieProviderRequestError,
            >(e),
        },
{
    let (document, status) = match provider_reply(output) {
        None => return Err(MovieProviderRequestError::Provider),
        Some(reply) => reply,
    };
    let document = string_from_chars(&document);
    if 200 <= status && status <= 299 && text_byte_len(&document) <= PROVIDER_RESPONSE_MAX_BYTES {
        Ok(document)
    } else if status == 401 || status == 403 {
        Err(MovieProviderRequestError::Unauthorized)
    } else if status == 404 || status == 410 || status == 451 {
        Err(MovieProviderRequestError::SourceUnavailable)
    } else if status == 429 {
        Err(MovieProviderRequestError::RateLimited)
    } else if status == 0 {
        Err(MovieProviderRequestError::Network)
    } else {
        Err(MovieProviderRequestError::Provider)
    }
}

pub open spec fn spec_provider_error_code(error: ProviderRequestError) -> &'static str {
    match error {
        ProviderRequestError::SourceUnavailable => VR_SOURCE_UNAVAILABLE,
        ProviderRequestError::Network => VR_NETWORK_ERROR,
        ProviderRequestError::Provider => VR_PROVIDER_ERROR,
    }
}

/// The error a VR catalog request reports.
pub fn provider_error_code(error: ProviderRequestError) -> (code: &'static str)
    ensures
        code == spec_provider_error_code(error),
{
    match error {
        ProviderRequestError::SourceUnavailable => VR_SOURCE_UNAVAILABLE,
        ProviderRequestError::Network => VR_NETWORK_ERROR,
        ProviderRequestError::Provider => VR_PROVIDER_ERROR,
    }
}

pub open spec fn spec_adult_provider_error_code(error: ProviderRequestError) -> &'static str {
    match error {
        ProviderRequestError::SourceUnavailable => ADULT_SOURCE_UNAVAILABLE,
        ProviderRequestError::Network => ADULT_NETWORK_ERROR,
        ProviderRequestError::Provider => ADULT_PROVIDER_ERROR,
    }
}

/// The error an adult catalog request reports.
pub fn adult_provider_error_code(error: ProviderRequestError) -> (code: &'static str)
    ensures
        code == spec_adult_provider_error_code(error),
{
    match error {
        ProviderRequestError::SourceUnavailable => ADULT_SOURCE_UNAVAILABLE,
        ProviderRequestError::Network => ADULT_NETWORK_ERROR,
        ProviderRequestError::Provider => ADULT_PROVIDER_ERROR,
    }
}

pub open spec fn spec_tmdb_movie_provider_error_code(error: MovieProviderRequestError) -> &'static str {
    match error {
        MovieProviderRequestError::Unauthorized => MOVIE_TMDB_UNAUTHORIZED,
        MovieProviderRequestError::RateLimited => MOVIE_TMDB_RATE_LIMITED,
        MovieProviderRequestError::Network => MOVIE_TMDB_NETWORK_ERROR,
        MovieProviderRequestError::SourceUnavailable => MOVIE_TMDB_PROVIDER_ERROR,
        MovieProviderRequestError::Provider => MOVIE_TMDB_PROVIDER_ERROR,
    }
}

/// The error a TMDB movie request reports.
pub fn tmdb_movie_provider_error_code(error: MovieProviderRequestError) -> (code: &'static str)
    ensures
        code == spec_tmdb_movie_provider_error_code(error),
{
    match error {
        MovieProviderRequestError::Unauthorized => MOVIE_TMDB_UNAUTHORIZED,
        MovieProviderRequestError::RateLimited => MOVIE_TMDB_RATE_LIMITED,
        MovieProviderRequestError::Network => MOVIE_TMDB_NETWORK_ERROR,
        MovieProviderRequestError::SourceUnavailable => MOVIE_TMDB_PROVIDER_ERROR,
        MovieProviderRequestError::Provider => MOVIE_TMDB_PROVIDER_ERROR,
    }
}

pub open spec fn spec_tmdb_tv_metadata_provider_error_code(error: MovieProviderRequestError) -> &'static str {
    match error {
        MovieProviderRequestError::Unauthorized => TV_METADATA_TMDB_UNAUTHORIZED,
        MovieProviderRequestError::RateLimited => TV_METADATA_TMDB_RATE_LIMITED,
        MovieProviderRequestError::Network => TV_METADATA_TMDB_NETWORK_ERROR,
        MovieProviderRequestError::SourceUnavailable => TV_METADATA_TMDB_PROVIDER_ERROR,
        MovieProviderRequestError::Provider => TV_METADATA_TMDB_PROVIDER_ERROR,
    }
}

/// The error a TMDB TV metadata request reports.
pub fn tmdb_tv_metadata_provider_error_code(error: MovieProviderRequestError) -> (code: &'static str)
    ensures
        code == spec_tmdb_tv_metadata_provider_error_code(error),
{
    match error {
        MovieProviderRequestError::Unauthorized => TV_METADATA_TMDB_UNAUTHORIZED,
        MovieProviderRequestError::RateLimited => TV_METADATA_TMDB_RATE_LIMITED,
        MovieProviderRequestError::Network => TV_METADATA_TMDB_NETWORK_ERROR,
        MovieProviderRequestError::SourceUnavailable => TV_METADATA_TMDB_PROVIDER_ERROR,
        MovieProviderRequestError::Provider => TV_METADATA_TMDB_PROVIDER_ERROR,
    }
}

pub open spec fn spec_yts_movie_provider_error_code(error: MovieProviderRequestError) -> &'static str {
    match error {
        MovieProviderRequestError::SourceUnavailable => MOVIE_YTS_SOURCE_UNAVAILABLE,
        MovieProviderRequestError::Network => MOVIE_YTS_NETWORK_ERROR,
        MovieProviderRequestError::Unauthorized => MOVIE_YTS_PROVIDER_ERROR,
        MovieProviderRequestError::RateLimited => MOVIE_YTS_PROVIDER_ERROR,
        MovieProviderRequestError::Provider => MOVIE_YTS_PROVIDER_ERROR,
    }
}

/// The error a YTS release request reports.
pub fn yts_movie_provider_error_code(error: MovieProviderRequestError) -> (code: &'static str)
    ensures
        code == spec_yts_movie_provider_error_code(error),
{
    match error {
        MovieProviderRequestError::SourceUnavailable => MOVIE_YTS_SOURCE_UNAVAILABLE,
        MovieProviderRequestError::Network => MOVIE_YTS_NETWORK_ERROR,
        MovieProviderRequestError::Unauthorized => MOVIE_YTS_PROVIDER_ERROR,
        MovieProviderRequestError::RateLimited => MOVIE_YTS_PROVIDER_ERROR,
        MovieProviderRequestError::Provider => MOVIE_YTS_PROVIDER_ERROR,
    }
}

/// The last of `lines[..k]` that is not blank.
pub open spec fn last_filled_line(lines: Seq<Seq<char>>, k: int) -> Option<Seq<char>>
    decreases k,
{
    if k <= 0 {
        None
    } else if !is_blank(lines[k - 1]) {
        Some(lines[k - 1])
    } else {
        last_filled_line(lines, k - 1)
    }
}

/// A count of 1024-byte blocks as bytes, when it fits a `u64`.
pub open spec fn blocks_to_bytes(word: Seq<char>) -> Option<u64> {
    match spec_parse_unsigned(word, u64::MAX as nat) {
        Some(blocks) => if blocks * 1024 <= u64::MAX {
            Some((blocks * 1024) as u64)
        } else {
            None
        },
        None => None,
    }
}

/// The total and free bytes that `df -k -P` prints: from the last line that is not blank,
/// its second and fourth words, in 1024-byte blocks.
pub open spec fn spec_macos_volume_storage(bytes: Seq<u8>) -> Option<(u64, u64)> {
    if !valid_utf8(bytes) {
        None
    } else {
        let lines = split_text(decode_utf8(bytes), '\n');
        match last_filled_line(lines, lines.len() as int) {
            None => None,
            Some(line) => {
                let w = words(line);
                if w.len() < 4 {
                    None
                } else {
                    match (blocks_to_bytes(w[1]), blocks_to_bytes(w[3])) {
                        (Some(total), Some(free)) => Some((total, free)),
                        _ => None,
                    }
                }
            },
        }
    }
}

/// The total and free bytes that the Windows volume query prints: exactly two words, each a
/// number of bytes.
pub open spec fn spec_windows_volume_storage(bytes: Seq<u8>) -> Option<(u64, u64)> {
    if !valid_utf8(bytes) {
        None
    } else {
        let w = words(decode_utf8(bytes));
        if w.len() != 2 {
            None
        } else {
            match (
                spec_parse_unsigned(w[0], u64::MAX as nat),
                spec_parse_unsigned(w[1], u64::MAX as nat),
            ) {
                (Some(total), Some(free)) => Some((total as u64, free as u64)),
                _ => None,
            }
        }
    }
}

/// What a volume query gives, as the pair of figures or a failure.
pub open spec fn storage_result(figures: Option<(u64, u64)>) -> Result<(u64, u64), MoviesVolumeStorageQueryError> {
    match figures {
        Some(pair) => Ok(pair),
        None => Err(MoviesVolumeStorageQueryError::Failed),
    }
}

/// The pair of a two-element array.
pub open spec fn pair_of(values: [u64; 2]) -> (u64, u64) {
    (values@[0], values@[1])
}

fn blocks_to_bytes_exec(t: &[char], r: (usize, usize)) -> (bytes: Option<u64>)
    requires
        r.0 <= r.1 <= t@.len(),
    ensures
        bytes == blocks_to_bytes(t@.subrange(r.0 as int, r.1 as int)),
{
    match parse_unsigned(vstd::slice::slice_subrange(t, r.0, r.1), u64::MAX) {
        Some(blocks) => if blocks <= u64::MAX / 1024 {
            Some(blocks * 1024)
        } else {
            None
        },
        None => None,
    }
}

/// The total and free bytes that `df -k -P` printed.
pub fn parse_macos_volume_storage(output: &[u8]) -> (result: Result<[u64; 2], MoviesVolumeStorageQueryError>)
    ensures
        match result {
            Ok(values) => storage_result(spec_macos_volume_storage(output@)) == Ok::<
                (u64, u64),
                MoviesVolumeStorageQueryError,
            >(pair_of(values)),
            Err(e) => storage_result(spec_macos_volume_storage(output@)) == Err::<
                (u64, u64),
                MoviesVolumeStorageQueryError,
            >(e),
        },
{
    let text = match string_from_utf8(vstd::slice::slice_to_vec(output)) {
        None => return Err(MoviesVolumeStorageQueryError::Failed),
        Some(text) => text,
    };
    let t = chars_of(text.as_str());
    let lines = split_ranges_exec(&t, '\n');
    let ghost ls = split_text(t@, '\n');
    let mut k: usize = lines.len();
    assert(t@ == decode_utf8(output@));
    loop
        invariant
            valid_utf8(output@),
            t@ == decode_utf8(output@),
            ls == split_text(t@, '\n'),
            lines@.len() == ls.len(),
            forall|j: int|
                0 <= j < lines@.len() ==> (#[trigger] lines@[j]).0 <= lines@[j].1 <= t@.len()
                    && t@.subrange(lines@[j].0 as int, lines@[j].1 as int) == ls[j],
            k <= lines@.len(),
            last_filled_line(ls, ls.len() as int) == last_filled_line(ls, k as int),
        decreases k,
    {
        if k == 0 {
            return Err(MoviesVolumeStorageQueryError::Failed);
        }
        let (a, b) = lines[k - 1];
        let line = vstd::slice::slice_subrange(&t, a, b);
        assert(line@ == ls[k - 1]);
        let text_line = string_from_chars(line);
        if !blank(text_line.as_str()) {
            let w = word_ranges(line);
            if w.len() < 4 {
                return Err(MoviesVolumeStorageQueryError::Failed);
            }
            let total = blocks_to_bytes_exec(line, w[1]);
            let free = blocks_to_bytes_exec(line, w[3]);
            match (total, free) {
                (Some(total), Some(free)) => {
                    let values = [total, free];
                    assert(pair_of(values) == (total, free));
                    return Ok(values);
                },
                _ => return Err(MoviesVolumeStorageQueryError::Failed),
            }
        }
        k = k - 1;
    }
}

/// The total and free bytes that the Windows volume query printed.
pub fn parse_windows_volume_storage(output: &[u8]) -> (result: Result<[u64; 2], MoviesVolumeStorageQueryError>)
    ensures
        match result {
            Ok(values) => storage_result(spec_windows_volume_storage(output@)) == Ok::<
                (u64, u64),
                MoviesVolumeStorageQueryError,
            >(pair_of(values)),
            Err(e) => storage_result(spec_windows_volume_storage(output@)) == Err::<
                (u64, u64),
                MoviesVolumeStorageQueryError,
            >(e),
        },
{
    let text = match string_from_utf8(vstd::slice::slice_to_vec(output)) {
        None => return Err(MoviesVolumeStorageQueryError::Failed),
        Some(text) => text,
    };
    let t = chars_of(text.as_str());
    let w = word_ranges(&t);
    if w.len() != 2 {
        return Err(MoviesVolumeStorageQueryError::Failed);
    }
    let total = parse_unsigned(vstd::slice::slice_subrange(&t, w[0].0, w[0].1), u64::MAX);
    let free = parse_unsigned(vstd::slice::slice_subrange(&t, w[1].0, w[1].1), u64::MAX);
    match (total, free) {
        (Some(total), Some(free)) => {
            let values = [total, free];
            assert(pair_of(values) == (total, free));
            Ok(values)
        },
        _ => Err(MoviesVolumeStorageQueryError::Failed),
    }
}

/// What a volume storage query gives, given the configured folder: none configured, or one
/// that is not a directory, is unavailable without a query; the query's unavailability and
/// failure map to the two errors; figures with no total or more free than total bytes fail.
pub open spec fn spec_volume_storage(
    queried: Result<[u64; 2], MoviesVolumeStorageQueryError>,
    unavailable_error: &'static str,
    failed_error: &'static str,
) -> Result<(u64, u64), &'static str> {
    match queried {
        Err(MoviesVolumeStorageQueryError::Unavailable) => Err(unavailable_error),
        Err(MoviesVolumeStorageQueryError::Failed) => Err(failed_error),
        Ok(values) => if values@[0] == 0 || values@[1] > values@[0] {
            Err(failed_error)
        } else {
            Ok(pair_of(values))
        },
    }
}

/// Queries the storage of the volume holding `folder` through `query`, once `is_directory`
/// confirmed the folder; checks the figures.
pub fn query_volume_storage_with(
    folder: Option<&str>,
    is_directory: impl FnOnce(&str) -> bool,
    unavailable_error: &'static str,
    failed_error: &'static str,
    query: impl FnOnce(&str) -> Result<[u64; 2], MoviesVolumeStorageQueryError>,
) -> (result: Result<[u64; 2], &'static str>)
    requires
        folder matches Some(f) ==> call_requires(is_directory, (f,)) && (call_ensures(
            is_directory,
            (f,),
            true,
        ) ==> call_requires(query, (f,))),
    ensures
        folder is None ==> result == Err::<[u64; 2], &'static str>(unavailable_error),
        folder matches Some(f) ==> exists|directory: bool|
            call_ensures(is_directory, (f,), directory) && if !directory {
                result == Err::<[u64; 2], &'static str>(unavailable_error)
            } else {
                exists|queried: Result<[u64; 2], MoviesVolumeStorageQueryError>|
                    call_ensures(query, (f,), queried) && match result {
                        Ok(values) => spec_volume_storage(queried, unavailable_error, failed_error)
                            == Ok::<(u64, u64), &'static str>(pair_of(values)),
                        Err(e) => spec_volume_storage(queried, unavailable_error, failed_error)
                            == Err::<(u64, u64), &'static str>(e),
                    }
            },
{
    let folder = match folder {
        None => return Err(unavailable_error),
        Some(folder) => folder,
    };
    let directory = is_directory(folder);
    if !directory {
        return Err(unavailable_error);
    }
    let queried = query(folder);
    let ghost answer = queried;
    match queried {
        Err(MoviesVolumeStorageQueryError::Unavailable) => Err(unavailable_error),
        Err(MoviesVolumeStorageQueryError::Failed) => Err(failed_error),
        Ok(values) => {
            let total = values[0];
            let free = values[1];
            if total == 0 || free > total {
                Err(failed_error)
            } else {
                Ok(values)
            }
        },
    }
}

} // verus!
