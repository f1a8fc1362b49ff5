//! The presentation cache file: what was last resolved for each library item (its verified
//! identity, its cover source and its metadata, each with the time it was saved), one
//! tab-separated line per item under a version line, with free text written as hexadecimal.
use vstd::prelude::*;

use vstd::utf8::{decode_utf8, encode_utf8};

use crate::hex::{
    decode_hex_chars, encode_hex_text, hex_decode, hex_encode, hex_text, is_hex_digit,
    lemma_hex_encode_decode, lemma_hex_text_round_trip, spec_decode_hex_text,
};
use crate::presentation::{
    identities_equal, same_identity, IdentityView, DisplayProvider, LibraryPresentationCategory,
    MetadataView, PresentationMetadata,
    VerifiedDisplayIdentity, spec_metadata_identity_consistent, metadata_identity_consistent,
};
use crate::presentation_context::{
    LibraryItemAuthority, source_identity_consistent, spec_source_identity_consistent, CoverProvider,
    DEFAULT_COVER_RATIO_TEXT,
};
use crate::text::{
    append_field, chars_of, chars_equal, copy_range, decimal_string_of, join_tab, parse_unsigned,
    push_char, push_str, spec_parse_unsigned, split_ranges_exec, split_text, string_from_chars,
};
use crate::tv_scan::{owned, texts};
use crate::text::{
    decimal_string, is_digit, lemma_decimal_string, lemma_parse_decimal_string, lemma_split_concat,
    lemma_split_join_tab, lemma_split_single, lemma_text_less_order, text_less, text_less_chars,
};
use crate::tv_store::{clean_fields, lemma_join_tab_chars, optional_view, text_field_ok, number_field_ok, number_field, decoded_text};

verus! {

/// The first line of every presentation cache file.
pub const PRESENTATION_CACHE_VERSION: &'static str = "library-presentation-v3";

/// The number of fields on each line of the cache.
pub const PRESENTATION_CACHE_FIELDS: usize = 23;

/// A cover source as the cache keeps it: its aspect ratio as the decimal text it was written
/// with.
#[derive(Clone, Debug, PartialEq, Eq)]
pub struct CachedCover {
    pub provider: CoverProvider,
    pub provider_id: String,
    pub display_code: String,
    pub url: String,
    pub ratio: String,
}

/// A cached cover source as plain values.
pub struct CachedCoverView {
    pub provider: CoverProvider,
    pub provider_id: Seq<char>,
    pub display_code: Seq<char>,
    pub url: Seq<char>,
    pub ratio: Seq<char>,
}

impl View for CachedCover {
    type V = CachedCoverView;

    open spec fn view(&self) -> CachedCoverView {
        CachedCoverView {
            provider: self.provider,
            provider_id: self.provider_id@,
            display_code: self.display_code@,
            url: self.url@,
            ratio: self.ratio@,
        }
    }
}

/// What the cache holds for one item: its identity and category, its code, the verified
/// identity and when it was saved, the cover source (a `ready` cover, or none for `missing`)
/// and when it was saved, and the metadata, whether it is `ready`, and when it was saved.
#[derive(Clone, Debug, PartialEq, Eq)]
pub struct PresentationCacheEntry {
    pub identity: String,
    pub category: LibraryPresentationCategory,
    pub code: String,
    pub identity_saved_at: u64,
    pub verified_identity: Option<VerifiedDisplayIdentity>,
    pub cover_saved_at: u64,
    pub cover: Option<CachedCover>,
    pub metadata_saved_at: u64,
    pub metadata_ready: bool,
    pub metadata: PresentationMetadata,
}

/// A cache entry as plain values.
#[verifier::ext_equal]
pub struct CacheEntryView {
    pub identity: Seq<char>,
    pub category: LibraryPresentationCategory,
    pub code: Seq<char>,
    pub identity_saved_at: u64,
    pub verified_identity: Option<IdentityView>,
    pub cover_saved_at: u64,
    pub cover: Option<CachedCoverView>,
    pub metadata_saved_at: u64,
    pub metadata_ready: bool,
    pub metadata: MetadataView,
}

impl View for PresentationCacheEntry {
    type V = CacheEntryView;

    open spec fn view(&self) -> CacheEntryView {
        CacheEntryView {
            identity: self.identity@,
            category: self.category,
            code: self.code@,
            identity_saved_at: self.identity_saved_at,
            verified_identity: match self.verified_identity {
                Some(i) => Some(i@),
                None => None,
            },
            cover_saved_at: self.cover_saved_at,
            cover: match self.cover {
                Some(c) => Some(c@),
                None => None,
            },
            metadata_saved_at: self.metadata_saved_at,
            metadata_ready: self.metadata_ready,
            metadata: self.metadata@,
        }
    }
}

/// The entries' views.
pub open spec fn entries_view(entries: Seq<PresentationCacheEntry>) -> Seq<CacheEntryView> {
    entries.map_values(|e: PresentationCacheEntry| e@)
}

/// A line without the carriage return that ends it, if any.
pub open spec fn without_carriage_return(line: Seq<char>) -> Seq<char> {
    if line.len() > 0 && line.last() == '\r' {
        line.drop_last()
    } else {
        line
    }
}

/// The lines of `text` (what `str::lines` yields): the pieces between newlines, each ended
/// line without a carriage return before its newline, and no empty piece after a final
/// newline.
pub open spec fn text_lines(text: Seq<char>) -> Seq<Seq<char>> {
    let pieces = split_text(text, '\n');
    let ended = pieces.drop_last().map_values(|line: Seq<char>| without_carriage_return(line));
    if pieces.last().len() == 0 {
        ended
    } else {
        ended.push(pieces.last())
    }
}

/// The non-empty pieces of a comma-separated list.
pub open spec fn list_pieces(t: Seq<char>) -> Seq<Seq<char>> {
    split_text(t, ',').filter(|piece: Seq<char>| piece.len() > 0)
}

/// An optional text field: decoded, and absent when empty or not decodable.
pub open spec fn cached_optional(t: Seq<char>) -> Option<Seq<char>> {
    match spec_decode_hex_text(t) {
        Some(s) => if s.len() > 0 {
            Some(s)
        } else {
            None
        },
        None => None,
    }
}

/// Whether a cached cover field names a provider.
pub open spec fn cover_provider_named(t: Seq<char>) -> bool {
    t == "JavDB"@ || t == "FANZA"@ || t == "r18.dev"@
}

pub open spec fn cover_provider_of(t: Seq<char>) -> CoverProvider {
    if t == "JavDB"@ {
        CoverProvider::JavDb
    } else if t == "FANZA"@ {
        CoverProvider::Fanza
    } else {
        CoverProvider::R18Dev
    }
}

/// Whether the fields of a cache line are readable: exactly `PRESENTATION_CACHE_FIELDS`
/// fields, a known category, an identity provider with its two fields (or three empty
/// fields), a `ready` cover with a known provider and readable fields or a `missing` one, a
/// `ready` or `missing` metadata state, readable code and numbers, and readable cast names.
pub open spec fn cache_fields_readable(f: Seq<Seq<char>>) -> bool {
    &&& f.len() == PRESENTATION_CACHE_FIELDS
    &&& f[1] == "adult"@ || f[1] == "vr"@
    &&& if f[4].len() == 0 {
        f[5].len() == 0 && f[6].len() == 0
    } else {
        (f[4] == "JavDB"@ || f[4] == "FANZA"@) && text_field_ok(f[5]) && text_field_ok(f[6])
    }
    &&& f[8] == "ready"@ ==> cover_provider_named(f[9]) && text_field_ok(f[10]) && text_field_ok(
        f[11],
    ) && text_field_ok(f[12])
    &&& text_field_ok(f[2])
    &&& number_field_ok(f[3])
    &&& number_field_ok(f[7])
    &&& f[8] == "ready"@ || f[8] == "missing"@
    &&& number_field_ok(f[14])
    &&& f[15] == "ready"@ || f[15] == "missing"@
    &&& forall|k: int| 0 <= k < list_pieces(f[22]).len() ==> text_field_ok(#[trigger] list_pieces(f[22])[k])
}

/// The entry that readable cache fields hold.
pub open spec fn cache_entry_of(f: Seq<Seq<char>>) -> CacheEntryView {
    CacheEntryView {
        identity: f[0],
        category: if f[1] == "adult"@ {
            LibraryPresentationCategory::Adult
        } else {
            LibraryPresentationCategory::Vr
        },
        code: decoded_text(f[2]),
        identity_saved_at: number_field(f[3]),
        verified_identity: if f[4].len() == 0 {
            None
        } else {
            Some(
                IdentityView {
                    provider: if f[4] == "JavDB"@ {
                        DisplayProvider::JavDb
                    } else {
                        DisplayProvider::Fanza
                    },
                    provider_id: decoded_text(f[5]),
                    display_code: decoded_text(f[6]),
                },
            )
        },
        cover_saved_at: number_field(f[7]),
        cover: if f[8] == "ready"@ {
            Some(
                CachedCoverView {
                    provider: cover_provider_of(f[9]),
                    provider_id: decoded_text(f[10]),
                    display_code: decoded_text(f[11]),
                    url: decoded_text(f[12]),
                    ratio: f[13],
                },
            )
        } else {
            None
        },
        metadata_saved_at: number_field(f[14]),
        metadata_ready: f[15] == "ready"@,
        metadata: MetadataView {
            verified_identity: None,
            identity_conflict: false,
            source: cached_optional(f[16]),
            provider_id: cached_optional(f[17]),
            display_code: cached_optional(f[18]),
            title: cached_optional(f[19]),
            date: cached_optional(f[20]),
            runtime: cached_optional(f[21]),
            cast: list_pieces(f[22]).map_values(|piece: Seq<char>| decoded_text(piece)),
        },
    }
}

/// The entries a cache file's text holds, when its first line is the version line, every
/// other line is readable and no two lines are for the same item.
pub open spec fn spec_parse_presentation_cache(text: Seq<char>) -> Option<Seq<CacheEntryView>> {
    let lines = text_lines(text);
    if lines.len() == 0 || lines[0] != PRESENTATION_CACHE_VERSION@ {
        None
    } else {
        let body = lines.drop_first();
        if forall|i: int| 0 <= i < body.len() ==> cache_fields_readable(#[trigger] split_text(body[i], '\t')) {
            let entries = Seq::new(body.len(), |i: int| cache_entry_of(split_text(body[i], '\t')));
            if forall|i: int, j: int|
                0 <= i < j < entries.len() ==> #[trigger] entries[i].identity != #[trigger] entries[j].identity {
                Some(entries)
            } else {
                None
            }
        } else {
            None
        }
    }
}

/// Splits `t` on `sep` into its pieces.
fn split_chars(t: &[char], sep: char) -> (pieces: Vec<Vec<char>>)
    ensures
        pieces@.len() == split_text(t@, sep).len(),
        pieces@.len() >= 1,
        forall|k: int| 0 <= k < pieces@.len() ==> (#[trigger] pieces@[k])@ == split_text(t@, sep)[k],
{
    let ranges = split_ranges_exec(t, sep);
    let mut pieces: Vec<Vec<char>> = Vec::new();
    let mut k: usize = 0;
    while k < ranges.len()
        invariant
            k <= ranges@.len(),
            ranges@.len() >= 1,
            ranges@.len() == split_text(t@, sep).len(),
            pieces@.len() == k,
            forall|j: int| 0 <= j < ranges@.len() ==> (#[trigger] ranges@[j]).0 <= ranges@[j].1 <= t@.len(),
            forall|j: int|
                0 <= j < ranges@.len() ==> t@.subrange((#[trigger] ranges@[j]).0 as int, ranges@[j].1 as int)
                    == split_text(t@, sep)[j],
            forall|j: int| 0 <= j < k ==> (#[trigger] pieces@[j])@ == split_text(t@, sep)[j],
        decreases ranges@.len() - k,
    {
        let (start, end) = ranges[k];
        pieces.push(copy_range(t, start, end));
        k = k + 1;
    }
    pieces
}

/// Whether `t` holds exactly the characters of `word`.
fn is_word(t: &[char], word: &str) -> (result: bool)
    ensures
        result == (t@ == word@),
{
    let w = chars_of(word);
    chars_equal(t, &w)
}

/// The lines of `text`, as `str::lines` gives them.
pub(crate) fn lines_of(text: &[char]) -> (lines: Vec<Vec<char>>)
    ensures
        lines@.len() == text_lines(text@).len(),
        forall|k: int| 0 <= k < lines@.len() ==> (#[trigger] lines@[k])@ == text_lines(text@)[k],
{
    let pieces = split_chars(text, '\n');
    let ghost all = split_text(text@, '\n');
    let ghost ended = all.drop_last().map_values(|line: Seq<char>| without_carriage_return(line));
    let n = pieces.len();
    let mut lines: Vec<Vec<char>> = Vec::new();
    let mut k: usize = 0;
    while k + 1 < n
        invariant
            n == pieces@.len(),
            n == all.len(),
            n >= 1,
            all == split_text(text@, '\n'),
            ended == all.drop_last().map_values(|line: Seq<char>| without_carriage_return(line)),
            k <= n - 1,
            lines@.len() == k,
            forall|j: int| 0 <= j < n ==> (#[trigger] pieces@[j])@ == all[j],
            forall|j: int| 0 <= j < k ==> (#[trigger] lines@[j])@ == ended[j],
        decreases n - k,
    {
        let piece = &pieces[k];
        let len = piece.len();
        if len > 0 && piece[len - 1] == '\r' {
            let line = copy_range(piece.as_slice(), 0, len - 1);
            assert(line@ =~= piece@.drop_last());
            lines.push(line);
        } else {
            lines.push(copy_range(piece.as_slice(), 0, len));
            assert(piece@.subrange(0, len as int) =~= piece@);
        }
        assert(ended[k as int] == without_carriage_return(all[k as int]));
        k = k + 1;
    }
    let last = &pieces[n - 1];
    assert(last@ == all.last());
    if last.len() > 0 {
        lines.push(copy_range(last.as_slice(), 0, last.len()));
        assert(last@.subrange(0, last@.len() as int) =~= last@);
        assert(lines@.len() == ended.push(all.last()).len());
    }
    lines
}

fn decoded_field(t: &Vec<char>) -> (decoded: Option<String>)
    ensures
        match decoded {
            Some(s) => text_field_ok(t@) && decoded_text(t@) == s@,
            None => !text_field_ok(t@),
        },
{
    decode_hex_chars(t.as_slice())
}

fn number_of(t: &Vec<char>) -> (value: Option<u64>)
    ensures
        match value {
            Some(v) => number_field_ok(t@) && number_field(t@) == v,
            None => !number_field_ok(t@),
        },
{
    parse_unsigned(t.as_slice(), u64::MAX)
}

fn optional_field(t: &Vec<char>) -> (value: Option<String>)
    ensures
        optional_view(value) == cached_optional(t@),
{
    match decode_hex_chars(t.as_slice()) {
        Some(s) => {
            if chars_of(s.as_str()).len() == 0 {
                None
            } else {
                Some(s)
            }
        },
        None => None,
    }
}

proof fn lemma_filter_none<A>(s: Seq<A>, p: spec_fn(A) -> bool)
    requires
        forall|a: int| 0 <= a < s.len() ==> !p(#[trigger] s[a]),
    ensures
        s.filter(p).len() == 0,
    decreases s.len(),
{
    reveal(Seq::filter);
    if s.len() > 0 {
        assert forall|a: int| 0 <= a < s.drop_last().len() implies !p(#[trigger] s.drop_last()[a]) by {
            assert(s.drop_last()[a] == s[a]);
        }
        lemma_filter_none(s.drop_last(), p);
        assert(!p(s[s.len() - 1]));
    }
}

/// The first element a filter keeps is the first element that passes it.
proof fn lemma_filter_first<A>(s: Seq<A>, p: spec_fn(A) -> bool, j: int)
    requires
        0 <= j < s.len(),
        p(s[j]),
        forall|a: int| 0 <= a < j ==> !p(#[trigger] s[a]),
    ensures
        s.filter(p).len() > 0,
        s.filter(p)[0] == s[j],
{
    reveal(Seq::filter);
    let head = s.take(j);
    assert forall|a: int| 0 <= a < head.len() implies !p(#[trigger] head[a]) by {
        assert(head[a] == s[a]);
    }
    lemma_filter_none(head, p);
    assert(s.take(j + 1).drop_last() =~= head);
    assert(s.take(j + 1).last() == s[j]);
    assert(s.take(j + 1).filter(p) =~= seq![s[j]]);
    lemma_filter_prefix(s, p, j + 1);
}


/// What a filter keeps of a prefix is a prefix of what it keeps of the whole.
proof fn lemma_filter_prefix<A>(s: Seq<A>, p: spec_fn(A) -> bool, m: int)
    requires
        0 <= m <= s.len(),
    ensures
        s.take(m).filter(p).len() <= s.filter(p).len(),
        forall|j: int| 0 <= j < s.take(m).filter(p).len() ==> s.take(m).filter(p)[j] == s.filter(p)[j],
    decreases s.len() - m,
{
    if m < s.len() {
        lemma_filter_prefix(s, p, m + 1);
        reveal(Seq::filter);
        assert(s.take(m + 1).drop_last() =~= s.take(m));
        assert(s.take(m + 1).last() == s[m]);
    } else {
        assert(s.take(m) =~= s);
    }
}

/// The cast names of a comma-separated field, or none when one does not decode.
fn cast_of(t: &Vec<char>) -> (cast: Option<Vec<String>>)
    ensures
        match cast {
            Some(names) => (forall|k: int|
                0 <= k < list_pieces(t@).len() ==> text_field_ok(#[trigger] list_pieces(t@)[k]))
                && texts(names@) == list_pieces(t@).map_values(|piece: Seq<char>| decoded_text(piece)),
            None => !(forall|k: int|
                0 <= k < list_pieces(t@).len() ==> text_field_ok(#[trigger] list_pieces(t@)[k])),
        },
{
    let pieces = split_chars(t.as_slice(), ',');
    let ghost all = split_text(t@, ',');
    let ghost keep = |piece: Seq<char>| piece.len() > 0;
    let mut names: Vec<String> = Vec::new();
    let mut k: usize = 0;
    while k < pieces.len()
        invariant
            k <= pieces@.len(),
            pieces@.len() == all.len(),
            all == split_text(t@, ','),
            keep == (|piece: Seq<char>| piece.len() > 0),
            forall|j: int| 0 <= j < pieces@.len() ==> (#[trigger] pieces@[j])@ == all[j],
            forall|j: int|
                0 <= j < all.take(k as int).filter(keep).len() ==> text_field_ok(
                    #[trigger] all.take(k as int).filter(keep)[j],
                ),
            texts(names@) == all.take(k as int).filter(keep).map_values(
                |piece: Seq<char>| decoded_text(piece),
            ),
        decreases pieces@.len() - k,
    {
        let piece = &pieces[k];
        proof {
            assert(all.take(k + 1).drop_last() =~= all.take(k as int));
            assert(all.take(k + 1).last() == all[k as int]);
            reveal(Seq::filter);
        }
        if piece.len() > 0 {
            match decode_hex_chars(piece.as_slice()) {
                Some(name) => {
                    let ghost before = names@;
                    names.push(name);
                    proof {
                        assert(all.take(k + 1).filter(keep) == all.take(k as int).filter(keep).push(
                            all[k as int],
                        ));
                        assert(texts(names@) =~= texts(before).push(name@));
                        assert(texts(names@) =~= all.take(k + 1).filter(keep).map_values(
                            |piece: Seq<char>| decoded_text(piece),
                        ));
                    }
                },
                None => {
                    proof {
                        assert(all.take(k + 1).filter(keep) == all.take(k as int).filter(keep).push(
                            all[k as int],
                        ));
                        let j = all.take(k as int).filter(keep).len() as int;
                        assert(all.take(k + 1).filter(keep)[j] == all[k as int]);
                        lemma_filter_prefix(all, keep, k + 1);
                        assert(list_pieces(t@) == all.filter(keep));
                        assert(list_pieces(t@)[j] == all[k as int]);
                        assert(!text_field_ok(list_pieces(t@)[j]));
                    }
                    return None;
                },
            }
        } else {
            proof {
                assert(all.take(k + 1).filter(keep) == all.take(k as int).filter(keep));
            }
        }
        k = k + 1;
    }
    proof {
        assert(all.take(pieces@.len() as int) =~= all);
    }
    Some(names)
}

/// The characters of each piece.
pub open spec fn pieces_view(pieces: Seq<Vec<char>>) -> Seq<Seq<char>> {
    pieces.map_values(|p: Vec<char>| p@)
}

/// The entry that the fields of one cache line hold, when they are readable.
fn entry_of_fields(f: &Vec<Vec<char>>) -> (entry: Option<PresentationCacheEntry>)
    ensures
        match entry {
            Some(e) => cache_fields_readable(pieces_view(f@)) && e@ == cache_entry_of(pieces_view(f@)),
            None => !cache_fields_readable(pieces_view(f@)),
        },
{
    let ghost v = pieces_view(f@);
    proof {
        reveal_strlit("adult");
        reveal_strlit("vr");
        reveal_strlit("JavDB");
        reveal_strlit("FANZA");
        reveal_strlit("r18.dev");
        reveal_strlit("ready");
        reveal_strlit("missing");
    }
    if f.len() != PRESENTATION_CACHE_FIELDS {
        return None;
    }
    assert forall|k: int| 0 <= k < f@.len() implies v[k] == (#[trigger] f@[k])@ by {}
    let category = if is_word(f[1].as_slice(), "adult") {
        LibraryPresentationCategory::Adult
    } else if is_word(f[1].as_slice(), "vr") {
        LibraryPresentationCategory::Vr
    } else {
        return None;
    };
    let verified_identity = if f[4].len() == 0 {
        if f[5].len() != 0 || f[6].len() != 0 {
            return None;
        }
        None
    } else {
        let provider = if is_word(f[4].as_slice(), "JavDB") {
            DisplayProvider::JavDb
        } else if is_word(f[4].as_slice(), "FANZA") {
            DisplayProvider::Fanza
        } else {
            return None;
        };
        let provider_id = match decoded_field(&f[5]) {
            Some(t) => t,
            None => return None,
        };
        let display_code = match decoded_field(&f[6]) {
            Some(t) => t,
            None => return None,
        };
        Some(VerifiedDisplayIdentity { provider, provider_id, display_code })
    };
    let cover_ready = is_word(f[8].as_slice(), "ready");
    let cover = if cover_ready {
        let provider = if is_word(f[9].as_slice(), "JavDB") {
            CoverProvider::JavDb
        } else if is_word(f[9].as_slice(), "FANZA") {
            CoverProvider::Fanza
        } else if is_word(f[9].as_slice(), "r18.dev") {
            CoverProvider::R18Dev
        } else {
            return None;
        };
        let provider_id = match decoded_field(&f[10]) {
            Some(t) => t,
            None => return None,
        };
        let display_code = match decoded_field(&f[11]) {
            Some(t) => t,
            None => return None,
        };
        let url = match decoded_field(&f[12]) {
            Some(t) => t,
            None => return None,
        };
        Some(CachedCover { provider, provider_id, display_code, url, ratio: string_from_chars(f[13].as_slice()) })
    } else {
        None
    };
    let code = match decoded_field(&f[2]) {
        Some(t) => t,
        None => return None,
    };
    let identity_saved_at = match number_of(&f[3]) {
        Some(n) => n,
        None => return None,
    };
    let cover_saved_at = match number_of(&f[7]) {
        Some(n) => n,
        None => return None,
    };
    if !cover_ready && !is_word(f[8].as_slice(), "missing") {
        return None;
    }
    let metadata_saved_at = match number_of(&f[14]) {
        Some(n) => n,
        None => return None,
    };
    let metadata_ready = is_word(f[15].as_slice(), "ready");
    if !metadata_ready && !is_word(f[15].as_slice(), "missing") {
        return None;
    }
    let cast = match cast_of(&f[22]) {
        Some(names) => names,
        None => return None,
    };
    let metadata = PresentationMetadata {
        verified_identity: None,
        identity_conflict: false,
        source: optional_field(&f[16]),
        provider_id: optional_field(&f[17]),
        display_code: optional_field(&f[18]),
        title: optional_field(&f[19]),
        date: optional_field(&f[20]),
        runtime: optional_field(&f[21]),
        cast,
    };
    let entry = PresentationCacheEntry {
        identity: string_from_chars(f[0].as_slice()),
        category,
        code,
        identity_saved_at,
        verified_identity,
        cover_saved_at,
        cover,
        metadata_saved_at,
        metadata_ready,
        metadata,
    };
    assert(entry@.metadata =~= cache_entry_of(v).metadata);
    assert(entry@ =~= cache_entry_of(v));
    Some(entry)
}

fn same_chars(a: &String, b: &String) -> (same: bool)
    ensures
        same == (a@ == b@),
{
    let x = chars_of(a.as_str());
    let y = chars_of(b.as_str());
    chars_equal(&x, &y)
}

/// The position of an entry for `identity`, if any.
fn find_identity(entries: &Vec<PresentationCacheEntry>, identity: &String) -> (found: Option<usize>)
    ensures
        match found {
            Some(j) => j < entries@.len() && entries@[j as int]@.identity == identity@ && forall|a: int|
                0 <= a < j ==> (#[trigger] entries@[a])@.identity != identity@,
            None => forall|a: int| 0 <= a < entries@.len() ==> (#[trigger] entries@[a])@.identity != identity@,
        },
{
    let mut j: usize = 0;
    while j < entries.len()
        invariant
            j <= entries@.len(),
            forall|a: int| 0 <= a < j ==> (#[trigger] entries@[a])@.identity != identity@,
        decreases entries@.len() - j,
    {
        if same_chars(&entries[j].identity, identity) {
            return Some(j);
        }
        j = j + 1;
    }
    None
}

/// A cache text with two lines for the same item is refused.
proof fn lemma_repeated_item_refused(text: Seq<char>, a: int, b: int)
    requires
        text_lines(text).len() > 0,
        0 <= a < b < text_lines(text).len() - 1,
        cache_entry_of(split_text(text_lines(text).drop_first()[a], '\t')).identity == cache_entry_of(
            split_text(text_lines(text).drop_first()[b], '\t'),
        ).identity,
    ensures
        spec_parse_presentation_cache(text) is None,
{
    let body = text_lines(text).drop_first();
    let entries = Seq::new(body.len(), |i: int| cache_entry_of(split_text(body[i], '\t')));
    assert(entries[a].identity == entries[b].identity);
}

/// Reads the text of a presentation cache file: the entries it holds, in order, or `Err`
/// when it is not a cache (see `spec_parse_presentation_cache`).
pub fn parse_presentation_cache(text: &str) -> (result: Result<Vec<PresentationCacheEntry>, ()>)
    ensures
        match result {
            Ok(entries) => spec_parse_presentation_cache(text@) == Some(entries_view(entries@)),
            Err(()) => spec_parse_presentation_cache(text@) is None,
        },
{
    let t = chars_of(text);
    let lines = lines_of(t.as_slice());
    let ghost ls = text_lines(text@);
    if lines.len() == 0 || !is_word(lines[0].as_slice(), PRESENTATION_CACHE_VERSION) {
        return Err(());
    }
    let ghost body = ls.drop_first();
    let mut entries: Vec<PresentationCacheEntry> = Vec::new();
    let mut i: usize = 1;
    while i < lines.len()
        invariant
            1 <= i <= lines@.len(),
            lines@.len() == ls.len(),
            ls == text_lines(text@),
            body == ls.drop_first(),
            ls[0] == PRESENTATION_CACHE_VERSION@,
            forall|k: int| 0 <= k < lines@.len() ==> (#[trigger] lines@[k])@ == ls[k],
            entries@.len() == i - 1,
            forall|j: int| 0 <= j < i - 1 ==> cache_fields_readable(#[trigger] split_text(body[j], '\t')),
            forall|j: int|
                0 <= j < i - 1 ==> (#[trigger] entries@[j])@ == cache_entry_of(split_text(body[j], '\t')),
            forall|a: int, b: int|
                0 <= a < b < i - 1 ==> (#[trigger] entries@[a])@.identity != (#[trigger] entries@[b])@.identity,
        decreases lines@.len() - i,
    {
        let fields = split_chars(lines[i].as_slice(), '\t');
        proof {
            assert(body[i - 1] == ls[i as int]);
            assert(pieces_view(fields@) =~= split_text(body[i - 1], '\t'));
        }
        let entry = match entry_of_fields(&fields) {
            Some(e) => e,
            None => return Err(()),
        };
        match find_identity(&entries, &entry.identity) {
            Some(j) => {
                proof {
                    lemma_repeated_item_refused(text@, j as int, i - 1);
                }
                return Err(());
            },
            None => {},
        }
        entries.push(entry);
        i = i + 1;
    }
    proof {
        let whole = Seq::new(body.len(), |k: int| cache_entry_of(split_text(body[k], '\t')));
        assert(entries_view(entries@) =~= whole);
        assert forall|a: int, b: int| 0 <= a < b < whole.len() implies #[trigger] whole[a].identity
            != #[trigger] whole[b].identity by {
            assert(whole[a] == entries@[a]@);
            assert(whole[b] == entries@[b]@);
        }
    }
    Ok(entries)
}

/// Texts joined by commas.
pub open spec fn join_commas(items: Seq<Seq<char>>) -> Seq<char>
    decreases items.len(),
{
    if items.len() == 0 {
        Seq::empty()
    } else if items.len() == 1 {
        items[0]
    } else {
        join_commas(items.drop_last()) + seq![','] + items.last()
    }
}

/// An optional text as written: empty when absent.
pub open spec fn written_optional(value: Option<Seq<char>>) -> Seq<char> {
    match value {
        Some(s) => s,
        None => Seq::empty(),
    }
}

/// The fields written for an entry.
pub open spec fn cache_fields(e: CacheEntryView) -> Seq<Seq<char>> {
    seq![
        e.identity,
        e.category.text(),
        hex_text(e.code),
        decimal_string(e.identity_saved_at as nat),
        if e.verified_identity is Some { e.verified_identity->0.provider.text() } else { Seq::empty() },
        hex_text(if e.verified_identity is Some { e.verified_identity->0.provider_id } else { Seq::empty() }),
        hex_text(if e.verified_identity is Some { e.verified_identity->0.display_code } else { Seq::empty() }),
        decimal_string(e.cover_saved_at as nat),
        if e.cover is Some { "ready"@ } else { "missing"@ },
        if e.cover is Some { e.cover->0.provider.text() } else { Seq::empty() },
        hex_text(if e.cover is Some { e.cover->0.provider_id } else { Seq::empty() }),
        hex_text(if e.cover is Some { e.cover->0.display_code } else { Seq::empty() }),
        hex_text(if e.cover is Some { e.cover->0.url } else { Seq::empty() }),
        if e.cover is Some { e.cover->0.ratio } else { DEFAULT_COVER_RATIO_TEXT@ },
        decimal_string(e.metadata_saved_at as nat),
        if e.metadata_ready { "ready"@ } else { "missing"@ },
        hex_text(written_optional(e.metadata.source)),
        hex_text(written_optional(e.metadata.provider_id)),
        hex_text(written_optional(e.metadata.display_code)),
        hex_text(written_optional(e.metadata.title)),
        hex_text(written_optional(e.metadata.date)),
        hex_text(written_optional(e.metadata.runtime)),
        join_commas(e.metadata.cast.map_values(|name: Seq<char>| hex_text(name))),
    ]
}

/// The line written for an entry: its fields joined by tabs, then a newline.
pub open spec fn cache_line(e: CacheEntryView) -> Seq<char> {
    join_tab(cache_fields(e)) + seq!['\n']
}

/// The lines written for some entries.
pub open spec fn cache_lines(entries: Seq<CacheEntryView>) -> Seq<char>
    decreases entries.len(),
{
    if entries.len() == 0 {
        Seq::empty()
    } else {
        cache_lines(entries.drop_last()) + cache_line(entries.last())
    }
}

/// The text of a cache file holding `entries`: the version line, then a line per entry.
pub open spec fn spec_encode_presentation_cache(entries: Seq<CacheEntryView>) -> Seq<char> {
    PRESENTATION_CACHE_VERSION@ + seq!['\n'] + cache_lines(entries)
}

fn push_text_field(line: &mut String, value: &str, first: bool, Ghost(fields): Ghost<Seq<Seq<char>>>)
    requires
        old(line)@ == join_tab(fields),
        first == (fields.len() == 0),
    ensures
        final(line)@ == join_tab(fields.push(value@)),
{
    append_field(line, value, first, Ghost(fields));
}

fn push_hex(line: &mut String, value: &str, Ghost(fields): Ghost<Seq<Seq<char>>>)
    requires
        old(line)@ == join_tab(fields),
        fields.len() > 0,
    ensures
        final(line)@ == join_tab(fields.push(hex_text(value@))),
{
    let encoded = encode_hex_text(value);
    append_field(line, encoded.as_str(), false, Ghost(fields));
}

fn push_number(line: &mut String, value: u64, Ghost(fields): Ghost<Seq<Seq<char>>>)
    requires
        old(line)@ == join_tab(fields),
        fields.len() > 0,
    ensures
        final(line)@ == join_tab(fields.push(decimal_string(value as nat))),
{
    let text = decimal_string_of(value);
    append_field(line, text.as_str(), false, Ghost(fields));
}

fn text_or_empty(value: &Option<String>) -> (text: &str)
    ensures
        text@ == written_optional(optional_view(*value)),
{
    match value {
        Some(s) => s.as_str(),
        None => {
            proof {
                reveal_strlit("");
            }
            ""
        },
    }
}

fn cast_text(cast: &Vec<String>) -> (text: String)
    ensures
        text@ == join_commas(texts(cast@).map_values(|name: Seq<char>| hex_text(name))),
{
    let ghost items = texts(cast@).map_values(|name: Seq<char>| hex_text(name));
    let mut text = String::new();
    let mut k: usize = 0;
    while k < cast.len()
        invariant
            k <= cast@.len(),
            items == texts(cast@).map_values(|name: Seq<char>| hex_text(name)),
            items.len() == cast@.len(),
            text@ == join_commas(items.take(k as int)),
        decreases cast@.len() - k,
    {
        let encoded = encode_hex_text(cast[k].as_str());
        proof {
            assert(items[k as int] == hex_text(cast@[k as int]@));
            assert(items.take(k + 1).drop_last() =~= items.take(k as int));
        }
        if k > 0 {
            push_char(&mut text, ',');
        } else {
            assert(text@ =~= Seq::<char>::empty());
        }
        push_str(&mut text, encoded.as_str());
        k = k + 1;
        assert(text@ =~= join_commas(items.take(k as int)));
    }
    assert(items.take(cast@.len() as int) =~= items);
    text
}

fn cache_line_exec(e: &PresentationCacheEntry) -> (line: String)
    ensures
        line@ == cache_line(e@),
{
    proof {
        reveal_strlit("ready");
        reveal_strlit("missing");
        reveal_strlit("");
    }
    let mut line = String::new();
    let ghost mut fields: Seq<Seq<char>> = Seq::empty();
    push_text_field(&mut line, e.identity.as_str(), true, Ghost(fields));
    proof { fields = fields.push(e.identity@); }
    push_text_field(&mut line, e.category.value(), false, Ghost(fields));
    proof { fields = fields.push(e.category.text()); }
    push_hex(&mut line, e.code.as_str(), Ghost(fields));
    proof { fields = fields.push(hex_text(e.code@)); }
    push_number(&mut line, e.identity_saved_at, Ghost(fields));
    proof { fields = fields.push(decimal_string(e.identity_saved_at as nat)); }
    let (identity_provider, identity_id, identity_code): (&str, &str, &str) = match &e.verified_identity {
        Some(i) => (i.provider.as_str(), i.provider_id.as_str(), i.display_code.as_str()),
        None => ("", "", ""),
    };
    push_text_field(&mut line, identity_provider, false, Ghost(fields));
    proof { fields = fields.push(identity_provider@); }
    push_hex(&mut line, identity_id, Ghost(fields));
    proof { fields = fields.push(hex_text(identity_id@)); }
    push_hex(&mut line, identity_code, Ghost(fields));
    proof { fields = fields.push(hex_text(identity_code@)); }
    push_number(&mut line, e.cover_saved_at, Ghost(fields));
    proof { fields = fields.push(decimal_string(e.cover_saved_at as nat)); }
    let (state, provider, provider_id, display_code, url, ratio): (&str, &str, &str, &str, &str, &str) = match &e.cover {
        Some(c) => ("ready", c.provider.as_str(), c.provider_id.as_str(), c.display_code.as_str(), c.url.as_str(), c.ratio.as_str()),
        None => ("missing", "", "", "", "", DEFAULT_COVER_RATIO_TEXT),
    };
    push_text_field(&mut line, state, false, Ghost(fields));
    proof { fields = fields.push(state@); }
    push_text_field(&mut line, provider, false, Ghost(fields));
    proof { fields = fields.push(provider@); }
    push_hex(&mut line, provider_id, Ghost(fields));
    proof { fields = fields.push(hex_text(provider_id@)); }
    push_hex(&mut line, display_code, Ghost(fields));
    proof { fields = fields.push(hex_text(display_code@)); }
    push_hex(&mut line, url, Ghost(fields));
    proof { fields = fields.push(hex_text(url@)); }
    push_text_field(&mut line, ratio, false, Ghost(fields));
    proof { fields = fields.push(ratio@); }
    push_number(&mut line, e.metadata_saved_at, Ghost(fields));
    proof { fields = fields.push(decimal_string(e.metadata_saved_at as nat)); }
    let metadata_state: &str = if e.metadata_ready { "ready" } else { "missing" };
    push_text_field(&mut line, metadata_state, false, Ghost(fields));
    proof { fields = fields.push(metadata_state@); }
    let m = &e.metadata;
    push_hex(&mut line, text_or_empty(&m.source), Ghost(fields));
    proof { fields = fields.push(hex_text(written_optional(optional_view(m.source)))); }
    push_hex(&mut line, text_or_empty(&m.provider_id), Ghost(fields));
    proof { fields = fields.push(hex_text(written_optional(optional_view(m.provider_id)))); }
    push_hex(&mut line, text_or_empty(&m.display_code), Ghost(fields));
    proof { fields = fields.push(hex_text(written_optional(optional_view(m.display_code)))); }
    push_hex(&mut line, text_or_empty(&m.title), Ghost(fields));
    proof { fields = fields.push(hex_text(written_optional(optional_view(m.title)))); }
    push_hex(&mut line, text_or_empty(&m.date), Ghost(fields));
    proof { fields = fields.push(hex_text(written_optional(optional_view(m.date)))); }
    push_hex(&mut line, text_or_empty(&m.runtime), Ghost(fields));
    proof { fields = fields.push(hex_text(written_optional(optional_view(m.runtime)))); }
    let cast = cast_text(&m.cast);
    push_text_field(&mut line, cast.as_str(), false, Ghost(fields));
    proof { fields = fields.push(cast@); }
    proof {
        let c = cache_fields(e@);
        assert(fields[0] == c[0]);
        assert(fields[1] == c[1]);
        assert(fields[2] == c[2]);
        assert(fields[3] == c[3]);
        assert(fields[4] == c[4]);
        assert(fields[5] == c[5]);
        assert(fields[6] == c[6]);
        assert(fields[7] == c[7]);
        assert(fields[8] == c[8]);
        assert(fields[9] == c[9]);
        assert(fields[10] == c[10]);
        assert(fields[13] == c[13]);
        assert(fields[15] == c[15]);
        assert(fields[16] == c[16]);
        assert(fields[22] == c[22]);
    }
    assert(fields =~= cache_fields(e@));
    push_char(&mut line, '\n');
    line
}

/// Writes entries as the text of a presentation cache file.
pub fn encode_presentation_cache(entries: &Vec<PresentationCacheEntry>) -> (text: String)
    ensures
        text@ == spec_encode_presentation_cache(entries_view(entries@)),
{
    let ghost views = entries_view(entries@);
    let mut text = owned(PRESENTATION_CACHE_VERSION);
    push_char(&mut text, '\n');
    let mut k: usize = 0;
    while k < entries.len()
        invariant
            k <= entries@.len(),
            views == entries_view(entries@),
            text@ == PRESENTATION_CACHE_VERSION@ + seq!['\n'] + cache_lines(views.take(k as int)),
        decreases entries@.len() - k,
    {
        let line = cache_line_exec(&entries[k]);
        push_str(&mut text, line.as_str());
        proof {
            assert(views.take(k + 1).drop_last() =~= views.take(k as int));
            assert(views[k as int] == entries@[k as int]@);
        }
        k = k + 1;
        assert(text@ =~= PRESENTATION_CACHE_VERSION@ + seq!['\n'] + cache_lines(views.take(k as int)));
    }
    assert(views.take(entries@.len() as int) =~= views);
    text
}

/// Text that holds no tab, newline or carriage return.
pub open spec fn plain_text(t: Seq<char>) -> bool {
    forall|i: int| 0 <= i < t.len() ==> #[trigger] t[i] != '\t' && t[i] != '\n' && t[i] != '\r'
}

/// Whether writing `e` and reading it back gives `e`: its identity and cover ratio are plain
/// text, its metadata rests on no identity and records no conflict (neither is written), its
/// optional texts and cast names are not empty (an empty one reads back as absent).
pub open spec fn cache_entry_writable(e: CacheEntryView) -> bool {
    &&& plain_text(e.identity)
    &&& e.cover matches Some(c) ==> plain_text(c.ratio)
    &&& e.metadata.verified_identity is None
    &&& !e.metadata.identity_conflict
    &&& e.metadata.source matches Some(t) ==> t.len() > 0
    &&& e.metadata.provider_id matches Some(t) ==> t.len() > 0
    &&& e.metadata.display_code matches Some(t) ==> t.len() > 0
    &&& e.metadata.title matches Some(t) ==> t.len() > 0
    &&& e.metadata.date matches Some(t) ==> t.len() > 0
    &&& e.metadata.runtime matches Some(t) ==> t.len() > 0
    &&& forall|k: int| 0 <= k < e.metadata.cast.len() ==> (#[trigger] e.metadata.cast[k]).len() > 0
}

proof fn lemma_words_plain()
    ensures
        plain_text("adult"@),
        plain_text("vr"@),
        plain_text("JavDB"@),
        plain_text("FANZA"@),
        plain_text("r18.dev"@),
        plain_text("ready"@),
        plain_text("missing"@),
        plain_text(DEFAULT_COVER_RATIO_TEXT@),
        plain_text(Seq::<char>::empty()),
        plain_text(PRESENTATION_CACHE_VERSION@),
        PRESENTATION_CACHE_VERSION@.len() > 0,
        "adult"@ != "vr"@,
        "JavDB"@ != "FANZA"@,
        "JavDB"@ != "r18.dev"@,
        "FANZA"@ != "r18.dev"@,
        "ready"@ != "missing"@,
        "JavDB"@.len() > 0,
        "FANZA"@.len() > 0,
{
    reveal_strlit("adult");
    reveal_strlit("vr");
    reveal_strlit("JavDB");
    reveal_strlit("FANZA");
    reveal_strlit("r18.dev");
    reveal_strlit("ready");
    reveal_strlit("missing");
    reveal_strlit("0.72");
    reveal_strlit("library-presentation-v3");
    assert("JavDB"@[0] != "FANZA"@[0]);
    assert("adult"@.len() != "vr"@.len());
    assert("JavDB"@.len() != "r18.dev"@.len());
    assert("ready"@.len() != "missing"@.len());
}

/// Hexadecimal text is plain, holds no comma, reads back, and is empty only for empty text.
proof fn lemma_hex_plain(s: Seq<char>)
    ensures
        plain_text(hex_text(s)),
        forall|i: int| 0 <= i < hex_text(s).len() ==> #[trigger] hex_text(s)[i] != ',',
        spec_decode_hex_text(hex_text(s)) == Some(s),
        hex_text(s).len() == 0 <==> s.len() == 0,
{
    lemma_hex_text_round_trip(s);
    lemma_hex_encode_decode(encode_utf8(s));
    assert forall|i: int| 0 <= i < hex_text(s).len() implies #[trigger] hex_text(s)[i] != '\t'
        && hex_text(s)[i] != '\n' && hex_text(s)[i] != '\r' && hex_text(s)[i] != ',' by {
        assert(is_hex_digit(hex_encode(encode_utf8(s))[i]));
    }
    if hex_text(s).len() == 0 {
        assert(hex_decode(hex_text(s)) =~= Seq::<u8>::empty());
        assert(decode_utf8(Seq::<u8>::empty()) =~= Seq::<char>::empty());
    }
    if s.len() == 0 {
        assert(encode_utf8(s) =~= Seq::<u8>::empty());
    }
}

proof fn lemma_number_plain(n: nat)
    requires
        n <= u64::MAX,
    ensures
        plain_text(decimal_string(n)),
        spec_parse_unsigned(decimal_string(n), u64::MAX as nat) == Some(n),
{
    lemma_parse_decimal_string(n, u64::MAX as nat);
    lemma_decimal_string(n);
    assert forall|i: int| 0 <= i < decimal_string(n).len() implies #[trigger] decimal_string(n)[i]
        != '\t' && decimal_string(n)[i] != '\n' && decimal_string(n)[i] != '\r' by {
        assert(is_digit(decimal_string(n)[i]));
    }
}

/// Splitting texts joined by commas gives them back, when none holds a comma.
proof fn lemma_split_join_commas(items: Seq<Seq<char>>)
    requires
        items.len() > 0,
        forall|k: int, i: int| 0 <= k < items.len() && 0 <= i < items[k].len() ==> #[trigger] items[k][i] != ',',
    ensures
        split_text(join_commas(items), ',') == items,
    decreases items.len(),
{
    if items.len() == 1 {
        lemma_split_single(items[0], ',');
        assert(seq![items[0]] =~= items);
    } else {
        let rest = items.drop_last();
        assert forall|k: int, i: int| 0 <= k < rest.len() && 0 <= i < rest[k].len() implies #[trigger] rest[k][i]
            != ',' by {
            assert(rest[k] == items[k]);
        }
        lemma_split_join_commas(rest);
        lemma_split_concat(join_commas(rest), items.last(), ',');
        assert forall|i: int| 0 <= i < items.last().len() implies items.last()[i] != ',' by {
            assert(items.last() == items[items.len() - 1]);
        }
        lemma_split_single(items.last(), ',');
        assert(rest + seq![items.last()] =~= items);
    }
}

proof fn lemma_filter_keeps_all(items: Seq<Seq<char>>)
    requires
        forall|k: int| 0 <= k < items.len() ==> (#[trigger] items[k]).len() > 0,
    ensures
        items.filter(|piece: Seq<char>| piece.len() > 0) == items,
    decreases items.len(),
{
    reveal(Seq::filter);
    if items.len() > 0 {
        let rest = items.drop_last();
        assert forall|k: int| 0 <= k < rest.len() implies (#[trigger] rest[k]).len() > 0 by {
            assert(rest[k] == items[k]);
        }
        lemma_filter_keeps_all(rest);
        assert(items.last() == items[items.len() - 1]);
        assert(rest.push(items.last()) =~= items);
    }
}

/// The cast field reads back as the cast, and its last character, if any, is a hexadecimal
/// digit.
proof fn lemma_cast_round_trip(cast: Seq<Seq<char>>)
    requires
        forall|k: int| 0 <= k < cast.len() ==> (#[trigger] cast[k]).len() > 0,
    ensures
        ({
            let field = join_commas(cast.map_values(|name: Seq<char>| hex_text(name)));
            &&& plain_text(field)
            &&& forall|k: int| 0 <= k < list_pieces(field).len() ==> text_field_ok(#[trigger] list_pieces(field)[k])
            &&& list_pieces(field).map_values(|piece: Seq<char>| decoded_text(piece)) == cast
            &&& field.len() > 0 ==> field.last() != '\r'
        }),
{
    let items = cast.map_values(|name: Seq<char>| hex_text(name));
    let field = join_commas(items);
    assert forall|k: int| 0 <= k < items.len() implies (#[trigger] items[k]).len() > 0 && plain_text(items[k])
        && (forall|i: int| 0 <= i < items[k].len() ==> items[k][i] != ',') by {
        lemma_hex_plain(cast[k]);
    }
    if items.len() == 0 {
        assert(field =~= Seq::<char>::empty());
        lemma_split_single(field, ',');
        reveal(Seq::filter);
        let pieces = split_text(field, ',');
        assert(pieces == seq![field]);
        assert(pieces.drop_last() =~= Seq::<Seq<char>>::empty());
        assert(Seq::<Seq<char>>::empty().filter(|piece: Seq<char>| piece.len() > 0) =~= Seq::<Seq<char>>::empty());
        assert(pieces.last().len() == 0);
        assert(list_pieces(field) =~= Seq::<Seq<char>>::empty());
        assert(list_pieces(field).map_values(|piece: Seq<char>| decoded_text(piece)) =~= cast);
    } else {
        lemma_split_join_commas(items);
        lemma_filter_keeps_all(items);
        assert(list_pieces(field) == items);
        assert forall|k: int| 0 <= k < items.len() implies text_field_ok(#[trigger] items[k])
            && decoded_text(items[k]) == cast[k] by {
            lemma_hex_plain(cast[k]);
        }
        assert(list_pieces(field).map_values(|piece: Seq<char>| decoded_text(piece)) =~= cast);
        lemma_join_commas_plain(items);
    }
}

proof fn lemma_join_commas_plain(items: Seq<Seq<char>>)
    requires
        items.len() > 0,
        forall|k: int| 0 <= k < items.len() ==> (#[trigger] items[k]).len() > 0 && plain_text(items[k])
            && (forall|i: int| 0 <= i < items[k].len() ==> items[k][i] != ','),
    ensures
        plain_text(join_commas(items)),
        join_commas(items).len() > 0,
        join_commas(items).last() == items.last().last(),
    decreases items.len(),
{
    if items.len() == 1 {
        assert(join_commas(items) == items[0]);
    } else {
        let rest = items.drop_last();
        assert forall|k: int| 0 <= k < rest.len() implies (#[trigger] rest[k]).len() > 0 && plain_text(rest[k])
            && (forall|i: int| 0 <= i < rest[k].len() ==> rest[k][i] != ',') by {
            assert(rest[k] == items[k]);
        }
        lemma_join_commas_plain(rest);
        let r = join_commas(rest);
        let t = join_commas(items);
        assert(items.last() == items[items.len() - 1]);
        assert forall|i: int| 0 <= i < t.len() implies #[trigger] t[i] != '\t' && t[i] != '\n' && t[i] != '\r' by {
            if i < r.len() {
                assert(t[i] == r[i]);
            } else if i > r.len() {
                assert(t[i] == items.last()[i - r.len() - 1]);
            }
        }
    }
}

/// The line written for a writable entry splits back into its fields, holds no newline, does
/// not end with a carriage return, and reads back as the entry.
proof fn lemma_line_round_trip(e: CacheEntryView)
    requires
        cache_entry_writable(e),
    ensures
        split_text(join_tab(cache_fields(e)), '\t') == cache_fields(e),
        forall|i: int| 0 <= i < join_tab(cache_fields(e)).len() ==> #[trigger] join_tab(cache_fields(e))[i] != '\n',
        join_tab(cache_fields(e)).len() > 0,
        join_tab(cache_fields(e)).last() != '\r',
        cache_fields_readable(cache_fields(e)),
        cache_entry_of(cache_fields(e)) == e,
{
    let f = cache_fields(e);
    let empty = Seq::<char>::empty();
    lemma_words_plain();
    lemma_hex_plain(e.code);
    lemma_hex_plain(empty);
    lemma_number_plain(e.identity_saved_at as nat);
    lemma_number_plain(e.cover_saved_at as nat);
    lemma_number_plain(e.metadata_saved_at as nat);
    if e.verified_identity is Some {
        lemma_hex_plain(e.verified_identity->0.provider_id);
        lemma_hex_plain(e.verified_identity->0.display_code);
    }
    if e.cover is Some {
        lemma_hex_plain(e.cover->0.provider_id);
        lemma_hex_plain(e.cover->0.display_code);
        lemma_hex_plain(e.cover->0.url);
    }
    let m = e.metadata;
    lemma_hex_plain(written_optional(m.source));
    lemma_hex_plain(written_optional(m.provider_id));
    lemma_hex_plain(written_optional(m.display_code));
    lemma_hex_plain(written_optional(m.title));
    lemma_hex_plain(written_optional(m.date));
    lemma_hex_plain(written_optional(m.runtime));
    lemma_cast_round_trip(m.cast);
    assert forall|k: int| 0 <= k < f.len() implies plain_text(#[trigger] f[k]) by {
        if k == 1 {
            assert(e.category.text() == "adult"@ || e.category.text() == "vr"@);
        } else if k == 4 && e.verified_identity is Some {
            assert(f[4] == "JavDB"@ || f[4] == "FANZA"@);
        } else if k == 9 && e.cover is Some {
            assert(f[9] == "JavDB"@ || f[9] == "FANZA"@ || f[9] == "r18.dev"@);
        }
    }
    assert(clean_fields(f)) by {
        assert forall|k: int, i: int| 0 <= k < f.len() && 0 <= i < f[k].len() implies #[trigger] f[k][i]
            != '\t' && f[k][i] != '\n' by {
            assert(plain_text(f[k]));
        }
    }
    lemma_split_join_tab(f);
    lemma_join_tab_chars(f);
    let l = join_tab(f);
    assert(f.drop_last().len() == 22);
    assert(l == join_tab(f.drop_last()) + seq!['\t'] + f.last());
    assert(f.last() == f[22]);
    if f[22].len() > 0 {
        assert(l.last() == f[22].last());
    } else {
        assert(l.last() == '\t');
    }
    assert(cache_entry_of(f).metadata =~= m);
    assert(cache_entry_of(f) =~= e);
}

proof fn lemma_cache_lines_end(v: Seq<CacheEntryView>)
    requires
        v.len() > 0,
    ensures
        cache_lines(v).len() > 0,
        cache_lines(v).last() == '\n',
{
    assert(cache_lines(v) == cache_lines(v.drop_last()) + cache_line(v.last()));
}

/// Splitting the version line and the lines of writable entries (without the final newline)
/// on newlines gives the version line and each entry's fields joined by tabs.
#[verifier::spinoff_prover]
proof fn lemma_cache_lines_split(v: Seq<CacheEntryView>)
    requires
        forall|k: int| 0 <= k < v.len() ==> cache_entry_writable(#[trigger] v[k]),
    ensures
        split_text((PRESENTATION_CACHE_VERSION@ + seq!['\n'] + cache_lines(v)).drop_last(), '\n')
            == seq![PRESENTATION_CACHE_VERSION@] + Seq::new(v.len(), |k: int| join_tab(cache_fields(v[k]))),
    decreases v.len(),
{
    let d = PRESENTATION_CACHE_VERSION@;
    lemma_words_plain();
    if v.len() == 0 {
        assert((d + seq!['\n'] + cache_lines(v)).drop_last() =~= d);
        lemma_split_single(d, '\n');
        assert(seq![d] + Seq::new(v.len(), |k: int| join_tab(cache_fields(v[k]))) =~= seq![d]);
    } else {
        let rest = v.drop_last();
        let last = v.last();
        assert forall|k: int| 0 <= k < rest.len() implies cache_entry_writable(#[trigger] rest[k]) by {
            assert(rest[k] == v[k]);
        }
        lemma_cache_lines_split(rest);
        let x = d + seq!['\n'] + cache_lines(rest);
        if rest.len() > 0 {
            lemma_cache_lines_end(rest);
        }
        assert(x.last() == '\n');
        assert(x =~= x.drop_last() + seq!['\n']);
        let line = join_tab(cache_fields(last));
        assert((d + seq!['\n'] + cache_lines(v)).drop_last() =~= x.drop_last() + seq!['\n'] + line);
        lemma_split_concat(x.drop_last(), line, '\n');
        lemma_line_round_trip(last);
        lemma_split_single(line, '\n');
        assert(seq![d] + Seq::new(v.len(), |k: int| join_tab(cache_fields(v[k]))) =~= seq![d] + Seq::new(
            rest.len(),
            |k: int| join_tab(cache_fields(rest[k])),
        ) + seq![line]);
    }
}

/// The lines of the text written for writable entries: the version line, then each entry's
/// fields joined by tabs.
proof fn lemma_cache_text_lines(v: Seq<CacheEntryView>)
    requires
        forall|k: int| 0 <= k < v.len() ==> cache_entry_writable(#[trigger] v[k]),
    ensures
        text_lines(spec_encode_presentation_cache(v)) == seq![PRESENTATION_CACHE_VERSION@] + Seq::new(
            v.len(),
            |k: int| join_tab(cache_fields(v[k])),
        ),
{
    let d = PRESENTATION_CACHE_VERSION@;
    let text = spec_encode_presentation_cache(v);
    lemma_words_plain();
    lemma_cache_lines_split(v);
    if v.len() > 0 {
        lemma_cache_lines_end(v);
    }
    assert(text.last() == '\n');
    let empty = Seq::<char>::empty();
    assert(text =~= text.drop_last() + seq!['\n'] + empty);
    lemma_split_concat(text.drop_last(), empty, '\n');
    lemma_split_single(empty, '\n');
    let wanted = seq![d] + Seq::new(v.len(), |k: int| join_tab(cache_fields(v[k])));
    let pieces = split_text(text, '\n');
    assert(pieces == wanted + seq![empty]);
    assert(pieces.drop_last() =~= wanted);
    assert(pieces.last() == empty);
    assert forall|k: int| 0 <= k < wanted.len() implies without_carriage_return(#[trigger] wanted[k]) == wanted[k] by {
        if k > 0 {
            lemma_line_round_trip(v[k - 1]);
        }
    }
    assert(text_lines(text) =~= wanted);
}

/// Reading the text written for entries gives the entries back, when each is writable and no
/// two are for the same item.
pub proof fn law_presentation_cache_round_trip(entries: Seq<CacheEntryView>)
    requires
        forall|k: int| 0 <= k < entries.len() ==> cache_entry_writable(#[trigger] entries[k]),
        forall|a: int, b: int|
            0 <= a < b < entries.len() ==> #[trigger] entries[a].identity != #[trigger] entries[b].identity,
    ensures
        spec_parse_presentation_cache(spec_encode_presentation_cache(entries)) == Some(entries),
{
    let text = spec_encode_presentation_cache(entries);
    lemma_cache_text_lines(entries);
    lemma_words_plain();
    let lines = text_lines(text);
    let body = lines.drop_first();
    assert(body =~= Seq::new(entries.len(), |k: int| join_tab(cache_fields(entries[k]))));
    assert forall|i: int| 0 <= i < body.len() implies cache_fields_readable(#[trigger] split_text(body[i], '\t'))
        && cache_entry_of(split_text(body[i], '\t')) == entries[i] by {
        lemma_line_round_trip(entries[i]);
    }
    let parsed = Seq::new(body.len(), |i: int| cache_entry_of(split_text(body[i], '\t')));
    assert(parsed =~= entries);
}

/// What only the product-code and provider rules can say of a cache entry: whether its code
/// is already in display form, whether its verified identity passes the rules for its
/// category and code, and whether its cover source passes its provider's checks (its aspect
/// ratio among them).
#[derive(Clone, Copy, Debug, PartialEq, Eq)]
pub struct OutsideEntryChecks {
    pub code_displayed: bool,
    pub identity_verified: bool,
    pub source_valid: bool,
}

/// Metadata with nothing in it.
pub open spec fn metadata_empty(m: PresentationMetadata) -> bool {
    &&& m.verified_identity is None
    &&& !m.identity_conflict
    &&& m.source is None
    &&& m.provider_id is None
    &&& m.display_code is None
    &&& m.title is None
    &&& m.date is None
    &&& m.runtime is None
    &&& m.cast@.len() == 0
}

/// Whether a cache entry may be used: its identity is 40 hexadecimal digits, its code is in
/// display form, it has a save time for its verified identity exactly when it has one, that
/// identity passes the rules, a cover source agrees with it, and ready metadata names its
/// provider, describes the item or rests on the identity and agrees with it, while missing
/// metadata is empty.
pub open spec fn spec_cache_entry_valid(e: PresentationCacheEntry, checks: OutsideEntryChecks) -> bool {
    &&& e.identity@.len() == 40
    &&& forall|i: int| 0 <= i < 40 ==> #[trigger] is_hex_digit(e.identity@[i])
    &&& checks.code_displayed
    &&& if e.verified_identity is Some {
        e.identity_saved_at > 0 && checks.identity_verified
    } else {
        e.identity_saved_at == 0
    }
    &&& e.cover matches Some(c) ==> spec_source_identity_consistent(
        c.provider,
        c.provider_id@,
        c.display_code@,
        e.verified_identity,
        e.code@,
        checks.source_valid,
    )
    &&& if e.metadata_ready {
        &&& e.metadata.spec_has_provider_fields()
        &&& e.metadata.spec_has_descriptive_fields() || e.verified_identity is Some
        &&& spec_metadata_identity_consistent(e.metadata, e.verified_identity, e.code@)
    } else {
        metadata_empty(e.metadata)
    }
}

fn hex_identity(identity: &String) -> (hex: bool)
    ensures
        hex == (identity@.len() == 40 && forall|i: int| 0 <= i < 40 ==> #[trigger] is_hex_digit(identity@[i])),
{
    let t = chars_of(identity.as_str());
    if t.len() != 40 {
        return false;
    }
    let mut i: usize = 0;
    while i < 40
        invariant
            i <= 40,
            t@ == identity@,
            t@.len() == 40,
            forall|k: int| 0 <= k < i ==> #[trigger] is_hex_digit(t@[k]),
        decreases 40 - i,
    {
        let c = t[i];
        if !(('0' <= c && c <= '9') || ('a' <= c && c <= 'f') || ('A' <= c && c <= 'F')) {
            assert(!is_hex_digit(identity@[i as int]));
            return false;
        }
        i = i + 1;
    }
    true
}

/// Whether a cache entry may be used, given what the outside rules said of it.
pub fn cache_entry_valid(e: &PresentationCacheEntry, checks: &OutsideEntryChecks) -> (valid: bool)
    ensures
        valid == spec_cache_entry_valid(*e, *checks),
{
    if !hex_identity(&e.identity) || !checks.code_displayed {
        return false;
    }
    let identity_ok = match &e.verified_identity {
        Some(_) => e.identity_saved_at > 0 && checks.identity_verified,
        None => e.identity_saved_at == 0,
    };
    if !identity_ok {
        return false;
    }
    let cover_ok = match &e.cover {
        Some(c) => source_identity_consistent(
            c.provider,
            &c.provider_id,
            &c.display_code,
            e.verified_identity.as_ref(),
            e.code.as_str(),
            checks.source_valid,
        ),
        None => true,
    };
    if !cover_ok {
        return false;
    }
    let m = &e.metadata;
    if e.metadata_ready {
        m.has_provider_fields() && (m.has_descriptive_fields() || e.verified_identity.is_some())
            && metadata_identity_consistent(m, e.verified_identity.as_ref(), e.code.as_str())
    } else {
        m.verified_identity.is_none() && !m.identity_conflict && m.source.is_none()
            && m.provider_id.is_none() && m.display_code.is_none() && m.title.is_none()
            && m.date.is_none() && m.runtime.is_none() && m.cast.len() == 0
    }
}

/// Whether `checks` answered for entry `e` something for which its validity is `valid`.
pub open spec fn entry_judged<F: Fn(&PresentationCacheEntry) -> OutsideEntryChecks>(
    checks: F,
    e: PresentationCacheEntry,
    valid: bool,
) -> bool {
    exists|c: OutsideEntryChecks| #[trigger] call_ensures(checks, (&e,), c) && spec_cache_entry_valid(e, c) == valid
}

/// Reads a presentation cache file's text, asking `checks` what the outside rules say of each
/// entry: the entries when the text is a cache (`spec_parse_presentation_cache`) and every
/// entry is valid for what `checks` answered; `Err` otherwise.
pub fn read_presentation_cache(
    text: &str,
    checks: impl Fn(&PresentationCacheEntry) -> OutsideEntryChecks,
) -> (result: Result<Vec<PresentationCacheEntry>, ()>)
    requires
        forall|e: &PresentationCacheEntry| call_requires(checks, (e,)),
    ensures
        match result {
            Ok(entries) => spec_parse_presentation_cache(text@) == Some(entries_view(entries@))
                && forall|k: int| 0 <= k < entries@.len() ==> #[trigger] entry_judged(checks, entries@[k], true),
            Err(()) => match spec_parse_presentation_cache(text@) {
                None => true,
                Some(views) => exists|k: int, e: PresentationCacheEntry|
                    #![trigger views[k], entry_judged(checks, e, false)]
                    0 <= k < views.len() && e@ == views[k] && entry_judged(checks, e, false),
            },
        },
{
    let entries = match parse_presentation_cache(text) {
        Ok(entries) => entries,
        Err(()) => return Err(()),
    };
    let mut k: usize = 0;
    while k < entries.len()
        invariant
            k <= entries@.len(),
            forall|e: &PresentationCacheEntry| call_requires(checks, (e,)),
            spec_parse_presentation_cache(text@) == Some(entries_view(entries@)),
            forall|j: int| 0 <= j < k ==> #[trigger] entry_judged(checks, entries@[j], true),
        decreases entries@.len() - k,
    {
        let answer = checks(&entries[k]);
        let valid = cache_entry_valid(&entries[k], &answer);
        assert(entry_judged(checks, entries@[k as int], valid));
        if !valid {
            proof {
                let views = entries_view(entries@);
                assert(spec_parse_presentation_cache(text@) == Some(views));
                assert(views[k as int] == entries@[k as int]@);
                assert(entry_judged(checks, entries@[k as int], false));
                assert(spec_parse_presentation_cache(text@)->0[k as int] == entries@[k as int]@);
            }
            return Err(());
        }
        k = k + 1;
    }
    Ok(entries)
}

/// Whether entries are in cache order: none comes before an earlier one by identity.
pub open spec fn cache_ordered(s: Seq<PresentationCacheEntry>) -> bool {
    forall|i: int, j: int| 0 <= i < j < s.len() ==> !text_less(#[trigger] s[j].identity@, #[trigger] s[i].identity@)
}

/// Whether an entry is for another item than `identity`.
pub open spec fn other_item(identity: Seq<char>) -> spec_fn(PresentationCacheEntry) -> bool {
    |e: PresentationCacheEntry| e.identity@ != identity
}

fn text_less_string(a: &String, b: &String) -> (less: bool)
    ensures
        less == text_less(a@, b@),
{
    let x = chars_of(a.as_str());
    let y = chars_of(b.as_str());
    text_less_chars(&x, &y)
}

/// Puts `x` into ordered entries after every entry whose identity does not come after its own.
fn insert_ordered(sorted: &mut Vec<PresentationCacheEntry>, x: PresentationCacheEntry)
    requires
        cache_ordered(old(sorted)@),
    ensures
        cache_ordered(final(sorted)@),
        final(sorted)@.to_multiset() == old(sorted)@.to_multiset().insert(x),
{
    let mut p: usize = sorted.len();
    while p > 0 && text_less_string(&x.identity, &sorted[p - 1].identity)
        invariant
            p <= sorted@.len(),
            forall|k: int| p <= k < sorted@.len() ==> text_less(x.identity@, #[trigger] sorted@[k].identity@),
        decreases p,
    {
        p = p - 1;
    }
    let ghost before = sorted@;
    proof {
        assert forall|k: int| 0 <= k < p implies !text_less(x.identity@, #[trigger] before[k].identity@) by {
            if k < p - 1 {
                assert(!text_less(x.identity@, before[p - 1].identity@));
                assert(!text_less(before[p - 1].identity@, before[k].identity@));
                lemma_text_less_order(x.identity@, before[p - 1].identity@, before[k].identity@);
                lemma_text_less_order(before[k].identity@, before[p - 1].identity@, x.identity@);
                lemma_text_less_order(before[p - 1].identity@, x.identity@, before[k].identity@);
                lemma_text_less_order(x.identity@, before[k].identity@, before[p - 1].identity@);
            }
        }
    }
    let ghost xv = x;
    sorted.insert(p, x);
    proof {
        let after = sorted@;
        assert(after =~= before.insert(p as int, xv));
        assert forall|a: int, b: int| 0 <= a < b < after.len() implies !text_less(
            #[trigger] after[b].identity@,
            #[trigger] after[a].identity@,
        ) by {
            if a < p && b == p {
                lemma_text_less_order(xv.identity@, before[a].identity@, xv.identity@);
            } else if a == p && b > p {
                assert(after[b] == before[b - 1]);
                lemma_text_less_order(xv.identity@, before[b - 1].identity@, xv.identity@);
            } else if b < p {
                assert(after[a] == before[a] && after[b] == before[b]);
            } else if a > p {
                assert(after[a] == before[a - 1] && after[b] == before[b - 1]);
            } else {
                assert(after[a] == before[a] && after[b] == before[b - 1]);
            }
        }
        vstd::seq_lib::to_multiset_insert(before, p as int, xv);
    }
}

/// The cache after keeping `entry`: the entries for other items and `entry`, in order of
/// their identities.
pub fn merge_cache_entry(entries: Vec<PresentationCacheEntry>, entry: PresentationCacheEntry) -> (merged: Vec<
    PresentationCacheEntry,
>)
    ensures
        cache_ordered(merged@),
        merged@.to_multiset() == entries@.filter(other_item(entry.identity@)).push(entry).to_multiset(),
{
    let ghost original = entries@;
    let ghost keep = other_item(entry.identity@);
    let mut rest = entries;
    let mut sorted: Vec<PresentationCacheEntry> = Vec::new();
    let ghost mut i: int = 0;
    proof {
        assert(original.take(0) =~= Seq::<PresentationCacheEntry>::empty());
        reveal(Seq::filter);
        assert(original.take(0).filter(keep) =~= Seq::<PresentationCacheEntry>::empty());
        assert(sorted@ =~= Seq::<PresentationCacheEntry>::empty());
    }
    while rest.len() > 0
        invariant
            0 <= i <= original.len(),
            rest@ == original.subrange(i, original.len() as int),
            keep == other_item(entry.identity@),
            cache_ordered(sorted@),
            sorted@.to_multiset() == original.take(i).filter(keep).to_multiset(),
        decreases rest@.len(),
    {
        let x = rest.remove(0);
        proof {
            assert(x == original[i]);
            assert(original.take(i + 1).drop_last() =~= original.take(i));
            assert(original.take(i + 1).last() == original[i]);
            reveal(Seq::filter);
        }
        if !same_chars(&x.identity, &entry.identity) {
            let ghost before = sorted@;
            insert_ordered(&mut sorted, x);
            proof {
                assert(original.take(i + 1).filter(keep) == original.take(i).filter(keep).push(original[i]));
                vstd::seq_lib::to_multiset_build(original.take(i).filter(keep), original[i]);
            }
        } else {
            proof {
                assert(original.take(i + 1).filter(keep) == original.take(i).filter(keep));
            }
        }
        proof {
            i = i + 1;
            assert(rest@ =~= original.subrange(i, original.len() as int));
        }
    }
    proof {
        assert(original.take(i) =~= original);
    }
    let ghost kept = sorted@;
    let ghost e = entry;
    insert_ordered(&mut sorted, entry);
    proof {
        vstd::seq_lib::to_multiset_build(original.filter(keep), e);
    }
    sorted
}

/// The cache after forgetting item `identity`: the other entries, in their order.
pub fn remove_cache_entry(entries: Vec<PresentationCacheEntry>, identity: &String) -> (kept: Vec<
    PresentationCacheEntry,
>)
    ensures
        kept@ == entries@.filter(other_item(identity@)),
{
    let ghost original = entries@;
    let ghost keep = other_item(identity@);
    let mut rest = entries;
    let mut kept: Vec<PresentationCacheEntry> = Vec::new();
    let ghost mut i: int = 0;
    proof {
        reveal(Seq::filter);
        assert(original.take(0) =~= Seq::<PresentationCacheEntry>::empty());
        assert(kept@ =~= original.take(0).filter(keep));
    }
    while rest.len() > 0
        invariant
            0 <= i <= original.len(),
            rest@ == original.subrange(i, original.len() as int),
            keep == other_item(identity@),
            kept@ == original.take(i).filter(keep),
        decreases rest@.len(),
    {
        let x = rest.remove(0);
        proof {
            assert(x == original[i]);
            assert(original.take(i + 1).drop_last() =~= original.take(i));
            assert(original.take(i + 1).last() == original[i]);
            reveal(Seq::filter);
        }
        if !same_chars(&x.identity, identity) {
            kept.push(x);
        }
        proof {
            i = i + 1;
            assert(rest@ =~= original.subrange(i, original.len() as int));
        }
    }
    proof {
        assert(original.take(i) =~= original);
    }
    kept
}

/// How long a cached cover is used, in seconds.
pub const COVER_TTL_SECONDS: u64 = 86400;

/// How long a cached verified identity is used, in seconds.
pub const METADATA_TTL_SECONDS: u64 = 31536000;

/// Whether something saved at `saved_at` is still fresh at `now`: it was saved, not in the
/// future, and at most `ttl` seconds ago.
pub open spec fn saved_fresh(saved_at: u64, now: u64, ttl: u64) -> bool {
    0 < saved_at <= now && now - saved_at <= ttl
}

/// Whether a cache entry is for `authority`'s item, with the same category and code.
pub open spec fn entry_for(e: PresentationCacheEntry, authority: LibraryItemAuthority) -> bool {
    e.identity@ == authority.identity@ && e.category == authority.category && e.code@ == authority.code@
}

fn saved_fresh_exec(saved_at: u64, now: u64, ttl: u64) -> (fresh: bool)
    ensures
        fresh == saved_fresh(saved_at, now, ttl),
{
    saved_at > 0 && saved_at <= now && now - saved_at <= ttl
}

fn entry_for_exec(e: &PresentationCacheEntry, authority: &LibraryItemAuthority) -> (found: bool)
    ensures
        found == entry_for(*e, *authority),
{
    same_chars(&e.identity, &authority.identity) && e.category == authority.category && same_chars(
        &e.code,
        &authority.code,
    )
}

/// The first entry for `authority`'s item whose verified identity was saved less than
/// `METADATA_TTL_SECONDS` ago.
pub fn fresh_identity_entry(
    cache: &Vec<PresentationCacheEntry>,
    authority: &LibraryItemAuthority,
    now: u64,
) -> (found: Option<usize>)
    ensures
        match found {
            Some(k) => k < cache@.len() && entry_for(cache@[k as int], *authority) && saved_fresh(
                cache@[k as int].identity_saved_at,
                now,
                METADATA_TTL_SECONDS,
            ) && forall|j: int|
                0 <= j < k ==> !(entry_for(#[trigger] cache@[j], *authority) && saved_fresh(
                    cache@[j].identity_saved_at,
                    now,
                    METADATA_TTL_SECONDS,
                )),
            None => forall|j: int|
                0 <= j < cache@.len() ==> !(entry_for(#[trigger] cache@[j], *authority) && saved_fresh(
                    cache@[j].identity_saved_at,
                    now,
                    METADATA_TTL_SECONDS,
                )),
        },
{
    let mut k: usize = 0;
    while k < cache.len()
        invariant
            k <= cache@.len(),
            forall|j: int|
                0 <= j < k ==> !(entry_for(#[trigger] cache@[j], *authority) && saved_fresh(
                    cache@[j].identity_saved_at,
                    now,
                    METADATA_TTL_SECONDS,
                )),
        decreases cache@.len() - k,
    {
        if entry_for_exec(&cache[k], authority) && saved_fresh_exec(cache[k].identity_saved_at, now, METADATA_TTL_SECONDS) {
            return Some(k);
        }
        k = k + 1;
    }
    None
}

/// The first entry for `authority`'s item whose cover was saved less than
/// `COVER_TTL_SECONDS` ago: the cover answered from the cache.
pub fn fresh_cover_entry(
    cache: &Vec<PresentationCacheEntry>,
    authority: &LibraryItemAuthority,
    now: u64,
) -> (found: Option<usize>)
    ensures
        match found {
            Some(k) => k < cache@.len() && entry_for(cache@[k as int], *authority) && saved_fresh(
                cache@[k as int].cover_saved_at,
                now,
                COVER_TTL_SECONDS,
            ) && forall|j: int|
                0 <= j < k ==> !(entry_for(#[trigger] cache@[j], *authority) && saved_fresh(
                    cache@[j].cover_saved_at,
                    now,
                    COVER_TTL_SECONDS,
                )),
            None => forall|j: int|
                0 <= j < cache@.len() ==> !(entry_for(#[trigger] cache@[j], *authority) && saved_fresh(
                    cache@[j].cover_saved_at,
                    now,
                    COVER_TTL_SECONDS,
                )),
        },
{
    let mut k: usize = 0;
    while k < cache.len()
        invariant
            k <= cache@.len(),
            forall|j: int|
                0 <= j < k ==> !(entry_for(#[trigger] cache@[j], *authority) && saved_fresh(
                    cache@[j].cover_saved_at,
                    now,
                    COVER_TTL_SECONDS,
                )),
        decreases cache@.len() - k,
    {
        if entry_for_exec(&cache[k], authority) && saved_fresh_exec(cache[k].cover_saved_at, now, COVER_TTL_SECONDS) {
            return Some(k);
        }
        k = k + 1;
    }
    None
}

/// The verified identity a resolution keeps, with the time it counts as saved: a newly
/// resolved identity is saved now; when the providers could not be reached (`transient`), the
/// fresh cached identity (`cached`, with its save time) stays; otherwise there is none.
pub fn identity_to_keep(
    resolved: Option<VerifiedDisplayIdentity>,
    transient: bool,
    cached: Option<(u64, VerifiedDisplayIdentity)>,
    now: u64,
) -> (kept: (u64, Option<VerifiedDisplayIdentity>))
    ensures
        kept == match resolved {
            Some(i) => (now, Some(i)),
            None => match cached {
                Some((saved_at, i)) => if transient {
                    (saved_at, Some(i))
                } else {
                    (0u64, None::<VerifiedDisplayIdentity>)
                },
                None => (0u64, None::<VerifiedDisplayIdentity>),
            },
        },
{
    match resolved {
        Some(i) => (now, Some(i)),
        None => {
            if transient {
                match cached {
                    Some((saved_at, i)) => (saved_at, Some(i)),
                    None => (0, None),
                }
            } else {
                (0, None)
            }
        },
    }
}

/// The cache entry after a resolution of `authority`'s item at `now`: the item's entry, or a
/// fresh empty one, takes the item's category and code, the kept identity with its save time,
/// and, unless the cover was unavailable (`cover` is `None`), the resolved cover (or none)
/// saved now; its metadata stays.
pub fn resolved_cache_entry(
    cache: Vec<PresentationCacheEntry>,
    authority: &LibraryItemAuthority,
    now: u64,
    identity_saved_at: u64,
    verified_identity: Option<VerifiedDisplayIdentity>,
    cover: Option<Option<CachedCover>>,
) -> (entry: PresentationCacheEntry)
    ensures
        entry.identity@ == authority.identity@,
        entry.category == authority.category,
        entry.code@ == authority.code@,
        entry.identity_saved_at == identity_saved_at,
        entry.verified_identity == verified_identity,
        ({
            let previous = cache@.filter(|e: PresentationCacheEntry| e.identity@ == authority.identity@);
            &&& previous.len() == 0 ==> {
                &&& entry.metadata_saved_at == 0
                &&& !entry.metadata_ready
                &&& metadata_empty(entry.metadata)
                &&& cover is None ==> entry.cover_saved_at == 0 && entry.cover is None
            }
            &&& previous.len() > 0 ==> {
                &&& entry.metadata_saved_at == previous[0].metadata_saved_at
                &&& entry.metadata_ready == previous[0].metadata_ready
                &&& entry.metadata == previous[0].metadata
                &&& cover is None ==> entry.cover_saved_at == previous[0].cover_saved_at
                    && entry.cover == previous[0].cover
            }
        }),
        cover matches Some(c) ==> entry.cover_saved_at == now && entry.cover == c,
{
    let ghost original = cache@;
    let ghost same = |e: PresentationCacheEntry| e.identity@ == authority.identity@;
    let mut cache = cache;
    let found = match find_identity(&cache, &authority.identity) {
        Some(j) => {
            proof {
                assert forall|a: int| 0 <= a < j implies !same(#[trigger] original[a]) by {}
                lemma_filter_first(original, same, j as int);
            }
            Some(cache.remove(j))
        },
        None => {
            proof {
                lemma_filter_none(original, same);
            }
            None
        },
    };
    let mut entry = match found {
        Some(e) => e,
        None => PresentationCacheEntry {
            identity: authority.identity.clone(),
            category: authority.category,
            code: authority.code.clone(),
            identity_saved_at: 0,
            verified_identity: None,
            cover_saved_at: 0,
            cover: None,
            metadata_saved_at: 0,
            metadata_ready: false,
            metadata: PresentationMetadata::default(),
        },
    };
    entry.identity = authority.identity.clone();
    entry.category = authority.category;
    entry.code = authority.code.clone();
    entry.identity_saved_at = identity_saved_at;
    entry.verified_identity = verified_identity;
    match cover {
        Some(c) => {
            entry.cover_saved_at = now;
            entry.cover = c;
        },
        None => {},
    }
    entry
}

/// Whether something saved at `saved_at` is still fresh at `now` (see `saved_fresh`).
pub fn saved_fresh_at(saved_at: u64, now: u64, ttl: u64) -> (fresh: bool)
    ensures
        fresh == saved_fresh(saved_at, now, ttl),
{
    saved_fresh_exec(saved_at, now, ttl)
}

/// The first entry for `authority`'s item (same identity, category and code): the one whose
/// metadata a metadata request reads.
pub fn first_item_entry(cache: &Vec<PresentationCacheEntry>, authority: &LibraryItemAuthority) -> (found:
    Option<usize>)
    ensures
        match found {
            Some(k) => k < cache@.len() && entry_for(cache@[k as int], *authority) && forall|j: int|
                0 <= j < k ==> !entry_for(#[trigger] cache@[j], *authority),
            None => forall|j: int| 0 <= j < cache@.len() ==> !entry_for(#[trigger] cache@[j], *authority),
        },
{
    let mut k: usize = 0;
    while k < cache.len()
        invariant
            k <= cache@.len(),
            forall|j: int| 0 <= j < k ==> !entry_for(#[trigger] cache@[j], *authority),
        decreases cache@.len() - k,
    {
        if entry_for_exec(&cache[k], authority) {
            return Some(k);
        }
        k = k + 1;
    }
    None
}

/// Whether two optional identities are the same identity.
pub open spec fn same_optional_identity(
    a: Option<VerifiedDisplayIdentity>,
    b: Option<VerifiedDisplayIdentity>,
) -> bool {
    match (a, b) {
        (None, None) => true,
        (Some(x), Some(y)) => same_identity(x, y),
        _ => false,
    }
}

/// The entry a resolution starts from: the first entry for the item's identity, or an empty
/// one.
pub open spec fn base_entry(
    cache: Seq<PresentationCacheEntry>,
    authority: LibraryItemAuthority,
) -> Option<PresentationCacheEntry> {
    let previous = cache.filter(|e: PresentationCacheEntry| e.identity@ == authority.identity@);
    if previous.len() > 0 {
        Some(previous[0])
    } else {
        None
    }
}

/// A cached cover after the verified identity is known: an r18.dev cover shows the verified
/// display code.
pub open spec fn cover_with_identity(
    cover: Option<CachedCover>,
    identity: Option<VerifiedDisplayIdentity>,
) -> Option<CachedCoverView> {
    match cover {
        None => None,
        Some(c) => Some(
            if c.provider == CoverProvider::R18Dev && identity is Some {
                CachedCoverView { display_code: identity->0.display_code@, ..c@ }
            } else {
                c@
            },
        ),
    }
}

/// The cache entry after metadata for `authority`'s item was resolved at `now`, or `None`
/// when the item's cached cover no longer agrees with the verified identity (the entry must
/// then be forgotten): the entry takes the item's category and code, the verified identity
/// (saved now when it differs from `current`, the fresh cached one), an r18.dev cover shows
/// the verified display code, and the metadata is ready and saved now. `source_valid` says
/// whether the cached cover source passes its provider's checks.
pub fn metadata_cache_update(
    cache: Vec<PresentationCacheEntry>,
    authority: &LibraryItemAuthority,
    now: u64,
    current: Option<VerifiedDisplayIdentity>,
    verified: Option<VerifiedDisplayIdentity>,
    metadata: PresentationMetadata,
    source_valid: bool,
) -> (updated: Option<PresentationCacheEntry>)
    ensures
        ({
            let base = base_entry(cache@, *authority);
            let cover = cover_with_identity(
                if base is Some { base->0.cover } else { None },
                verified,
            );
            &&& updated is None <==> (cover matches Some(c) && !spec_source_identity_consistent(
                c.provider,
                c.provider_id,
                c.display_code,
                verified,
                authority.code@,
                source_valid,
            ))
            &&& updated matches Some(e) ==> {
                &&& e.identity@ == authority.identity@
                &&& e.category == authority.category
                &&& e.code@ == authority.code@
                &&& e.verified_identity == verified
                &&& e.identity_saved_at == if same_optional_identity(verified, current) {
                    if base is Some { base->0.identity_saved_at } else { 0 }
                } else {
                    now
                }
                &&& e.cover_saved_at == if base is Some { base->0.cover_saved_at } else { 0 }
                &&& (match e.cover { Some(c) => Some(c@), None => None }) == cover
                &&& e.metadata_saved_at == now
                &&& e.metadata_ready
                &&& e.metadata == metadata
            }
        }),
{
    let ghost original = cache@;
    let ghost same = |e: PresentationCacheEntry| e.identity@ == authority.identity@;
    let mut cache = cache;
    let found = match find_identity(&cache, &authority.identity) {
        Some(j) => {
            proof {
                assert forall|a: int| 0 <= a < j implies !same(#[trigger] original[a]) by {}
                lemma_filter_first(original, same, j as int);
            }
            Some(cache.remove(j))
        },
        None => {
            proof {
                lemma_filter_none(original, same);
            }
            None
        },
    };
    let mut entry = match found {
        Some(e) => e,
        None => PresentationCacheEntry {
            identity: authority.identity.clone(),
            category: authority.category,
            code: authority.code.clone(),
            identity_saved_at: 0,
            verified_identity: None,
            cover_saved_at: 0,
            cover: None,
            metadata_saved_at: 0,
            metadata_ready: false,
            metadata: PresentationMetadata::default(),
        },
    };
    let unchanged = match (&verified, &current) {
        (None, None) => true,
        (Some(x), Some(y)) => identities_equal(x, y),
        _ => false,
    };
    entry.identity = authority.identity.clone();
    entry.category = authority.category;
    entry.code = authority.code.clone();
    if !unchanged {
        entry.identity_saved_at = now;
    }
    let cover = match entry.cover {
        Some(mut c) => {
            match &verified {
                Some(i) => {
                    if c.provider == CoverProvider::R18Dev {
                        c.display_code = i.display_code.clone();
                    }
                },
                None => {},
            }
            Some(c)
        },
        None => None,
    };
    let consistent = match &cover {
        Some(c) => source_identity_consistent(
            c.provider,
            &c.provider_id,
            &c.display_code,
            verified.as_ref(),
            authority.code.as_str(),
            source_valid,
        ),
        None => true,
    };
    if !consistent {
        return None;
    }
    entry.cover = cover;
    entry.verified_identity = verified;
    entry.metadata_saved_at = now;
    entry.metadata_ready = true;
    entry.metadata = metadata;
    Some(entry)
}

} // verus!
