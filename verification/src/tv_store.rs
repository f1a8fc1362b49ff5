//! The persisted TV show metadata associations: their records, their validity, and the
//! checksummed text format they are stored in.
use vstd::prelude::*;
use vstd::utf8::{decode_utf8, encode_utf8, valid_utf8};

use crate::episode::MAXIMUM_SAFE_INTEGER;
use crate::digest::{hex_sha1, lemma_hex_bytes, sha1_digest, spec_hex_sha1};
use crate::hex::{
    decode_hex_chars, encode_hex_text, hex_encode, hex_text, is_hex_digit, lemma_hex_encode_decode,
    lemma_hex_text_round_trip, spec_decode_hex_text, string_from_utf8,
};
use crate::text::{lemma_decimal_string, lemma_parse_decimal_string, lemma_split_concat, lemma_split_join_tab, lemma_split_single, all_digits, append_field, chars_of, copy_range, parse_unsigned, split_ranges_exec, decimal_string, decimal_string_of, join_tab, spec_parse_unsigned, split_text, push_char, push_str, control_char, digit_char, is_digit, is_unicode_control,
    is_unicode_whitespace, whitespace_char};

verus! {

pub const TV_METADATA_PERSISTENCE_FAILED: &'static str = "tv_metadata_persistence_failed";

/// Largest accepted store, in bytes.
pub const TV_METADATA_MAX_BYTES: u64 = 4194304;

/// Largest number of associations in a store.
pub const TV_METADATA_MAX_RECORDS: usize = 10000;

/// Largest number of anchor episodes of one association.
pub const TV_METADATA_MAX_ANCHORS: usize = 10000;

/// One episode file that binds an association to the local library.
#[derive(Clone, Debug, PartialEq, Eq)]
pub struct TvMetadataAnchor {
    pub relative_path: String,
    pub season: u64,
    pub episode: u64,
    pub file_identity: String,
    pub fingerprint: String,
    pub size: u64,
}

pub struct TvAnchorView {
    pub relative_path: Seq<char>,
    pub season: u64,
    pub episode: u64,
    pub file_identity: Seq<char>,
    pub fingerprint: Seq<char>,
    pub size: u64,
}

impl View for TvMetadataAnchor {
    type V = TvAnchorView;

    open spec fn view(&self) -> TvAnchorView {
        TvAnchorView {
            relative_path: self.relative_path@,
            season: self.season,
            episode: self.episode,
            file_identity: self.file_identity@,
            fingerprint: self.fingerprint@,
            size: self.size,
        }
    }
}

/// A verified TMDB show bound to a local show group of one library folder.
#[derive(Clone, Debug, PartialEq, Eq)]
pub struct TvMetadataAssociation {
    pub folder: String,
    pub folder_identity: String,
    pub local_show_title: String,
    pub anchors: Vec<TvMetadataAnchor>,
    pub tmdb_tv_id: u64,
    pub imdb_id: String,
    pub name: String,
    pub original_name: Option<String>,
    pub first_air_date: Option<String>,
    pub poster_path: Option<String>,
    pub overview: Option<String>,
    pub generation: u64,
}

pub struct TvAssociationView {
    pub folder: Seq<char>,
    pub folder_identity: Seq<char>,
    pub local_show_title: Seq<char>,
    pub anchors: Seq<TvAnchorView>,
    pub tmdb_tv_id: u64,
    pub imdb_id: Seq<char>,
    pub name: Seq<char>,
    pub original_name: Option<Seq<char>>,
    pub first_air_date: Option<Seq<char>>,
    pub poster_path: Option<Seq<char>>,
    pub overview: Option<Seq<char>>,
    pub generation: u64,
}

/// The characters of an optional string.
pub open spec fn optional_view(value: Option<String>) -> Option<Seq<char>> {
    match value {
        Some(s) => Some(s@),
        None => None,
    }
}

impl View for TvMetadataAssociation {
    type V = TvAssociationView;

    open spec fn view(&self) -> TvAssociationView {
        TvAssociationView {
            folder: self.folder@,
            folder_identity: self.folder_identity@,
            local_show_title: self.local_show_title@,
            anchors: self.anchors@.map_values(|a: TvMetadataAnchor| a@),
            tmdb_tv_id: self.tmdb_tv_id,
            imdb_id: self.imdb_id@,
            name: self.name@,
            original_name: optional_view(self.original_name),
            first_air_date: optional_view(self.first_air_date),
            poster_path: optional_view(self.poster_path),
            overview: optional_view(self.overview),
            generation: self.generation,
        }
    }
}

/// The length of a string in UTF-8 bytes.
pub open spec fn byte_len(s: Seq<char>) -> nat {
    encode_utf8(s).len()
}

/// Whether a string is empty once trimmed of whitespace.
pub open spec fn is_blank(s: Seq<char>) -> bool {
    forall|i: int| 0 <= i < s.len() ==> #[trigger] is_unicode_whitespace(s[i])
}

/// Whether a string holds a control character.
pub open spec fn has_control(s: Seq<char>) -> bool {
    exists|i: int| 0 <= i < s.len() && #[trigger] is_unicode_control(s[i])
}

/// A calendar date written `YYYY-MM-DD` (digits are not range-checked).
pub open spec fn spec_valid_date(s: Seq<char>) -> bool {
    &&& s.len() == 10
    &&& s[4] == '-'
    &&& s[7] == '-'
    &&& forall|i: int| 0 <= i < 10 && i != 4 && i != 7 ==> #[trigger] is_digit(s[i])
}

/// An IMDb identifier in canonical form: `tt` and at least seven digits.
pub open spec fn spec_canonical_imdb_id(s: Seq<char>) -> bool {
    &&& s.len() >= 9
    &&& s[0] == 't'
    &&& s[1] == 't'
    &&& all_digits(s.subrange(2, s.len() as int))
}

/// The `/`-separated segments of `t`, empty ones included.
pub open spec fn slash_segments(t: Seq<char>) -> Seq<Seq<char>> {
    split_text(t, '/')
}

/// A relative path made only of plain names, as `Path::components` sees it on Unix: it is
/// not absolute, does not start with a `.` component, has no `..` component, and names at
/// least one plain component (empty and interior `.` segments are not components).
pub open spec fn spec_valid_relative_path(t: Seq<char>) -> bool {
    let segments = slash_segments(t);
    &&& !(t.len() > 0 && t[0] == '/')
    &&& segments[0] != seq!['.']
    &&& forall|k: int| 0 <= k < segments.len() ==> #[trigger] segments[k] != seq!['.', '.']
    &&& exists|k: int|
        0 <= k < segments.len() && (#[trigger] segments[k]).len() > 0 && segments[k] != seq!['.']
}

/// Whether an anchor is well formed.
pub open spec fn spec_anchor_valid(anchor: TvAnchorView) -> bool {
    &&& spec_valid_relative_path(anchor.relative_path)
    &&& byte_len(anchor.relative_path) <= 32768
    &&& 1 <= anchor.season <= MAXIMUM_SAFE_INTEGER
    &&& 1 <= anchor.episode <= MAXIMUM_SAFE_INTEGER
    &&& 0 < byte_len(anchor.file_identity) <= 256
    &&& 0 < byte_len(anchor.fingerprint) <= 512
}

/// An optional text that, when present, is not blank and fits `max` bytes.
pub open spec fn optional_text_valid(value: Option<Seq<char>>, max: nat) -> bool {
    value matches Some(s) ==> !is_blank(s) && byte_len(s) <= max
}

/// An optional TMDB poster path: it starts with `/`, fits 16 KiB and holds no control
/// character.
pub open spec fn optional_poster_valid(value: Option<Seq<char>>) -> bool {
    value matches Some(s) ==> s.len() > 0 && s[0] == '/' && byte_len(s) <= 16384 && !has_control(s)
}

/// Whether an association may be stored.
pub open spec fn spec_association_valid(a: TvAssociationView) -> bool {
    &&& a.folder.len() > 0 && a.folder[0] == '/'
    &&& 0 < byte_len(a.folder_identity) <= 256
    &&& !is_blank(a.local_show_title) && byte_len(a.local_show_title) <= 16384
    &&& 0 < a.anchors.len() <= TV_METADATA_MAX_ANCHORS
    &&& a.tmdb_tv_id != 0
    &&& spec_canonical_imdb_id(a.imdb_id)
    &&& !is_blank(a.name) && byte_len(a.name) <= 16384
    &&& optional_text_valid(a.original_name, 16384)
    &&& (a.first_air_date matches Some(d) ==> spec_valid_date(d))
    &&& optional_poster_valid(a.poster_path)
    &&& optional_text_valid(a.overview, 262144)
    &&& a.generation != 0
    &&& forall|k: int| 0 <= k < a.anchors.len() ==> spec_anchor_valid(#[trigger] a.anchors[k])
    &&& forall|j: int, k: int|
        0 <= j < k < a.anchors.len() ==> #[trigger] a.anchors[j].relative_path
            != #[trigger] a.anchors[k].relative_path
}

/// The UTF-8 length of a string.
pub fn text_byte_len(s: &String) -> (n: usize)
    ensures
        n == byte_len(s@),
{
    let bytes = s.as_str().as_bytes();
    bytes.len()
}

/// Whether a string is empty once trimmed of whitespace (`str::trim().is_empty()`).
pub fn blank(s: &str) -> (b: bool)
    ensures
        b == is_blank(s@),
{
    let t = chars_of(s);
    let mut i: usize = 0;
    while i < t.len()
        invariant
            i <= t@.len(),
            t@ == s@,
            forall|k: int| 0 <= k < i ==> #[trigger] is_unicode_whitespace(t@[k]),
        decreases t@.len() - i,
    {
        if !whitespace_char(t[i]) {
            assert(!is_unicode_whitespace(s@[i as int]));
            return false;
        }
        i = i + 1;
    }
    true
}

/// Whether a string holds a control character.
pub fn contains_control(s: &str) -> (b: bool)
    ensures
        b == has_control(s@),
{
    let t = chars_of(s);
    let mut i: usize = 0;
    while i < t.len()
        invariant
            i <= t@.len(),
            t@ == s@,
            forall|k: int| 0 <= k < i ==> !#[trigger] is_unicode_control(t@[k]),
        decreases t@.len() - i,
    {
        if control_char(t[i]) {
            assert(is_unicode_control(s@[i as int]));
            return true;
        }
        i = i + 1;
    }
    false
}

/// Whether `value` is a date written `YYYY-MM-DD`.
pub fn valid_tv_metadata_date(value: &str) -> (b: bool)
    ensures
        b == spec_valid_date(value@),
{
    let t = chars_of(value);
    if t.len() != 10 || t[4] != '-' || t[7] != '-' {
        return false;
    }
    let mut i: usize = 0;
    while i < 10
        invariant
            i <= 10,
            t@ == value@,
            t@.len() == 10,
            forall|k: int| 0 <= k < i && k != 4 && k != 7 ==> #[trigger] is_digit(t@[k]),
        decreases 10 - i,
    {
        if i != 4 && i != 7 && !digit_char(t[i]) {
            assert(!is_digit(value@[i as int]));
            return false;
        }
        i = i + 1;
    }
    true
}

/// Whether `value` is an IMDb identifier in canonical form.
pub fn canonical_imdb_id(value: &str) -> (b: bool)
    ensures
        b == spec_canonical_imdb_id(value@),
{
    let t = chars_of(value);
    if t.len() < 9 || t[0] != 't' || t[1] != 't' {
        return false;
    }
    let mut i: usize = 2;
    while i < t.len()
        invariant
            2 <= i <= t@.len(),
            t@ == value@,
            forall|k: int| 2 <= k < i ==> #[trigger] is_digit(t@[k]),
        decreases t@.len() - i,
    {
        if !digit_char(t[i]) {
            assert(!is_digit(value@.subrange(2, value@.len() as int)[i - 2]));
            return false;
        }
        i = i + 1;
    }
    assert forall|k: int| 0 <= k < value@.len() - 2 implies #[trigger] is_digit(
        value@.subrange(2, value@.len() as int)[k],
    ) by {
        assert(is_digit(t@[k + 2]));
    }
    true
}


/// Whether the segment `t[a..b]` is `.`.
fn is_dot_segment(t: &[char], a: usize, b: usize) -> (result: bool)
    requires
        a <= b <= t@.len(),
    ensures
        result == (t@.subrange(a as int, b as int) == seq!['.']),
{
    assert(seq!['.'].len() == 1 && seq!['.'][0] == '.');
    if b - a == 1 && t[a] == '.' {
        assert(t@.subrange(a as int, b as int) =~= seq!['.']);
        true
    } else {
        if b - a == 1 {
            assert(t@.subrange(a as int, b as int)[0] != '.');
        }
        false
    }
}

/// Whether the segment `t[a..b]` is `..`.
fn is_dot_dot_segment(t: &[char], a: usize, b: usize) -> (result: bool)
    requires
        a <= b <= t@.len(),
    ensures
        result == (t@.subrange(a as int, b as int) == seq!['.', '.']),
{
    let ghost segment = t@.subrange(a as int, b as int);
    assert(seq!['.', '.'][0] == '.' && seq!['.', '.'][1] == '.' && seq!['.', '.'].len() == 2);
    if b - a == 2 && t[a] == '.' && t[a + 1] == '.' {
        assert(segment =~= seq!['.', '.']);
        true
    } else {
        proof {
            if b - a == 2 {
                assert(segment[0] == t@[a as int]);
                assert(segment[1] == t@[a + 1]);
                if segment == seq!['.', '.'] {
                    assert(segment[0] == '.');
                    assert(segment[1] == '.');
                }
            }
        }
        false
    }
}

/// Whether `value` is a relative path made only of plain names.
pub fn valid_tv_metadata_relative_path(value: &str) -> (b: bool)
    ensures
        b == spec_valid_relative_path(value@),
{
    let t = chars_of(value);
    if t.len() > 0 && t[0] == '/' {
        return false;
    }
    let ranges = split_ranges_exec(&t, '/');
    let ghost segments = slash_segments(t@);
    if is_dot_segment(&t, ranges[0].0, ranges[0].1) {
        return false;
    }
    let mut has_plain = false;
    let mut k: usize = 0;
    while k < ranges.len()
        invariant
            t@ == value@,
            segments == slash_segments(t@),
            ranges@.len() == segments.len(),
            forall|j: int|
                0 <= j < ranges@.len() ==> (#[trigger] ranges@[j]).0 <= ranges@[j].1 <= t@.len()
                    && t@.subrange(ranges@[j].0 as int, ranges@[j].1 as int) == segments[j],
            k <= ranges@.len(),
            forall|j: int| 0 <= j < k ==> #[trigger] segments[j] != seq!['.', '.'],
            has_plain == exists|j: int|
                0 <= j < k && (#[trigger] segments[j]).len() > 0 && segments[j] != seq!['.'],
        decreases ranges@.len() - k,
    {
        let (a, b) = ranges[k];
        assert(segments[k as int] == t@.subrange(a as int, b as int));
        if is_dot_dot_segment(&t, a, b) {
            return false;
        }
        if b > a && !is_dot_segment(&t, a, b) {
            has_plain = true;
        }
        k = k + 1;
    }
    has_plain
}

/// Whether an anchor is well formed.
pub fn validate_tv_metadata_anchor(anchor: &TvMetadataAnchor) -> (b: bool)
    ensures
        b == spec_anchor_valid(anchor@),
{
    valid_tv_metadata_relative_path(anchor.relative_path.as_str()) && text_byte_len(
        &anchor.relative_path,
    ) <= 32768 && 1 <= anchor.season && anchor.season <= MAXIMUM_SAFE_INTEGER && 1
        <= anchor.episode && anchor.episode <= MAXIMUM_SAFE_INTEGER && 0 < text_byte_len(
        &anchor.file_identity,
    ) && text_byte_len(&anchor.file_identity) <= 256 && 0 < text_byte_len(&anchor.fingerprint)
        && text_byte_len(&anchor.fingerprint) <= 512
}

pub(crate) fn optional_text_ok(value: &Option<String>, max: usize) -> (b: bool)
    ensures
        b == optional_text_valid(optional_view(*value), max as nat),
{
    match value {
        Some(s) => !blank(s.as_str()) && text_byte_len(s) <= max,
        None => true,
    }
}

pub(crate) fn optional_poster_ok(value: &Option<String>) -> (b: bool)
    ensures
        b == optional_poster_valid(optional_view(*value)),
{
    match value {
        Some(s) => {
            let t = chars_of(s.as_str());
            t.len() > 0 && t[0] == '/' && text_byte_len(s) <= 16384 && !contains_control(
                s.as_str(),
            )
        },
        None => true,
    }
}

/// Checks that an association may be stored.
pub fn validate_tv_metadata_association(association: &TvMetadataAssociation) -> (result: Result<
    (),
    &'static str,
>)
    ensures
        result is Ok <==> spec_association_valid(association@),
        result matches Err(e) ==> e == TV_METADATA_PERSISTENCE_FAILED,
{
    let folder = chars_of(association.folder.as_str());
    let date_ok = match &association.first_air_date {
        Some(d) => valid_tv_metadata_date(d.as_str()),
        None => true,
    };
    if !(folder.len() > 0 && folder[0] == '/') || text_byte_len(&association.folder_identity) == 0
        || text_byte_len(&association.folder_identity) > 256 || blank(association.local_show_title.as_str())
        || text_byte_len(&association.local_show_title) > 16384 || association.anchors.len() == 0 || association.anchors.len()
        > TV_METADATA_MAX_ANCHORS || association.tmdb_tv_id == 0 || !canonical_imdb_id(association.imdb_id.as_str())
        || blank(association.name.as_str()) || text_byte_len(&association.name) > 16384 || !optional_text_ok(
        &association.original_name,
        16384,
    ) || !date_ok || !optional_poster_ok(&association.poster_path) || !optional_text_ok(
        &association.overview,
        262144,
    ) || association.generation == 0 {
        return Err(TV_METADATA_PERSISTENCE_FAILED);
    }
    let ghost anchors = association@.anchors;
    let mut k: usize = 0;
    while k < association.anchors.len()
        invariant
            anchors == association@.anchors,
            anchors.len() == association.anchors@.len(),
            k <= anchors.len(),
            forall|j: int| 0 <= j < k ==> spec_anchor_valid(#[trigger] anchors[j]),
            forall|i: int, j: int|
                0 <= i < j < k ==> #[trigger] anchors[i].relative_path
                    != #[trigger] anchors[j].relative_path,
        decreases anchors.len() - k,
    {
        let anchor = &association.anchors[k];
        assert(anchors[k as int] == anchor@);
        if !validate_tv_metadata_anchor(anchor) {
            assert(!spec_anchor_valid(association@.anchors[k as int]));
            return Err(TV_METADATA_PERSISTENCE_FAILED);
        }
        let mut j: usize = 0;
        while j < k
            invariant
                anchors == association@.anchors,
                anchors.len() == association.anchors@.len(),
                j <= k < anchors.len(),
                anchors[k as int] == association.anchors@[k as int]@,
                forall|i: int| 0 <= i < j ==> anchors[i].relative_path != anchors[k as int].relative_path,
            decreases k - j,
        {
            assert(anchors[j as int] == association.anchors@[j as int]@);
            if association.anchors[j].relative_path == association.anchors[k].relative_path {
                assert(association@.anchors[j as int].relative_path
                    == association@.anchors[k as int].relative_path);
                return Err(TV_METADATA_PERSISTENCE_FAILED);
            }
            j = j + 1;
        }
        k = k + 1;
    }
    Ok(())
}


/// The text of an optional string, empty when absent.
pub open spec fn optional_text(value: Option<Seq<char>>) -> Seq<char> {
    match value {
        Some(s) => s,
        None => Seq::empty(),
    }
}

/// The six stored fields of an anchor.
pub open spec fn anchor_fields(anchor: TvAnchorView) -> Seq<Seq<char>> {
    seq![
        hex_text(anchor.relative_path),
        decimal_string(anchor.season as nat),
        decimal_string(anchor.episode as nat),
        hex_text(anchor.file_identity),
        hex_text(anchor.fingerprint),
        decimal_string(anchor.size as nat),
    ]
}

/// The stored fields of a sequence of anchors, six per anchor.
pub open spec fn anchors_fields(anchors: Seq<TvAnchorView>) -> Seq<Seq<char>>
    decreases anchors.len(),
{
    if anchors.len() == 0 {
        Seq::empty()
    } else {
        anchors_fields(anchors.drop_last()) + anchor_fields(anchors.last())
    }
}

/// The twelve stored fields that precede the anchors of an association.
pub open spec fn association_head_fields(a: TvAssociationView) -> Seq<Seq<char>> {
    seq![
        hex_text(a.folder),
        hex_text(a.folder_identity),
        hex_text(a.local_show_title),
        decimal_string(a.anchors.len()),
        decimal_string(a.tmdb_tv_id as nat),
        hex_text(a.imdb_id),
        hex_text(a.name),
        hex_text(optional_text(a.original_name)),
        hex_text(optional_text(a.first_air_date)),
        hex_text(optional_text(a.poster_path)),
        hex_text(optional_text(a.overview)),
        decimal_string(a.generation as nat),
    ]
}

/// The stored line of an association: its fields joined by tabs, then a newline.
pub open spec fn association_line(a: TvAssociationView) -> Seq<char> {
    join_tab(association_head_fields(a) + anchors_fields(a.anchors)) + seq!['\n']
}

/// The stored lines of a sequence of associations.
pub open spec fn association_lines(associations: Seq<TvAssociationView>) -> Seq<char>
    decreases associations.len(),
{
    if associations.len() == 0 {
        Seq::empty()
    } else {
        association_lines(associations.drop_last()) + association_line(associations.last())
    }
}

/// The payload of a store: the number of associations on its own line, then one line each.
pub open spec fn store_payload(associations: Seq<TvAssociationView>) -> Seq<char> {
    decimal_string(associations.len()) + seq!['\n'] + association_lines(associations)
}

/// The header line that starts every store.
pub open spec fn store_header() -> Seq<u8> {
    encode_utf8("AUTO_VIDEO_TV_SHOW_METADATA_V1\n"@)
}

/// A checksummed file holding `payload`: the header, the SHA-1 of the payload in
/// hexadecimal on a line of its own, then the payload.
pub open spec fn checked_bytes(header: Seq<u8>, payload: Seq<char>) -> Seq<u8> {
    header + encode_utf8(spec_hex_sha1(encode_utf8(payload))) + seq![10u8] + encode_utf8(payload)
}

/// A store holding `payload`.
pub open spec fn store_bytes(payload: Seq<char>) -> Seq<u8> {
    checked_bytes(store_header(), payload)
}

/// The stored form of a sequence of associations, when all are valid, there are at most
/// `TV_METADATA_MAX_RECORDS` of them and the result fits `TV_METADATA_MAX_BYTES`.
pub open spec fn spec_encoded_store(associations: Seq<TvAssociationView>) -> Option<Seq<u8>> {
    if associations.len() > TV_METADATA_MAX_RECORDS || exists|k: int|
        0 <= k < associations.len() && !spec_association_valid(#[trigger] associations[k]) {
        None
    } else {
        let bytes = store_bytes(store_payload(associations));
        if bytes.len() > TV_METADATA_MAX_BYTES {
            None
        } else {
            Some(bytes)
        }
    }
}

/// The views of a slice of associations.
pub open spec fn associations_view(associations: Seq<TvMetadataAssociation>) -> Seq<TvAssociationView> {
    associations.map_values(|a: TvMetadataAssociation| a@)
}

pub fn optional_str(value: &Option<String>) -> (text: &str)
    ensures
        text@ == optional_text(optional_view(*value)),
{
    match value {
        Some(s) => {
            assert(optional_view(*value) == Some(s@));
            s.as_str()
        },
        None => {
            let empty = "";
            proof {
                reveal_strlit("");
            }
            empty
        },
    }
}

pub(crate) fn push_hex_field(line: &mut String, value: &str, first: bool, Ghost(fields): Ghost<Seq<Seq<char>>>)
    requires
        old(line)@ == join_tab(fields),
        first == (fields.len() == 0),
    ensures
        final(line)@ == join_tab(fields.push(hex_text(value@))),
{
    let encoded = encode_hex_text(value);
    append_field(line, encoded.as_str(), first, Ghost(fields));
}

pub(crate) fn push_number_field(line: &mut String, value: u64, Ghost(fields): Ghost<Seq<Seq<char>>>)
    requires
        old(line)@ == join_tab(fields),
        fields.len() > 0,
    ensures
        final(line)@ == join_tab(fields.push(decimal_string(value as nat))),
{
    let text = decimal_string_of(value);
    append_field(line, text.as_str(), false, Ghost(fields));
}

/// The stored line of one association.
#[verifier::spinoff_prover]
fn association_line_exec(a: &TvMetadataAssociation) -> (line: String)
    ensures
        line@ == association_line(a@),
{
    let mut line = String::new();
    let ghost mut fields: Seq<Seq<char>> = Seq::empty();
    push_hex_field(&mut line, a.folder.as_str(), true, Ghost(fields));
    proof { fields = fields.push(hex_text(a.folder@)); }
    push_hex_field(&mut line, a.folder_identity.as_str(), false, Ghost(fields));
    proof { fields = fields.push(hex_text(a.folder_identity@)); }
    push_hex_field(&mut line, a.local_show_title.as_str(), false, Ghost(fields));
    proof { fields = fields.push(hex_text(a.local_show_title@)); }
    push_number_field(&mut line, a.anchors.len() as u64, Ghost(fields));
    proof { fields = fields.push(decimal_string(a.anchors@.len())); }
    push_number_field(&mut line, a.tmdb_tv_id, Ghost(fields));
    proof { fields = fields.push(decimal_string(a.tmdb_tv_id as nat)); }
    push_hex_field(&mut line, a.imdb_id.as_str(), false, Ghost(fields));
    proof { fields = fields.push(hex_text(a.imdb_id@)); }
    push_hex_field(&mut line, a.name.as_str(), false, Ghost(fields));
    proof { fields = fields.push(hex_text(a.name@)); }
    push_hex_field(&mut line, optional_str(&a.original_name), false, Ghost(fields));
    proof { fields = fields.push(hex_text(optional_text(optional_view(a.original_name)))); }
    push_hex_field(&mut line, optional_str(&a.first_air_date), false, Ghost(fields));
    proof { fields = fields.push(hex_text(optional_text(optional_view(a.first_air_date)))); }
    push_hex_field(&mut line, optional_str(&a.poster_path), false, Ghost(fields));
    proof { fields = fields.push(hex_text(optional_text(optional_view(a.poster_path)))); }
    push_hex_field(&mut line, optional_str(&a.overview), false, Ghost(fields));
    proof { fields = fields.push(hex_text(optional_text(optional_view(a.overview)))); }
    push_number_field(&mut line, a.generation, Ghost(fields));
    proof { fields = fields.push(decimal_string(a.generation as nat)); }
    assert(fields =~= association_head_fields(a@));
    let ghost anchors = a@.anchors;
    let mut k: usize = 0;
    while k < a.anchors.len()
        invariant
            anchors == a@.anchors,
            anchors.len() == a.anchors@.len(),
            k <= anchors.len(),
            fields == association_head_fields(a@) + anchors_fields(anchors.take(k as int)),
            line@ == join_tab(fields),
            fields.len() > 0,
        decreases anchors.len() - k,
    {
        let anchor = &a.anchors[k];
        assert(anchors[k as int] == anchor@);
        push_hex_field(&mut line, anchor.relative_path.as_str(), false, Ghost(fields));
        proof { fields = fields.push(hex_text(anchor.relative_path@)); }
        push_number_field(&mut line, anchor.season, Ghost(fields));
        proof { fields = fields.push(decimal_string(anchor.season as nat)); }
        push_number_field(&mut line, anchor.episode, Ghost(fields));
        proof { fields = fields.push(decimal_string(anchor.episode as nat)); }
        push_hex_field(&mut line, anchor.file_identity.as_str(), false, Ghost(fields));
        proof { fields = fields.push(hex_text(anchor.file_identity@)); }
        push_hex_field(&mut line, anchor.fingerprint.as_str(), false, Ghost(fields));
        proof { fields = fields.push(hex_text(anchor.fingerprint@)); }
        push_number_field(&mut line, anchor.size, Ghost(fields));
        proof {
            fields = fields.push(decimal_string(anchor.size as nat));
            assert(anchors.take(k + 1).drop_last() =~= anchors.take(k as int));
            assert(fields =~= association_head_fields(a@) + anchors_fields(anchors.take(k + 1)));
        }
        k = k + 1;
    }
    assert(anchors.take(anchors.len() as int) =~= anchors);
    push_char(&mut line, '\n');
    line
}

/// Encodes associations into the checksummed store format.
pub fn encoded_tv_metadata_associations(associations: &[TvMetadataAssociation]) -> (result: Result<
    Vec<u8>,
    &'static str,
>)
    ensures
        match result {
            Ok(bytes) => spec_encoded_store(associations_view(associations@)) == Some(bytes@),
            Err(e) => spec_encoded_store(associations_view(associations@)) is None
                && e == TV_METADATA_PERSISTENCE_FAILED,
        },
{
    let ghost views = associations_view(associations@);
    if associations.len() > TV_METADATA_MAX_RECORDS {
        return Err(TV_METADATA_PERSISTENCE_FAILED);
    }
    let mut payload = decimal_string_of(associations.len() as u64);
    push_char(&mut payload, '\n');
    let ghost head = payload@;
    let mut k: usize = 0;
    while k < associations.len()
        invariant
            views == associations_view(associations@),
            views.len() == associations@.len(),
            k <= views.len(),
            head == decimal_string(views.len()) + seq!['\n'],
            payload@ == head + association_lines(views.take(k as int)),
            forall|j: int| 0 <= j < k ==> spec_association_valid(#[trigger] views[j]),
        decreases views.len() - k,
    {
        assert(views[k as int] == associations@[k as int]@);
        if validate_tv_metadata_association(&associations[k]).is_err() {
            return Err(TV_METADATA_PERSISTENCE_FAILED);
        }
        let line = association_line_exec(&associations[k]);
        push_str(&mut payload, line.as_str());
        assert(views.take(k + 1).drop_last() =~= views.take(k as int));
        assert(payload@ =~= head + association_lines(views.take(k + 1)));
        k = k + 1;
    }
    assert(views.take(views.len() as int) =~= views);
    assert(payload@ =~= store_payload(views));
    let payload_bytes = payload.as_str().as_bytes();
    let checksum = hex_sha1(payload_bytes);
    let mut bytes: Vec<u8> = Vec::new();
    let header = "AUTO_VIDEO_TV_SHOW_METADATA_V1\n".as_bytes();
    append_bytes(&mut bytes, header);
    append_bytes(&mut bytes, checksum.as_str().as_bytes());
    bytes.push(10u8);
    append_bytes(&mut bytes, payload_bytes);
    assert(bytes@ =~= store_bytes(store_payload(views)));
    if bytes.len() as u64 > TV_METADATA_MAX_BYTES {
        return Err(TV_METADATA_PERSISTENCE_FAILED);
    }
    Ok(bytes)
}

/// Appends a byte slice to a byte vector.
pub fn append_bytes(bytes: &mut Vec<u8>, more: &[u8])
    ensures
        final(bytes)@ == old(bytes)@ + more@,
{
    let mut i: usize = 0;
    while i < more.len()
        invariant
            i <= more@.len(),
            bytes@ == old(bytes)@ + more@.subrange(0, i as int),
        decreases more@.len() - i,
    {
        bytes.push(more[i]);
        i = i + 1;
        assert(bytes@ =~= old(bytes)@ + more@.subrange(0, i as int));
    }
    assert(more@.subrange(0, more@.len() as int) =~= more@);
}


/// Why a store could not be read: its contents are malformed, or it could not be read at all.
#[derive(Clone, Copy, Debug, PartialEq, Eq)]
pub enum TvMetadataReadError {
    Invalid,
    Unavailable,
}

/// The text that a hexadecimal field decodes to (meaningful when it decodes).
pub open spec fn decoded_text(t: Seq<char>) -> Seq<char> {
    spec_decode_hex_text(t).unwrap()
}

/// An optional text field: decoded, and absent when empty.
pub open spec fn decoded_optional(t: Seq<char>) -> Option<Seq<char>> {
    let s = decoded_text(t);
    if s.len() == 0 {
        None
    } else {
        Some(s)
    }
}

pub open spec fn text_field_ok(t: Seq<char>) -> bool {
    spec_decode_hex_text(t) is Some
}

pub open spec fn number_field_ok(t: Seq<char>) -> bool {
    spec_parse_unsigned(t, u64::MAX as nat) is Some
}

pub open spec fn number_field(t: Seq<char>) -> u64 {
    spec_parse_unsigned(t, u64::MAX as nat).unwrap() as u64
}

/// Whether the six fields of anchor `k` decode.
pub open spec fn anchor_decodes(fields: Seq<Seq<char>>, k: int) -> bool {
    let b = 12 + 6 * k;
    &&& text_field_ok(fields[b])
    &&& number_field_ok(fields[b + 1])
    &&& number_field_ok(fields[b + 2])
    &&& text_field_ok(fields[b + 3])
    &&& text_field_ok(fields[b + 4])
    &&& number_field_ok(fields[b + 5])
}

/// Anchor `k` as its six fields write it.
pub open spec fn decoded_anchor(fields: Seq<Seq<char>>, k: int) -> TvAnchorView {
    let b = 12 + 6 * k;
    TvAnchorView {
        relative_path: decoded_text(fields[b]),
        season: number_field(fields[b + 1]),
        episode: number_field(fields[b + 2]),
        file_identity: decoded_text(fields[b + 3]),
        fingerprint: decoded_text(fields[b + 4]),
        size: number_field(fields[b + 5]),
    }
}

/// The number of anchors that a record announces.
pub open spec fn announced_anchors(fields: Seq<Seq<char>>) -> nat {
    spec_parse_unsigned(fields[3], usize::MAX as nat).unwrap()
}

/// Whether a stored line decodes into an association record: at least twelve tab-separated
/// fields, an anchor count between 1 and `TV_METADATA_MAX_ANCHORS`, six more fields per
/// anchor and nothing else, and every field readable.
pub open spec fn record_decodes(line: Seq<char>) -> bool {
    let f = split_text(line, '\t');
    &&& f.len() >= 12
    &&& spec_parse_unsigned(f[3], usize::MAX as nat) is Some
    &&& 0 < announced_anchors(f) <= TV_METADATA_MAX_ANCHORS
    &&& f.len() == 12 + 6 * announced_anchors(f)
    &&& text_field_ok(f[0]) && text_field_ok(f[1]) && text_field_ok(f[2])
    &&& number_field_ok(f[4])
    &&& text_field_ok(f[5]) && text_field_ok(f[6]) && text_field_ok(f[7])
    &&& text_field_ok(f[8]) && text_field_ok(f[9]) && text_field_ok(f[10])
    &&& number_field_ok(f[11])
    &&& forall|k: int| 0 <= k < announced_anchors(f) ==> #[trigger] anchor_decodes(f, k)
}

/// The association record that a stored line writes (meaningful when it decodes).
pub open spec fn record_view(line: Seq<char>) -> TvAssociationView {
    let f = split_text(line, '\t');
    TvAssociationView {
        folder: decoded_text(f[0]),
        folder_identity: decoded_text(f[1]),
        local_show_title: decoded_text(f[2]),
        anchors: Seq::new(announced_anchors(f), |k: int| decoded_anchor(f, k)),
        tmdb_tv_id: number_field(f[4]),
        imdb_id: decoded_text(f[5]),
        name: decoded_text(f[6]),
        original_name: decoded_optional(f[7]),
        first_air_date: decoded_optional(f[8]),
        poster_path: decoded_optional(f[9]),
        overview: decoded_optional(f[10]),
        generation: number_field(f[11]),
    }
}

/// Two associations of the same local show group.
pub open spec fn same_group(x: TvAssociationView, y: TvAssociationView) -> bool {
    x.folder == y.folder && x.folder_identity == y.folder_identity && x.local_show_title
        == y.local_show_title
}

/// Two associations of one folder that claim the same anchor path.
pub open spec fn shared_anchor(x: TvAssociationView, y: TvAssociationView) -> bool {
    &&& x.folder == y.folder
    &&& x.folder_identity == y.folder_identity
    &&& exists|k: int, l: int|
        0 <= k < x.anchors.len() && 0 <= l < y.anchors.len() && #[trigger] x.anchors[k].relative_path
            == #[trigger] y.anchors[l].relative_path
}

/// No two associations share a group, a generation or an anchor path.
pub open spec fn records_distinct(records: Seq<TvAssociationView>) -> bool {
    forall|i: int, j: int|
        0 <= i < j < records.len() ==> !same_group(#[trigger] records[i], #[trigger] records[j])
            && records[i].generation != records[j].generation && !shared_anchor(records[i], records[j])
}

/// The position of the first newline byte at or after `i`, or the length.
pub open spec fn first_newline(bytes: Seq<u8>, i: int) -> int
    decreases bytes.len() - i,
{
    if 0 <= i < bytes.len() && bytes[i] != 10 {
        first_newline(bytes, i + 1)
    } else {
        i
    }
}

/// The payload text of a checksummed file, when its size (at most `max`), header, checksum
/// line (the SHA-1 of the payload bytes in lower-case hexadecimal) and encoding are right and
/// it ends with a newline.
pub open spec fn checked_payload_text(bytes: Seq<u8>, header: Seq<u8>, max: nat) -> Option<Seq<char>> {
    if bytes.len() > max || bytes.len() < header.len() || bytes.subrange(0, header.len() as int)
        != header {
        None
    } else {
        let content = bytes.subrange(header.len() as int, bytes.len() as int);
        let end = first_newline(content, 0);
        if end >= content.len() {
            None
        } else {
            let checksum = content.subrange(0, end);
            let payload = content.subrange(end + 1, content.len() as int);
            if checksum != encode_utf8(spec_hex_sha1(payload)) {
                None
            } else if !valid_utf8(payload) {
                None
            } else {
                let text = decode_utf8(payload);
                if text.len() == 0 || text.last() != '\n' {
                    None
                } else {
                    Some(text.drop_last())
                }
            }
        }
    }
}

/// The payload text of a TV store.
pub open spec fn store_payload_text(bytes: Seq<u8>) -> Option<Seq<char>> {
    checked_payload_text(bytes, store_header(), TV_METADATA_MAX_BYTES as nat)
}

/// The associations a store holds, when it is well formed: the payload's first line counts
/// the records (at most `TV_METADATA_MAX_RECORDS`), exactly that many record lines follow,
/// every record decodes and is valid, and no two share a group, a generation or an anchor.
pub open spec fn spec_parse_store(bytes: Seq<u8>) -> Option<Seq<TvAssociationView>> {
    match store_payload_text(bytes) {
        None => None,
        Some(body) => {
            let lines = split_text(body, '\n');
            match spec_parse_unsigned(lines[0], usize::MAX as nat) {
                None => None,
                Some(count) => if count > TV_METADATA_MAX_RECORDS || lines.len() != count + 1 || !(
                forall|i: int| 0 <= i < count ==> #[trigger] record_decodes(lines[i + 1])) {
                    None
                } else {
                    let records = Seq::new(count, |i: int| record_view(lines[i + 1]));
                    if (forall|i: int| 0 <= i < count ==> spec_association_valid(#[trigger] records[i]))
                        && records_distinct(records) {
                        Some(records)
                    } else {
                        None
                    }
                },
            }
        },
    }
}


/// Whether two byte slices are equal.
fn bytes_equal(a: &[u8], b: &[u8]) -> (result: bool)
    ensures
        result == (a@ == b@),
{
    if a.len() != b.len() {
        return false;
    }
    let mut i: usize = 0;
    while i < a.len()
        invariant
            i <= a@.len(),
            a@.len() == b@.len(),
            forall|k: int| 0 <= k < i ==> a@[k] == b@[k],
        decreases a@.len() - i,
    {
        if a[i] != b[i] {
            return false;
        }
        i = i + 1;
    }
    assert(a@ =~= b@);
    true
}

/// The payload text of a checksummed file, as characters without its final newline.
pub(crate) fn checked_payload_chars(bytes: &[u8], header: &[u8], max: u64) -> (text: Option<Vec<char>>)
    ensures
        match text {
            Some(t) => checked_payload_text(bytes@, header@, max as nat) == Some(t@),
            None => checked_payload_text(bytes@, header@, max as nat) is None,
        },
{
    if bytes.len() as u64 > max || bytes.len() < header.len() {
        return None;
    }
    let mut i: usize = 0;
    while i < header.len()
        invariant
            i <= header@.len() <= bytes@.len(),
            forall|k: int| 0 <= k < i ==> bytes@[k] == header@[k],
        decreases header@.len() - i,
    {
        if bytes[i] != header[i] {
            assert(bytes@.subrange(0, header@.len() as int)[i as int] != header@[i as int]);
            return None;
        }
        i = i + 1;
    }
    assert(bytes@.subrange(0, header@.len() as int) =~= header@);
    let content = vstd::slice::slice_subrange(bytes, header.len(), bytes.len());
    let mut end: usize = 0;
    while end < content.len() && content[end] != 10u8
        invariant
            end <= content@.len(),
            first_newline(content@, 0) == first_newline(content@, end as int),
        decreases content@.len() - end,
    {
        end = end + 1;
    }
    if end >= content.len() {
        return None;
    }
    let checksum = vstd::slice::slice_subrange(content, 0, end);
    let payload = vstd::slice::slice_subrange(content, end + 1, content.len());
    let expected = hex_sha1(payload);
    proof {
        lemma_hex_bytes(sha1_digest(payload@));
    }
    if checksum.len() != 40 || !bytes_equal(checksum, expected.as_str().as_bytes()) {
        return None;
    }
    match string_from_utf8(vstd::slice::slice_to_vec(payload)) {
        None => None,
        Some(s) => {
            let t = chars_of(s.as_str());
            if t.len() == 0 || t[t.len() - 1] != '\n' {
                None
            } else {
                let body = copy_range(&t, 0, t.len() - 1);
                assert(body@ =~= t@.drop_last());
                Some(body)
            }
        },
    }
}

/// The payload text of a TV store, as characters without its final newline.
fn store_payload_chars(bytes: &[u8]) -> (text: Option<Vec<char>>)
    ensures
        match text {
            Some(t) => store_payload_text(bytes@) == Some(t@),
            None => store_payload_text(bytes@) is None,
        },
{
    let header = "AUTO_VIDEO_TV_SHOW_METADATA_V1\n".as_bytes();
    assert(header@ == store_header());
    checked_payload_chars(bytes, header, TV_METADATA_MAX_BYTES)
}

/// Decodes the hexadecimal field `line[r.0..r.1]`.
pub(crate) fn decode_text_field(line: &[char], r: (usize, usize)) -> (decoded: Option<String>)
    requires
        r.0 <= r.1 <= line@.len(),
    ensures
        match decoded {
            Some(s) => spec_decode_hex_text(line@.subrange(r.0 as int, r.1 as int)) == Some(s@),
            None => spec_decode_hex_text(line@.subrange(r.0 as int, r.1 as int)) is None,
        },
{
    decode_hex_chars(vstd::slice::slice_subrange(line, r.0, r.1))
}

/// Reads the decimal field `line[r.0..r.1]`, no larger than `max`.
pub(crate) fn decode_number_field(line: &[char], r: (usize, usize), max: u64) -> (value: Option<u64>)
    requires
        r.0 <= r.1 <= line@.len(),
    ensures
        match value {
            Some(v) => spec_parse_unsigned(line@.subrange(r.0 as int, r.1 as int), max as nat)
                == Some(v as nat),
            None => spec_parse_unsigned(line@.subrange(r.0 as int, r.1 as int), max as nat) is None,
        },
{
    parse_unsigned(vstd::slice::slice_subrange(line, r.0, r.1), max)
}

/// An optional text: absent when empty.
pub(crate) fn optional_field(s: String) -> (value: Option<String>)
    ensures
        optional_view(value) == (if s@.len() == 0 {
            None::<Seq<char>>
        } else {
            Some(s@)
        }),
{
    if s.as_str().is_empty() {
        None
    } else {
        Some(s)
    }
}

/// The ranges of the tab-separated fields of `line`, as `split_ranges_exec` gives them.
pub open spec fn field_ranges(line: Seq<char>, ranges: Seq<(usize, usize)>, f: Seq<Seq<char>>) -> bool {
    &&& f == split_text(line, '\t')
    &&& ranges.len() == f.len()
    &&& forall|k: int|
        0 <= k < ranges.len() ==> (#[trigger] ranges[k]).0 <= ranges[k].1 <= line.len()
            && line.subrange(ranges[k].0 as int, ranges[k].1 as int) == f[k]
}

/// Decodes anchor `k` of a record line.
fn decode_anchor(
    line: &[char],
    ranges: &Vec<(usize, usize)>,
    k: usize,
    Ghost(f): Ghost<Seq<Seq<char>>>,
) -> (anchor: Option<TvMetadataAnchor>)
    requires
        field_ranges(line@, ranges@, f),
        k < TV_METADATA_MAX_ANCHORS,
        12 + 6 * k + 6 <= ranges@.len(),
    ensures
        match anchor {
            Some(a) => anchor_decodes(f, k as int) && a@ == decoded_anchor(f, k as int),
            None => !anchor_decodes(f, k as int),
        },
{
    let b = 12 + 6 * k;
    assert(ranges@[b as int].0 <= ranges@[b as int].1 <= line@.len());
    assert(ranges@[b + 1].0 <= ranges@[b + 1].1 <= line@.len());
    assert(ranges@[b + 2].0 <= ranges@[b + 2].1 <= line@.len());
    assert(ranges@[b + 3].0 <= ranges@[b + 3].1 <= line@.len());
    assert(ranges@[b + 4].0 <= ranges@[b + 4].1 <= line@.len());
    assert(ranges@[b + 5].0 <= ranges@[b + 5].1 <= line@.len());
    let relative_path = match decode_text_field(line, ranges[b]) {
        Some(s) => s,
        None => return None,
    };
    let season = match decode_number_field(line, ranges[b + 1], u64::MAX) {
        Some(v) => v,
        None => return None,
    };
    let episode = match decode_number_field(line, ranges[b + 2], u64::MAX) {
        Some(v) => v,
        None => return None,
    };
    let file_identity = match decode_text_field(line, ranges[b + 3]) {
        Some(s) => s,
        None => return None,
    };
    let fingerprint = match decode_text_field(line, ranges[b + 4]) {
        Some(s) => s,
        None => return None,
    };
    let size = match decode_number_field(line, ranges[b + 5], u64::MAX) {
        Some(v) => v,
        None => return None,
    };
    Some(TvMetadataAnchor { relative_path, season, episode, file_identity, fingerprint, size })
}


/// Decodes one stored record line into an association.
fn decode_record(line: &[char]) -> (record: Option<TvMetadataAssociation>)
    ensures
        match record {
            Some(a) => record_decodes(line@) && a@ == record_view(line@),
            None => !record_decodes(line@),
        },
{
    let ranges = split_ranges_exec(line, '\t');
    let ghost f = split_text(line@, '\t');
    assert(field_ranges(line@, ranges@, f));
    if ranges.len() < 12 {
        return None;
    }
    assert forall|j: int| 0 <= j < 12 implies ranges@[j].0 <= ranges@[j].1 <= line@.len()
        && line@.subrange(ranges@[j].0 as int, ranges@[j].1 as int) == f[j] by {
        assert(field_ranges(line@, ranges@, f));
    }
    let n = match decode_number_field(line, ranges[3], usize::MAX as u64) {
        Some(v) => v,
        None => return None,
    };
    if n == 0 || n > TV_METADATA_MAX_ANCHORS as u64 || ranges.len() as u64 != 12 + 6 * n {
        return None;
    }
    let n = n as usize;
    assert(n == announced_anchors(f));
    let folder = match decode_text_field(line, ranges[0]) {
        Some(s) => s,
        None => return None,
    };
    let folder_identity = match decode_text_field(line, ranges[1]) {
        Some(s) => s,
        None => return None,
    };
    let local_show_title = match decode_text_field(line, ranges[2]) {
        Some(s) => s,
        None => return None,
    };
    let tmdb_tv_id = match decode_number_field(line, ranges[4], u64::MAX) {
        Some(v) => v,
        None => return None,
    };
    let imdb_id = match decode_text_field(line, ranges[5]) {
        Some(s) => s,
        None => return None,
    };
    let name = match decode_text_field(line, ranges[6]) {
        Some(s) => s,
        None => return None,
    };
    let original_name = match decode_text_field(line, ranges[7]) {
        Some(s) => optional_field(s),
        None => return None,
    };
    let first_air_date = match decode_text_field(line, ranges[8]) {
        Some(s) => optional_field(s),
        None => return None,
    };
    let poster_path = match decode_text_field(line, ranges[9]) {
        Some(s) => optional_field(s),
        None => return None,
    };
    let overview = match decode_text_field(line, ranges[10]) {
        Some(s) => optional_field(s),
        None => return None,
    };
    let generation = match decode_number_field(line, ranges[11], u64::MAX) {
        Some(v) => v,
        None => return None,
    };
    let mut anchors: Vec<TvMetadataAnchor> = Vec::new();
    let mut k: usize = 0;
    while k < n
        invariant
            field_ranges(line@, ranges@, f),
            n == announced_anchors(f),
            0 < n <= TV_METADATA_MAX_ANCHORS,
            ranges@.len() == 12 + 6 * n,
            k <= n,
            anchors@.len() == k,
            forall|j: int| 0 <= j < k ==> #[trigger] anchor_decodes(f, j),
            forall|j: int| 0 <= j < k ==> (#[trigger] anchors@[j])@ == decoded_anchor(f, j),
        decreases n - k,
    {
        match decode_anchor(line, &ranges, k, Ghost(f)) {
            Some(a) => anchors.push(a),
            None => return None,
        }
        k = k + 1;
    }
    let record = TvMetadataAssociation {
        folder,
        folder_identity,
        local_show_title,
        anchors,
        tmdb_tv_id,
        imdb_id,
        name,
        original_name,
        first_air_date,
        poster_path,
        overview,
        generation,
    };
    assert(record@.anchors =~= Seq::new(announced_anchors(f), |j: int| decoded_anchor(f, j)));
    Some(record)
}


/// Whether two associations of one folder claim the same anchor path.
fn shares_anchor(x: &TvMetadataAssociation, y: &TvMetadataAssociation) -> (b: bool)
    ensures
        b == shared_anchor(x@, y@),
{
    if x.folder != y.folder || x.folder_identity != y.folder_identity {
        return false;
    }
    let mut k: usize = 0;
    while k < x.anchors.len()
        invariant
            x@.folder == y@.folder && x@.folder_identity == y@.folder_identity,
            k <= x.anchors@.len(),
            forall|i: int, l: int|
                0 <= i < k && 0 <= l < y@.anchors.len() ==> #[trigger] x@.anchors[i].relative_path
                    != #[trigger] y@.anchors[l].relative_path,
        decreases x.anchors@.len() - k,
    {
        let mut l: usize = 0;
        while l < y.anchors.len()
            invariant
                x@.folder == y@.folder && x@.folder_identity == y@.folder_identity,
                k < x.anchors@.len(),
                l <= y.anchors@.len(),
                forall|j: int|
                    0 <= j < l ==> x@.anchors[k as int].relative_path
                        != #[trigger] y@.anchors[j].relative_path,
            decreases y.anchors@.len() - l,
        {
            assert(x@.anchors[k as int] == x.anchors@[k as int]@);
            assert(y@.anchors[l as int] == y.anchors@[l as int]@);
            if x.anchors[k].relative_path == y.anchors[l].relative_path {
                assert(x@.anchors[k as int].relative_path == y@.anchors[l as int].relative_path);
                return true;
            }
            l = l + 1;
        }
        k = k + 1;
    }
    false
}

/// Whether `record` shares no group, generation or anchor with any of `records`.
fn distinct_from_all(records: &Vec<TvMetadataAssociation>, record: &TvMetadataAssociation) -> (b: bool)
    ensures
        b == forall|j: int|
            0 <= j < records@.len() ==> !same_group(#[trigger] records@[j]@, record@)
                && records@[j]@.generation != record@.generation && !shared_anchor(
                records@[j]@,
                record@,
            ),
{
    let mut j: usize = 0;
    while j < records.len()
        invariant
            j <= records@.len(),
            forall|i: int|
                0 <= i < j ==> !same_group(#[trigger] records@[i]@, record@)
                    && records@[i]@.generation != record@.generation && !shared_anchor(
                    records@[i]@,
                    record@,
                ),
        decreases records@.len() - j,
    {
        let other = &records[j];
        if (other.folder == record.folder && other.folder_identity == record.folder_identity
            && other.local_show_title == record.local_show_title) || other.generation
            == record.generation || shares_anchor(other, record) {
            assert(records@[j as int]@ == other@);
            assert(!(!same_group(records@[j as int]@, record@) && records@[j as int]@.generation
                != record@.generation && !shared_anchor(records@[j as int]@, record@)));
            return false;
        }
        j = j + 1;
    }
    true
}

/// Reads a store written by `encoded_tv_metadata_associations`; anything malformed is
/// `Invalid`.
pub fn parse_tv_metadata_associations(bytes: &[u8]) -> (result: Result<
    Vec<TvMetadataAssociation>,
    TvMetadataReadError,
>)
    ensures
        match result {
            Ok(v) => spec_parse_store(bytes@) == Some(associations_view(v@)),
            Err(e) => spec_parse_store(bytes@) is None && e == TvMetadataReadError::Invalid,
        },
{
    let body = match store_payload_chars(bytes) {
        Some(t) => t,
        None => return Err(TvMetadataReadError::Invalid),
    };
    let lines = split_ranges_exec(&body, '\n');
    let ghost ls = split_text(body@, '\n');
    assert(ls.len() == lines@.len());
    assert(ls[0] == body@.subrange(lines@[0].0 as int, lines@[0].1 as int));
    let first = vstd::slice::slice_subrange(&body, lines[0].0, lines[0].1);
    let count = match parse_unsigned(first, usize::MAX as u64) {
        Some(c) => c,
        None => return Err(TvMetadataReadError::Invalid),
    };
    if count > TV_METADATA_MAX_RECORDS as u64 || lines.len() as u64 != count + 1 {
        return Err(TvMetadataReadError::Invalid);
    }
    let count = count as usize;
    let ghost records = Seq::new(count as nat, |i: int| record_view(ls[i + 1]));
    let mut result: Vec<TvMetadataAssociation> = Vec::new();
    let mut k: usize = 0;
    while k < count
        invariant
            store_payload_text(bytes@) == Some(body@),
            ls == split_text(body@, '\n'),
            spec_parse_unsigned(ls[0], usize::MAX as nat) == Some(count as nat),
            count <= TV_METADATA_MAX_RECORDS,
            lines@.len() == count + 1,
            ls.len() == lines@.len(),
            forall|j: int|
                0 <= j < lines@.len() ==> (#[trigger] lines@[j]).0 <= lines@[j].1 <= body@.len()
                    && body@.subrange(lines@[j].0 as int, lines@[j].1 as int) == ls[j],
            records == Seq::new(count as nat, |i: int| record_view(ls[i + 1])),
            k <= count,
            forall|i: int| 0 <= i < k ==> #[trigger] record_decodes(ls[i + 1]),
            associations_view(result@) == records.take(k as int),
            forall|i: int| 0 <= i < k ==> spec_association_valid(#[trigger] records[i]),
            records_distinct(records.take(k as int)),
        decreases count - k,
    {
        assert(lines@[k + 1].0 <= lines@[k + 1].1 <= body@.len());
        let line = vstd::slice::slice_subrange(&body, lines[k + 1].0, lines[k + 1].1);
        let record = match decode_record(line) {
            Some(r) => r,
            None => {
                assert(!record_decodes(ls[k + 1]));
                return Err(TvMetadataReadError::Invalid);
            },
        };
        assert(record@ == records[k as int]);
        if validate_tv_metadata_association(&record).is_err() {
            assert(!spec_association_valid(records[k as int]));
            return Err(TvMetadataReadError::Invalid);
        }
        let ghost before = result@;
        if !distinct_from_all(&result, &record) {
            proof {
                let j = choose|j: int|
                    0 <= j < before.len() && !(!same_group(#[trigger] before[j]@, record@)
                        && before[j]@.generation != record@.generation && !shared_anchor(
                        before[j]@,
                        record@,
                    ));
                assert(associations_view(before).len() == k);
                assert(associations_view(before)[j] == before[j]@);
                assert(records.take(k as int)[j] == records[j]);
                assert(!records_distinct(records)) by {
                    assert(!(!same_group(records[j], records[k as int])
                        && records[j].generation != records[k as int].generation && !shared_anchor(
                        records[j],
                        records[k as int],
                    )));
                }
            }
            return Err(TvMetadataReadError::Invalid);
        }
        result.push(record);
        proof {
            assert(associations_view(result@) =~= records.take(k + 1));
            assert forall|i: int, j: int| 0 <= i < j < k + 1 implies !same_group(
                #[trigger] records.take(k + 1)[i],
                #[trigger] records.take(k + 1)[j],
            ) && records.take(k + 1)[i].generation != records.take(k + 1)[j].generation
                && !shared_anchor(records.take(k + 1)[i], records.take(k + 1)[j]) by {
                if j < k {
                    assert(records.take(k as int)[i] == records.take(k + 1)[i]);
                    assert(records.take(k as int)[j] == records.take(k + 1)[j]);
                } else {
                    assert(associations_view(before)[i] == records[i]);
                    assert(before[i]@ == records[i]);
                }
            }
        }
        k = k + 1;
    }
    assert(records.take(count as int) =~= records);
    Ok(result)
}


/// The stored line of an association, without its newline.
pub open spec fn record_line(a: TvAssociationView) -> Seq<char> {
    join_tab(association_head_fields(a) + anchors_fields(a.anchors))
}

proof fn lemma_anchors_fields(anchors: Seq<TvAnchorView>)
    ensures
        anchors_fields(anchors).len() == 6 * anchors.len(),
        forall|k: int, j: int|
            0 <= k < anchors.len() && 0 <= j < 6 ==> #[trigger] anchors_fields(anchors)[6 * k + j]
                == #[trigger] anchor_fields(anchors[k])[j],
    decreases anchors.len(),
{
    if anchors.len() > 0 {
        let rest = anchors.drop_last();
        lemma_anchors_fields(rest);
        assert forall|k: int, j: int| 0 <= k < anchors.len() && 0 <= j < 6 implies #[trigger] anchors_fields(
            anchors,
        )[6 * k + j] == #[trigger] anchor_fields(anchors[k])[j] by {
            if k < anchors.len() - 1 {
                assert(anchors[k] == rest[k]);
                assert(anchor_fields(rest[k])[j] == anchors_fields(rest)[6 * k + j]);
            }
        }
    }
}

/// Hexadecimal text decodes back, and holds neither tab nor newline.
pub(crate) proof fn lemma_hex_field(s: Seq<char>)
    ensures
        spec_decode_hex_text(hex_text(s)) == Some(s),
        forall|i: int|
            0 <= i < hex_text(s).len() ==> #[trigger] hex_text(s)[i] != '\t' && hex_text(s)[i]
                != '\n',
{
    lemma_hex_text_round_trip(s);
    lemma_hex_encode_decode(encode_utf8(s));
    assert forall|i: int| 0 <= i < hex_text(s).len() implies #[trigger] hex_text(s)[i] != '\t'
        && hex_text(s)[i] != '\n' by {
        assert(is_hex_digit(hex_encode(encode_utf8(s))[i]));
    }
}

/// Decimal text reads back, and holds neither tab nor newline.
pub(crate) proof fn lemma_number_field(n: nat, max: nat)
    requires
        n <= max,
    ensures
        spec_parse_unsigned(decimal_string(n), max) == Some(n),
        forall|i: int|
            0 <= i < decimal_string(n).len() ==> #[trigger] decimal_string(n)[i] != '\t'
                && decimal_string(n)[i] != '\n',
{
    lemma_parse_decimal_string(n, max);
    lemma_decimal_string(n);
    assert forall|i: int| 0 <= i < decimal_string(n).len() implies #[trigger] decimal_string(n)[i]
        != '\t' && decimal_string(n)[i] != '\n' by {
        assert(is_digit(decimal_string(n)[i]));
    }
}

pub(crate) proof fn lemma_optional_field(x: Option<Seq<char>>)
    requires
        x matches Some(s) ==> s.len() > 0,
    ensures
        text_field_ok(hex_text(optional_text(x))),
        decoded_optional(hex_text(optional_text(x))) == x,
{
    lemma_hex_field(optional_text(x));
}

proof fn lemma_anchor_round_trip(anchor: TvAnchorView)
    ensures
        forall|j: int|
            0 <= j < 6 ==> forall|i: int|
                0 <= i < (#[trigger] anchor_fields(anchor)[j]).len() ==> anchor_fields(anchor)[j][i]
                    != '\t' && anchor_fields(anchor)[j][i] != '\n',
        text_field_ok(anchor_fields(anchor)[0]),
        number_field_ok(anchor_fields(anchor)[1]),
        number_field_ok(anchor_fields(anchor)[2]),
        text_field_ok(anchor_fields(anchor)[3]),
        text_field_ok(anchor_fields(anchor)[4]),
        number_field_ok(anchor_fields(anchor)[5]),
        decoded_text(anchor_fields(anchor)[0]) == anchor.relative_path,
        number_field(anchor_fields(anchor)[1]) == anchor.season,
        number_field(anchor_fields(anchor)[2]) == anchor.episode,
        decoded_text(anchor_fields(anchor)[3]) == anchor.file_identity,
        decoded_text(anchor_fields(anchor)[4]) == anchor.fingerprint,
        number_field(anchor_fields(anchor)[5]) == anchor.size,
{
    lemma_hex_field(anchor.relative_path);
    lemma_number_field(anchor.season as nat, u64::MAX as nat);
    lemma_number_field(anchor.episode as nat, u64::MAX as nat);
    lemma_hex_field(anchor.file_identity);
    lemma_hex_field(anchor.fingerprint);
    lemma_number_field(anchor.size as nat, u64::MAX as nat);
}


/// Fields that hold neither a tab nor a newline.
pub open spec fn clean_fields(fields: Seq<Seq<char>>) -> bool {
    forall|m: int, i: int|
        0 <= m < fields.len() && 0 <= i < fields[m].len() ==> #[trigger] fields[m][i] != '\t'
            && fields[m][i] != '\n'
}

proof fn lemma_anchors_fields_clean(anchors: Seq<TvAnchorView>)
    ensures
        clean_fields(anchors_fields(anchors)),
    decreases anchors.len(),
{
    if anchors.len() > 0 {
        let rest = anchors.drop_last();
        lemma_anchors_fields_clean(rest);
        lemma_anchors_fields(rest);
        lemma_anchor_round_trip(anchors.last());
        let f = anchors_fields(anchors);
        let r = anchors_fields(rest);
        let l = anchor_fields(anchors.last());
        assert forall|m: int, i: int| 0 <= m < f.len() && 0 <= i < f[m].len() implies #[trigger] f[m][i]
            != '\t' && f[m][i] != '\n' by {
            if m < r.len() {
                assert(f[m] == r[m]);
            } else {
                assert(f[m] == l[m - r.len()]);
            }
        }
    }
}

/// The fields of the stored line of a valid association.
proof fn lemma_record_fields(a: TvAssociationView)
    requires
        spec_association_valid(a),
    ensures
        split_text(record_line(a), '\t') == association_head_fields(a) + anchors_fields(a.anchors),
        forall|i: int| 0 <= i < record_line(a).len() ==> #[trigger] record_line(a)[i] != '\n',
{
    let head = association_head_fields(a);
    let tail = anchors_fields(a.anchors);
    let fields = head + tail;
    lemma_hex_field(a.folder);
    lemma_hex_field(a.folder_identity);
    lemma_hex_field(a.local_show_title);
    lemma_number_field(a.anchors.len(), usize::MAX as nat);
    lemma_number_field(a.tmdb_tv_id as nat, u64::MAX as nat);
    lemma_hex_field(a.imdb_id);
    lemma_hex_field(a.name);
    lemma_hex_field(optional_text(a.original_name));
    lemma_hex_field(optional_text(a.first_air_date));
    lemma_hex_field(optional_text(a.poster_path));
    lemma_hex_field(optional_text(a.overview));
    lemma_number_field(a.generation as nat, u64::MAX as nat);
    assert(clean_fields(head));
    lemma_anchors_fields_clean(a.anchors);
    assert forall|m: int, i: int| 0 <= m < fields.len() && 0 <= i < fields[m].len() implies #[trigger] fields[m][i]
        != '\t' && fields[m][i] != '\n' by {
        if m >= 12 {
            assert(fields[m] == tail[m - 12]);
        }
    }
    lemma_split_join_tab(fields);
    lemma_join_tab_chars(fields);
}

/// The stored line of a valid association decodes back to it.
proof fn lemma_record_round_trip(a: TvAssociationView)
    requires
        spec_association_valid(a),
    ensures
        record_decodes(record_line(a)),
        record_view(record_line(a)) == a,
{
    let fields = association_head_fields(a) + anchors_fields(a.anchors);
    let n = a.anchors.len();
    lemma_record_fields(a);
    lemma_anchors_fields(a.anchors);
    lemma_hex_field(a.folder);
    lemma_hex_field(a.folder_identity);
    lemma_hex_field(a.local_show_title);
    lemma_number_field(n, usize::MAX as nat);
    lemma_number_field(a.tmdb_tv_id as nat, u64::MAX as nat);
    lemma_hex_field(a.imdb_id);
    lemma_hex_field(a.name);
    lemma_optional_field(a.original_name);
    lemma_optional_field(a.first_air_date);
    lemma_optional_field(a.poster_path);
    lemma_optional_field(a.overview);
    lemma_number_field(a.generation as nat, u64::MAX as nat);
    assert forall|k: int| 0 <= k < n implies anchor_decodes(fields, k) && decoded_anchor(fields, k)
        == a.anchors[k] by {
        lemma_anchor_round_trip(a.anchors[k]);
        assert forall|j: int| 0 <= j < 6 implies fields[12 + 6 * k + j] == anchor_fields(
            a.anchors[k],
        )[j] by {
            assert(fields[12 + 6 * k + j] == anchors_fields(a.anchors)[6 * k + j]);
        }
    }
    assert(record_view(record_line(a)).anchors =~= a.anchors);
}

/// Every character of fields joined by tabs is a tab or a character of a field.
pub(crate) proof fn lemma_join_tab_chars(fields: Seq<Seq<char>>)
    requires
        clean_fields(fields),
    ensures
        forall|i: int| 0 <= i < join_tab(fields).len() ==> #[trigger] join_tab(fields)[i] != '\n',
    decreases fields.len(),
{
    if fields.len() > 1 {
        let rest = fields.drop_last();
        assert forall|m: int, i: int| 0 <= m < rest.len() && 0 <= i < rest[m].len() implies #[trigger] rest[m][i]
            != '\t' && rest[m][i] != '\n' by {
            assert(rest[m] == fields[m]);
        }
        lemma_join_tab_chars(rest);
        let t = join_tab(fields);
        let r = join_tab(rest);
        assert forall|i: int| 0 <= i < t.len() implies #[trigger] t[i] != '\n' by {
            if i < r.len() {
                assert(t[i] == r[i]);
            } else if i > r.len() {
                assert(t[i] == fields.last()[i - r.len() - 1]);
                assert(fields.last() == fields[fields.len() - 1]);
            }
        }
    } else if fields.len() == 1 {
        assert forall|i: int| 0 <= i < join_tab(fields).len() implies #[trigger] join_tab(fields)[i]
            != '\n' by {
            assert(join_tab(fields)[i] == fields[0][i]);
        }
    }
}


/// The stored lines of associations end with a newline.
proof fn lemma_association_lines_end(v: Seq<TvAssociationView>)
    requires
        v.len() > 0,
    ensures
        association_lines(v).len() > 0,
        association_lines(v).last() == '\n',
{
    let line = association_line(v.last());
    assert(line.last() == '\n');
    assert(association_lines(v) == association_lines(v.drop_last()) + line);
}

/// Splitting a count line and the stored lines (without the final newline) on newlines gives
/// the count line and each record line.
#[verifier::spinoff_prover]
proof fn lemma_lines_split(d: Seq<char>, v: Seq<TvAssociationView>)
    requires
        forall|i: int| 0 <= i < d.len() ==> d[i] != '\n',
        forall|k: int| 0 <= k < v.len() ==> spec_association_valid(#[trigger] v[k]),
    ensures
        split_text((d + seq!['\n'] + association_lines(v)).drop_last(), '\n') == seq![d]
            + Seq::new(v.len(), |k: int| record_line(v[k])),
    decreases v.len(),
{
    if v.len() == 0 {
        assert((d + seq!['\n'] + association_lines(v)).drop_last() =~= d);
        lemma_split_single(d, '\n');
        assert(seq![d] + Seq::new(v.len(), |k: int| record_line(v[k])) =~= seq![d]);
    } else {
        let rest = v.drop_last();
        let last = v.last();
        assert forall|k: int| 0 <= k < rest.len() implies spec_association_valid(#[trigger] rest[k]) by {
            assert(rest[k] == v[k]);
        }
        lemma_lines_split(d, rest);
        let x = d + seq!['\n'] + association_lines(rest);
        if rest.len() > 0 {
            lemma_association_lines_end(rest);
        }
        assert(x.last() == '\n');
        assert(x =~= x.drop_last() + seq!['\n']);
        assert((d + seq!['\n'] + association_lines(v)).drop_last() =~= x.drop_last() + seq!['\n']
            + record_line(last));
        lemma_split_concat(x.drop_last(), record_line(last), '\n');
        lemma_record_fields(last);
        lemma_split_single(record_line(last), '\n');
        assert(seq![d] + Seq::new(v.len(), |k: int| record_line(v[k])) =~= seq![d] + Seq::new(
            rest.len(),
            |k: int| record_line(rest[k]),
        ) + seq![record_line(last)]);
    }
}

proof fn lemma_first_newline(content: Seq<u8>, end: int, i: int)
    requires
        0 <= i <= end < content.len(),
        content[end] == 10,
        forall|k: int| 0 <= k < end ==> content[k] != 10,
    ensures
        first_newline(content, i) == end,
    decreases end - i,
{
    if i < end {
        lemma_first_newline(content, end, i + 1);
    }
}

/// A checksummed file written for a payload that ends with a newline reads back that
/// payload, without its final newline.
pub proof fn lemma_checked_bytes_payload(h: Seq<u8>, p: Seq<char>, max: nat)
    requires
        p.len() > 0,
        p.last() == '\n',
        checked_bytes(h, p).len() <= max,
    ensures
        checked_payload_text(checked_bytes(h, p), h, max) == Some(p.drop_last()),
{
    let pb = encode_utf8(p);
    let c = encode_utf8(spec_hex_sha1(pb));
    let bytes = checked_bytes(h, p);
    assert(bytes =~= h + c + seq![10u8] + pb);
    assert(bytes.subrange(0, h.len() as int) =~= h);
    let content = bytes.subrange(h.len() as int, bytes.len() as int);
    assert(content =~= c + seq![10u8] + pb);
    lemma_hex_bytes(sha1_digest(pb));
    assert forall|k: int| 0 <= k < c.len() implies content[k] != 10 by {
        assert(content[k] == c[k]);
    }
    lemma_first_newline(content, c.len() as int, 0);
    assert(content.subrange(0, c.len() as int) =~= c);
    assert(content.subrange(c.len() + 1int, content.len() as int) =~= pb);
    vstd::utf8::encode_utf8_valid_utf8(p);
    vstd::utf8::encode_utf8_decode_utf8(p);
}

/// What a store written from distinct associations reads back is those associations: for
/// every sequence of associations that `encoded_tv_metadata_associations` accepts and in
/// which no two share a show group, a generation or an anchor path,
/// `parse_tv_metadata_associations` gives back exactly that sequence.
pub proof fn lemma_store_round_trip(associations: Seq<TvAssociationView>)
    requires
        spec_encoded_store(associations) is Some,
        records_distinct(associations),
    ensures
        spec_parse_store(spec_encoded_store(associations).unwrap()) == Some(associations),
{
    let v = associations;
    let n = v.len();
    let d = decimal_string(n);
    let p = store_payload(v);
    lemma_number_field(n, usize::MAX as nat);
    if n > 0 {
        lemma_association_lines_end(v);
    }
    assert(p.last() == '\n');
    lemma_checked_bytes_payload(store_header(), p, TV_METADATA_MAX_BYTES as nat);
    let body = p.drop_last();
    lemma_lines_split(d, v);
    let lines = split_text(body, '\n');
    assert(lines == seq![d] + Seq::new(n, |k: int| record_line(v[k])));
    assert(lines[0] == d);
    assert forall|i: int| 0 <= i < n implies #[trigger] record_decodes(lines[i + 1]) by {
        assert(lines[i + 1] == record_line(v[i]));
        lemma_record_round_trip(v[i]);
    }
    let records = Seq::new(n, |i: int| record_view(lines[i + 1]));
    assert forall|i: int| 0 <= i < n implies records[i] == v[i] by {
        assert(lines[i + 1] == record_line(v[i]));
        lemma_record_round_trip(v[i]);
    }
    assert(records =~= v);
}


/// A copy of an optional string.
pub fn copy_optional_text(value: &Option<String>) -> (copy: Option<String>)
    ensures
        copy == *value,
{
    match value {
        Some(s) => Some(s.clone()),
        None => None,
    }
}

/// A copy of an anchor.
pub fn copy_anchor(anchor: &TvMetadataAnchor) -> (copy: TvMetadataAnchor)
    ensures
        copy == *anchor,
        copy@ == anchor@,
{
    TvMetadataAnchor {
        relative_path: anchor.relative_path.clone(),
        season: anchor.season,
        episode: anchor.episode,
        file_identity: anchor.file_identity.clone(),
        fingerprint: anchor.fingerprint.clone(),
        size: anchor.size,
    }
}

/// A copy of some anchors.
pub fn copy_anchors(anchors: &Vec<TvMetadataAnchor>) -> (copy: Vec<TvMetadataAnchor>)
    ensures
        copy@ == anchors@,
{
    let mut copy: Vec<TvMetadataAnchor> = Vec::new();
    let mut i: usize = 0;
    while i < anchors.len()
        invariant
            i <= anchors@.len(),
            copy@ == anchors@.take(i as int),
        decreases anchors@.len() - i,
    {
        copy.push(copy_anchor(&anchors[i]));
        assert(copy@ =~= anchors@.take(i + 1));
        i = i + 1;
    }
    assert(anchors@.take(anchors@.len() as int) =~= anchors@);
    copy
}

/// A copy of an association.
pub fn copy_association(association: &TvMetadataAssociation) -> (copy: TvMetadataAssociation)
    ensures
        copy@ == association@,
        copy.anchors@ == association.anchors@,
{
    let copy = TvMetadataAssociation {
        folder: association.folder.clone(),
        folder_identity: association.folder_identity.clone(),
        local_show_title: association.local_show_title.clone(),
        anchors: copy_anchors(&association.anchors),
        tmdb_tv_id: association.tmdb_tv_id,
        imdb_id: association.imdb_id.clone(),
        name: association.name.clone(),
        original_name: copy_optional_text(&association.original_name),
        first_air_date: copy_optional_text(&association.first_air_date),
        poster_path: copy_optional_text(&association.poster_path),
        overview: copy_optional_text(&association.overview),
        generation: association.generation,
    };
    assert(copy.anchors@ =~= association.anchors@);
    copy
}


/// What the file system said about the metadata store before it was read.
#[derive(Debug, PartialEq, Eq)]
pub enum TvMetadataFile {
    /// There is no store yet.
    Missing,
    /// The store could not be queried or read.
    Unavailable,
    /// The store is a link or not a regular file.
    NotRegularFile,
    /// The store is larger than `TV_METADATA_MAX_BYTES`.
    Oversized,
    /// The store's bytes.
    Contents(Vec<u8>),
}

/// The associations a metadata store holds: none when there is no store, `Unavailable` when
/// it cannot be read, `Invalid` when it is not a regular file, is oversized or is malformed.
pub open spec fn spec_read_store(file: TvMetadataFile) -> Result<Seq<TvAssociationView>, TvMetadataReadError> {
    match file {
        TvMetadataFile::Missing => Ok(Seq::empty()),
        TvMetadataFile::Unavailable => Err(TvMetadataReadError::Unavailable),
        TvMetadataFile::NotRegularFile => Err(TvMetadataReadError::Invalid),
        TvMetadataFile::Oversized => Err(TvMetadataReadError::Invalid),
        TvMetadataFile::Contents(bytes) => match spec_parse_store(bytes@) {
            Some(v) => Ok(v),
            None => Err(TvMetadataReadError::Invalid),
        },
    }
}

/// Reads the associations of a metadata store.
pub fn read_tv_metadata_associations(file: TvMetadataFile) -> (result: Result<
    Vec<TvMetadataAssociation>,
    TvMetadataReadError,
>)
    ensures
        match result {
            Ok(v) => spec_read_store(file) == Ok::<Seq<TvAssociationView>, TvMetadataReadError>(
                associations_view(v@),
            ),
            Err(e) => spec_read_store(file) == Err::<Seq<TvAssociationView>, TvMetadataReadError>(
                e,
            ),
        },
{
    match file {
        TvMetadataFile::Missing => {
            let none: Vec<TvMetadataAssociation> = Vec::new();
            assert(associations_view(none@) =~= Seq::<TvAssociationView>::empty());
            Ok(none)
        },
        TvMetadataFile::Unavailable => Err(TvMetadataReadError::Unavailable),
        TvMetadataFile::NotRegularFile => Err(TvMetadataReadError::Invalid),
        TvMetadataFile::Oversized => Err(TvMetadataReadError::Invalid),
        TvMetadataFile::Contents(bytes) => parse_tv_metadata_associations(bytes.as_slice()),
    }
}

} // verus!
