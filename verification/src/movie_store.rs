//! The persisted movie metadata associations: one verified TMDB movie per library file, kept
//! in a checksummed text store of fourteen hexadecimal or decimal fields per record.
use vstd::prelude::*;
use vstd::utf8::encode_utf8;

use crate::digest::hex_sha1;
use crate::hex::hex_text;
use crate::text::{
    lemma_text_less_order, text_less, text_less_chars,
    chars_of, decimal_string, decimal_string_of, join_tab, lemma_split_concat, lemma_split_join_tab,
    lemma_split_single, parse_unsigned, push_char, push_str, spec_parse_unsigned, split_ranges_exec,
    split_text,
};
use crate::tv_store::{
    append_bytes, blank, byte_len, copy_optional_text, canonical_imdb_id, checked_bytes, checked_payload_chars,
    checked_payload_text, clean_fields, decode_number_field, decode_text_field, decoded_optional,
    decoded_text, field_ranges, is_blank, lemma_checked_bytes_payload, lemma_hex_field,
    lemma_join_tab_chars, lemma_number_field, lemma_optional_field, number_field, number_field_ok,
    optional_field, optional_poster_ok, optional_poster_valid, optional_str, optional_text,
    optional_text_ok, optional_text_valid, optional_view, push_hex_field, push_number_field,
    spec_canonical_imdb_id, spec_valid_date, spec_valid_relative_path, text_byte_len,
    text_field_ok, valid_tv_metadata_date, valid_tv_metadata_relative_path,
};

verus! {

pub const MOVIE_METADATA_PERSISTENCE_FAILED: &'static str = "movie_metadata_persistence_failed";

/// Largest accepted store, in bytes.
pub const MOVIE_METADATA_MAX_BYTES: u64 = 4194304;

/// Largest number of associations in a store.
pub const MOVIE_METADATA_MAX_RECORDS: usize = 10000;

/// A verified TMDB movie bound to one file of a movies folder, by the file's path below the
/// folder and what identifies its contents.
#[derive(Clone, Debug, PartialEq, Eq)]
pub struct MovieMetadataAssociation {
    pub folder: String,
    pub folder_identity: String,
    pub relative_path: String,
    pub file_identity: String,
    pub fingerprint: String,
    pub size: u64,
    pub tmdb_movie_id: u64,
    pub imdb_id: String,
    pub title: String,
    pub original_title: Option<String>,
    pub release_date: Option<String>,
    pub poster_path: Option<String>,
    pub overview: Option<String>,
    pub generation: u64,
}

pub struct MovieAssociationView {
    pub folder: Seq<char>,
    pub folder_identity: Seq<char>,
    pub relative_path: Seq<char>,
    pub file_identity: Seq<char>,
    pub fingerprint: Seq<char>,
    pub size: u64,
    pub tmdb_movie_id: u64,
    pub imdb_id: Seq<char>,
    pub title: Seq<char>,
    pub original_title: Option<Seq<char>>,
    pub release_date: Option<Seq<char>>,
    pub poster_path: Option<Seq<char>>,
    pub overview: Option<Seq<char>>,
    pub generation: u64,
}

impl View for MovieMetadataAssociation {
    type V = MovieAssociationView;

    open spec fn view(&self) -> MovieAssociationView {
        MovieAssociationView {
            folder: self.folder@,
            folder_identity: self.folder_identity@,
            relative_path: self.relative_path@,
            file_identity: self.file_identity@,
            fingerprint: self.fingerprint@,
            size: self.size,
            tmdb_movie_id: self.tmdb_movie_id,
            imdb_id: self.imdb_id@,
            title: self.title@,
            original_title: optional_view(self.original_title),
            release_date: optional_view(self.release_date),
            poster_path: optional_view(self.poster_path),
            overview: optional_view(self.overview),
            generation: self.generation,
        }
    }
}

/// The views of a sequence of associations.
pub open spec fn movie_associations_view(associations: Seq<MovieMetadataAssociation>) -> Seq<
    MovieAssociationView,
> {
    associations.map_values(|a: MovieMetadataAssociation| a@)
}

/// Whether an association may be stored: an absolute folder, a folder identity of 1 to 256
/// bytes, a relative path of plain names within 32 KiB, a file identity of 1 to 256 bytes, a
/// fingerprint of 1 to 512 bytes, a TMDB id, a canonical IMDb id, a title that is not blank
/// within 16 KiB, and optional texts that are well formed, and a generation.
pub open spec fn spec_movie_association_valid(a: MovieAssociationView) -> bool {
    &&& a.folder.len() > 0 && a.folder[0] == '/'
    &&& 0 < byte_len(a.folder_identity) <= 256
    &&& spec_valid_relative_path(a.relative_path)
    &&& byte_len(a.relative_path) <= 32768
    &&& 0 < byte_len(a.file_identity) <= 256
    &&& 0 < byte_len(a.fingerprint) <= 512
    &&& a.tmdb_movie_id != 0
    &&& spec_canonical_imdb_id(a.imdb_id)
    &&& !is_blank(a.title) && byte_len(a.title) <= 16384
    &&& optional_text_valid(a.original_title, 16384)
    &&& (a.release_date matches Some(d) ==> spec_valid_date(d))
    &&& optional_poster_valid(a.poster_path)
    &&& optional_text_valid(a.overview, 262144)
    &&& a.generation != 0
}

/// Whether `value` is a date written `YYYY-MM-DD`.
pub fn valid_movie_metadata_date(value: &str) -> (b: bool)
    ensures
        b == spec_valid_date(value@),
{
    valid_tv_metadata_date(value)
}

/// Whether `value` is a relative path made only of plain names.
pub fn valid_movie_metadata_relative_path(value: &str) -> (b: bool)
    ensures
        b == spec_valid_relative_path(value@),
{
    valid_tv_metadata_relative_path(value)
}

/// Checks that an association may be stored.
pub fn validate_movie_metadata_association(association: &MovieMetadataAssociation) -> (result:
    Result<(), &'static str>)
    ensures
        result is Ok <==> spec_movie_association_valid(association@),
        result matches Err(e) ==> e == MOVIE_METADATA_PERSISTENCE_FAILED,
{
    let folder = chars_of(association.folder.as_str());
    let date_ok = match &association.release_date {
        Some(d) => valid_movie_metadata_date(d.as_str()),
        None => true,
    };
    if !(folder.len() > 0 && folder[0] == '/') || text_byte_len(&association.folder_identity) == 0
        || text_byte_len(&association.folder_identity) > 256
        || !valid_movie_metadata_relative_path(association.relative_path.as_str())
        || text_byte_len(&association.relative_path) > 32768
        || text_byte_len(&association.file_identity) == 0
        || text_byte_len(&association.file_identity) > 256
        || text_byte_len(&association.fingerprint) == 0
        || text_byte_len(&association.fingerprint) > 512 || association.tmdb_movie_id == 0
        || !canonical_imdb_id(association.imdb_id.as_str()) || blank(association.title.as_str())
        || text_byte_len(&association.title) > 16384 || !optional_text_ok(
        &association.original_title,
        16384,
    ) || !date_ok || !optional_poster_ok(&association.poster_path) || !optional_text_ok(
        &association.overview,
        262144,
    ) || association.generation == 0 {
        return Err(MOVIE_METADATA_PERSISTENCE_FAILED);
    }
    Ok(())
}

/// The fourteen stored fields of an association.
pub open spec fn movie_fields(a: MovieAssociationView) -> Seq<Seq<char>> {
    seq![
        hex_text(a.folder),
        hex_text(a.folder_identity),
        hex_text(a.relative_path),
        hex_text(a.file_identity),
        hex_text(a.fingerprint),
        decimal_string(a.size as nat),
        decimal_string(a.tmdb_movie_id as nat),
        hex_text(a.imdb_id),
        hex_text(a.title),
        hex_text(optional_text(a.original_title)),
        hex_text(optional_text(a.release_date)),
        hex_text(optional_text(a.poster_path)),
        hex_text(optional_text(a.overview)),
        decimal_string(a.generation as nat),
    ]
}

/// The stored line of an association, without its newline: its fields joined by tabs.
pub open spec fn movie_record_line(a: MovieAssociationView) -> Seq<char> {
    join_tab(movie_fields(a))
}

/// The stored lines of a sequence of associations, each ended by a newline.
pub open spec fn movie_lines(associations: Seq<MovieAssociationView>) -> Seq<char>
    decreases associations.len(),
{
    if associations.len() == 0 {
        Seq::empty()
    } else {
        movie_lines(associations.drop_last()) + movie_record_line(associations.last()) + seq!['\n']
    }
}

/// The payload of a store: the number of associations on its own line, then one line each.
pub open spec fn movie_payload(associations: Seq<MovieAssociationView>) -> Seq<char> {
    decimal_string(associations.len()) + seq!['\n'] + movie_lines(associations)
}

/// The header line that starts every movie store.
pub open spec fn movie_store_header() -> Seq<u8> {
    encode_utf8("AUTO_VIDEO_MOVIE_METADATA_V1\n"@)
}

/// The stored form of a sequence of associations, when all are valid, there are at most
/// `MOVIE_METADATA_MAX_RECORDS` of them and the result fits `MOVIE_METADATA_MAX_BYTES`: the
/// header, the SHA-1 of the payload on a line of its own, then the payload.
pub open spec fn spec_encoded_movie_store(associations: Seq<MovieAssociationView>) -> Option<
    Seq<u8>,
> {
    if associations.len() > MOVIE_METADATA_MAX_RECORDS || exists|k: int|
        0 <= k < associations.len() && !spec_movie_association_valid(#[trigger] associations[k]) {
        None
    } else {
        let bytes = checked_bytes(movie_store_header(), movie_payload(associations));
        if bytes.len() > MOVIE_METADATA_MAX_BYTES {
            None
        } else {
            Some(bytes)
        }
    }
}

/// The stored line of one association, without its newline.
#[verifier::spinoff_prover]
fn movie_line_exec(a: &MovieMetadataAssociation) -> (line: String)
    ensures
        line@ == movie_record_line(a@),
{
    let mut line = String::new();
    let ghost mut fields: Seq<Seq<char>> = Seq::empty();
    push_hex_field(&mut line, a.folder.as_str(), true, Ghost(fields));
    proof { fields = fields.push(hex_text(a.folder@)); }
    push_hex_field(&mut line, a.folder_identity.as_str(), false, Ghost(fields));
    proof { fields = fields.push(hex_text(a.folder_identity@)); }
    push_hex_field(&mut line, a.relative_path.as_str(), false, Ghost(fields));
    proof { fields = fields.push(hex_text(a.relative_path@)); }
    push_hex_field(&mut line, a.file_identity.as_str(), false, Ghost(fields));
    proof { fields = fields.push(hex_text(a.file_identity@)); }
    push_hex_field(&mut line, a.fingerprint.as_str(), false, Ghost(fields));
    proof { fields = fields.push(hex_text(a.fingerprint@)); }
    push_number_field(&mut line, a.size, Ghost(fields));
    proof { fields = fields.push(decimal_string(a.size as nat)); }
    push_number_field(&mut line, a.tmdb_movie_id, Ghost(fields));
    proof { fields = fields.push(decimal_string(a.tmdb_movie_id as nat)); }
    push_hex_field(&mut line, a.imdb_id.as_str(), false, Ghost(fields));
    proof { fields = fields.push(hex_text(a.imdb_id@)); }
    push_hex_field(&mut line, a.title.as_str(), false, Ghost(fields));
    proof { fields = fields.push(hex_text(a.title@)); }
    push_hex_field(&mut line, optional_str(&a.original_title), false, Ghost(fields));
    proof { fields = fields.push(hex_text(optional_text(optional_view(a.original_title)))); }
    push_hex_field(&mut line, optional_str(&a.release_date), false, Ghost(fields));
    proof { fields = fields.push(hex_text(optional_text(optional_view(a.release_date)))); }
    push_hex_field(&mut line, optional_str(&a.poster_path), false, Ghost(fields));
    proof { fields = fields.push(hex_text(optional_text(optional_view(a.poster_path)))); }
    push_hex_field(&mut line, optional_str(&a.overview), false, Ghost(fields));
    proof { fields = fields.push(hex_text(optional_text(optional_view(a.overview)))); }
    push_number_field(&mut line, a.generation, Ghost(fields));
    proof { fields = fields.push(decimal_string(a.generation as nat)); }
    assert(fields =~= movie_fields(a@));
    line
}

/// Encodes associations into the checksummed movie store format.
pub fn encoded_movie_metadata_associations(associations: &[MovieMetadataAssociation]) -> (result:
    Result<Vec<u8>, &'static str>)
    ensures
        match result {
            Ok(bytes) => spec_encoded_movie_store(movie_associations_view(associations@)) == Some(
                bytes@,
            ),
            Err(e) => spec_encoded_movie_store(movie_associations_view(associations@)) is None
                && e == MOVIE_METADATA_PERSISTENCE_FAILED,
        },
{
    let ghost views = movie_associations_view(associations@);
    if associations.len() > MOVIE_METADATA_MAX_RECORDS {
        return Err(MOVIE_METADATA_PERSISTENCE_FAILED);
    }
    let mut payload = decimal_string_of(associations.len() as u64);
    push_char(&mut payload, '\n');
    let ghost head = payload@;
    let mut k: usize = 0;
    while k < associations.len()
        invariant
            views == movie_associations_view(associations@),
            views.len() == associations@.len(),
            k <= views.len(),
            head == decimal_string(views.len()) + seq!['\n'],
            payload@ == head + movie_lines(views.take(k as int)),
            forall|j: int| 0 <= j < k ==> spec_movie_association_valid(#[trigger] views[j]),
        decreases views.len() - k,
    {
        assert(views[k as int] == associations@[k as int]@);
        if validate_movie_metadata_association(&associations[k]).is_err() {
            return Err(MOVIE_METADATA_PERSISTENCE_FAILED);
        }
        let line = movie_line_exec(&associations[k]);
        push_str(&mut payload, line.as_str());
        push_char(&mut payload, '\n');
        assert(views.take(k + 1).drop_last() =~= views.take(k as int));
        assert(payload@ =~= head + movie_lines(views.take(k + 1)));
        k = k + 1;
    }
    assert(views.take(views.len() as int) =~= views);
    assert(payload@ =~= movie_payload(views));
    let payload_bytes = payload.as_str().as_bytes();
    let checksum = hex_sha1(payload_bytes);
    let mut bytes: Vec<u8> = Vec::new();
    let header = "AUTO_VIDEO_MOVIE_METADATA_V1\n".as_bytes();
    append_bytes(&mut bytes, header);
    append_bytes(&mut bytes, checksum.as_str().as_bytes());
    bytes.push(10u8);
    append_bytes(&mut bytes, payload_bytes);
    assert(bytes@ =~= checked_bytes(movie_store_header(), movie_payload(views)));
    if bytes.len() as u64 > MOVIE_METADATA_MAX_BYTES {
        return Err(MOVIE_METADATA_PERSISTENCE_FAILED);
    }
    Ok(bytes)
}

/// Why a store could not be read: its contents are malformed, or it could not be read at all.
#[derive(Clone, Copy, Debug, PartialEq, Eq)]
pub enum MovieMetadataReadError {
    Invalid,
    Unavailable,
}

/// Whether a stored line decodes into an association record: exactly fourteen tab-separated
/// fields, each readable as hexadecimal text or as a decimal number where one belongs.
pub open spec fn movie_record_decodes(line: Seq<char>) -> bool {
    let f = split_text(line, '\t');
    &&& f.len() == 14
    &&& text_field_ok(f[0]) && text_field_ok(f[1]) && text_field_ok(f[2])
    &&& text_field_ok(f[3]) && text_field_ok(f[4])
    &&& number_field_ok(f[5]) && number_field_ok(f[6])
    &&& text_field_ok(f[7]) && text_field_ok(f[8]) && text_field_ok(f[9])
    &&& text_field_ok(f[10]) && text_field_ok(f[11]) && text_field_ok(f[12])
    &&& number_field_ok(f[13])
}

/// The association record that a stored line writes (meaningful when it decodes); an empty
/// optional field is absent.
pub open spec fn movie_record_view(line: Seq<char>) -> MovieAssociationView {
    let f = split_text(line, '\t');
    MovieAssociationView {
        folder: decoded_text(f[0]),
        folder_identity: decoded_text(f[1]),
        relative_path: decoded_text(f[2]),
        file_identity: decoded_text(f[3]),
        fingerprint: decoded_text(f[4]),
        size: number_field(f[5]),
        tmdb_movie_id: number_field(f[6]),
        imdb_id: decoded_text(f[7]),
        title: decoded_text(f[8]),
        original_title: decoded_optional(f[9]),
        release_date: decoded_optional(f[10]),
        poster_path: decoded_optional(f[11]),
        overview: decoded_optional(f[12]),
        generation: number_field(f[13]),
    }
}

/// Two associations of the same file path: the same folder, folder identity and relative
/// path.
pub open spec fn same_movie_path(x: MovieAssociationView, y: MovieAssociationView) -> bool {
    x.folder == y.folder && x.folder_identity == y.folder_identity && x.relative_path
        == y.relative_path
}

/// No two associations share a file path or a generation.
pub open spec fn movie_records_distinct(records: Seq<MovieAssociationView>) -> bool {
    forall|i: int, j: int|
        0 <= i < j < records.len() ==> !same_movie_path(#[trigger] records[i], #[trigger] records[j])
            && records[i].generation != records[j].generation
}

/// The payload text of a movie store, without its final newline.
pub open spec fn movie_payload_text(bytes: Seq<u8>) -> Option<Seq<char>> {
    checked_payload_text(bytes, movie_store_header(), MOVIE_METADATA_MAX_BYTES as nat)
}

/// The associations a store holds, when it is well formed: its size, header, checksum and
/// encoding are right; the payload's first line counts the records (at most
/// `MOVIE_METADATA_MAX_RECORDS`); exactly that many record lines follow; every record decodes
/// and is valid; and no two share a file path or a generation.
pub open spec fn spec_parse_movie_store(bytes: Seq<u8>) -> Option<Seq<MovieAssociationView>> {
    match movie_payload_text(bytes) {
        None => None,
        Some(body) => {
            let lines = split_text(body, '\n');
            match spec_parse_unsigned(lines[0], usize::MAX as nat) {
                None => None,
                Some(count) => if count > MOVIE_METADATA_MAX_RECORDS || lines.len() != count + 1
                    || !(forall|i: int| 0 <= i < count ==> #[trigger] movie_record_decodes(lines[i + 1])) {
                    None
                } else {
                    let records = Seq::new(count, |i: int| movie_record_view(lines[i + 1]));
                    if (forall|i: int| 0 <= i < count ==> spec_movie_association_valid(#[trigger] records[i]))
                        && movie_records_distinct(records) {
                        Some(records)
                    } else {
                        None
                    }
                },
            }
        },
    }
}

/// Decodes one stored record line into an association.
fn decode_movie_record(line: &[char]) -> (record: Option<MovieMetadataAssociation>)
    ensures
        match record {
            Some(a) => movie_record_decodes(line@) && a@ == movie_record_view(line@),
            None => !movie_record_decodes(line@),
        },
{
    let ranges = split_ranges_exec(line, '\t');
    let ghost f = split_text(line@, '\t');
    assert(field_ranges(line@, ranges@, f));
    if ranges.len() != 14 {
        return None;
    }
    assert forall|j: int| 0 <= j < 14 implies ranges@[j].0 <= ranges@[j].1 <= line@.len()
        && line@.subrange(ranges@[j].0 as int, ranges@[j].1 as int) == f[j] by {
        assert(field_ranges(line@, ranges@, f));
    }
    let folder = match decode_text_field(line, ranges[0]) {
        Some(s) => s,
        None => return None,
    };
    let folder_identity = match decode_text_field(line, ranges[1]) {
        Some(s) => s,
        None => return None,
    };
    let relative_path = match decode_text_field(line, ranges[2]) {
        Some(s) => s,
        None => return None,
    };
    let file_identity = match decode_text_field(line, ranges[3]) {
        Some(s) => s,
        None => return None,
    };
    let fingerprint = match decode_text_field(line, ranges[4]) {
        Some(s) => s,
        None => return None,
    };
    let size = match decode_number_field(line, ranges[5], u64::MAX) {
        Some(v) => v,
        None => return None,
    };
    let tmdb_movie_id = match decode_number_field(line, ranges[6], u64::MAX) {
        Some(v) => v,
        None => return None,
    };
    let imdb_id = match decode_text_field(line, ranges[7]) {
        Some(s) => s,
        None => return None,
    };
    let title = match decode_text_field(line, ranges[8]) {
        Some(s) => s,
        None => return None,
    };
    let original_title = match decode_text_field(line, ranges[9]) {
        Some(s) => optional_field(s),
        None => return None,
    };
    let release_date = match decode_text_field(line, ranges[10]) {
        Some(s) => optional_field(s),
        None => return None,
    };
    let poster_path = match decode_text_field(line, ranges[11]) {
        Some(s) => optional_field(s),
        None => return None,
    };
    let overview = match decode_text_field(line, ranges[12]) {
        Some(s) => optional_field(s),
        None => return None,
    };
    let generation = match decode_number_field(line, ranges[13], u64::MAX) {
        Some(v) => v,
        None => return None,
    };
    Some(
        MovieMetadataAssociation {
            folder,
            folder_identity,
            relative_path,
            file_identity,
            fingerprint,
            size,
            tmdb_movie_id,
            imdb_id,
            title,
            original_title,
            release_date,
            poster_path,
            overview,
            generation,
        },
    )
}

/// Whether `record` shares no file path or generation with any of `records`.
fn movie_distinct_from_all(records: &Vec<MovieMetadataAssociation>, record: &MovieMetadataAssociation) -> (b: bool)
    ensures
        b == forall|j: int|
            0 <= j < records@.len() ==> !same_movie_path(#[trigger] records@[j]@, record@)
                && records@[j]@.generation != record@.generation,
{
    let mut j: usize = 0;
    while j < records.len()
        invariant
            j <= records@.len(),
            forall|i: int|
                0 <= i < j ==> !same_movie_path(#[trigger] records@[i]@, record@)
                    && records@[i]@.generation != record@.generation,
        decreases records@.len() - j,
    {
        let other = &records[j];
        if (other.folder == record.folder && other.folder_identity == record.folder_identity
            && other.relative_path == record.relative_path) || other.generation == record.generation {
            assert(records@[j as int]@ == other@);
            return false;
        }
        j = j + 1;
    }
    true
}

/// Reads a store written by `encoded_movie_metadata_associations`; anything malformed is
/// `Invalid`.
pub fn parse_movie_metadata_associations(bytes: &[u8]) -> (result: Result<
    Vec<MovieMetadataAssociation>,
    MovieMetadataReadError,
>)
    ensures
        match result {
            Ok(v) => spec_parse_movie_store(bytes@) == Some(movie_associations_view(v@)),
            Err(e) => spec_parse_movie_store(bytes@) is None && e == MovieMetadataReadError::Invalid,
        },
{
    let header = "AUTO_VIDEO_MOVIE_METADATA_V1\n".as_bytes();
    assert(header@ == movie_store_header());
    let body = match checked_payload_chars(bytes, header, MOVIE_METADATA_MAX_BYTES) {
        Some(t) => t,
        None => return Err(MovieMetadataReadError::Invalid),
    };
    let lines = split_ranges_exec(&body, '\n');
    let ghost ls = split_text(body@, '\n');
    assert(ls.len() == lines@.len());
    assert(ls[0] == body@.subrange(lines@[0].0 as int, lines@[0].1 as int));
    let first = vstd::slice::slice_subrange(&body, lines[0].0, lines[0].1);
    let count = match parse_unsigned(first, usize::MAX as u64) {
        Some(c) => c,
        None => return Err(MovieMetadataReadError::Invalid),
    };
    if count > MOVIE_METADATA_MAX_RECORDS as u64 || lines.len() as u64 != count + 1 {
        return Err(MovieMetadataReadError::Invalid);
    }
    let count = count as usize;
    let ghost records = Seq::new(count as nat, |i: int| movie_record_view(ls[i + 1]));
    let mut result: Vec<MovieMetadataAssociation> = Vec::new();
    let mut k: usize = 0;
    while k < count
        invariant
            movie_payload_text(bytes@) == Some(body@),
            ls == split_text(body@, '\n'),
            spec_parse_unsigned(ls[0], usize::MAX as nat) == Some(count as nat),
            count <= MOVIE_METADATA_MAX_RECORDS,
            lines@.len() == count + 1,
            ls.len() == lines@.len(),
            forall|j: int|
                0 <= j < lines@.len() ==> (#[trigger] lines@[j]).0 <= lines@[j].1 <= body@.len()
                    && body@.subrange(lines@[j].0 as int, lines@[j].1 as int) == ls[j],
            records == Seq::new(count as nat, |i: int| movie_record_view(ls[i + 1])),
            k <= count,
            forall|i: int| 0 <= i < k ==> #[trigger] movie_record_decodes(ls[i + 1]),
            movie_associations_view(result@) == records.take(k as int),
            forall|i: int| 0 <= i < k ==> spec_movie_association_valid(#[trigger] records[i]),
            movie_records_distinct(records.take(k as int)),
        decreases count - k,
    {
        assert(lines@[k + 1].0 <= lines@[k + 1].1 <= body@.len());
        let line = vstd::slice::slice_subrange(&body, lines[k + 1].0, lines[k + 1].1);
        let record = match decode_movie_record(line) {
            Some(r) => r,
            None => {
                assert(!movie_record_decodes(ls[k + 1]));
                return Err(MovieMetadataReadError::Invalid);
            },
        };
        assert(record@ == records[k as int]);
        if validate_movie_metadata_association(&record).is_err() {
            assert(!spec_movie_association_valid(records[k as int]));
            return Err(MovieMetadataReadError::Invalid);
        }
        let ghost before = result@;
        if !movie_distinct_from_all(&result, &record) {
            proof {
                let j = choose|j: int|
                    0 <= j < before.len() && !(!same_movie_path(#[trigger] before[j]@, record@)
                        && before[j]@.generation != record@.generation);
                assert(movie_associations_view(before).len() == k);
                assert(movie_associations_view(before)[j] == before[j]@);
                assert(records.take(k as int)[j] == records[j]);
                assert(!movie_records_distinct(records)) by {
                    assert(!(!same_movie_path(records[j], records[k as int])
                        && records[j].generation != records[k as int].generation));
                }
            }
            return Err(MovieMetadataReadError::Invalid);
        }
        result.push(record);
        proof {
            assert(movie_associations_view(result@) =~= records.take(k + 1));
            assert forall|i: int, j: int| 0 <= i < j < k + 1 implies !same_movie_path(
                #[trigger] records.take(k + 1)[i],
                #[trigger] records.take(k + 1)[j],
            ) && records.take(k + 1)[i].generation != records.take(k + 1)[j].generation by {
                if j < k {
                    assert(records.take(k as int)[i] == records.take(k + 1)[i]);
                    assert(records.take(k as int)[j] == records.take(k + 1)[j]);
                } else {
                    assert(movie_associations_view(before)[i] == records[i]);
                    assert(before[i]@ == records[i]);
                }
            }
        }
        k = k + 1;
    }
    assert(records.take(count as int) =~= records);
    Ok(result)
}

/// The stored line of an association splits back into its fourteen fields and holds no
/// newline.
proof fn lemma_movie_record_fields(a: MovieAssociationView)
    ensures
        split_text(movie_record_line(a), '\t') == movie_fields(a),
        forall|i: int| 0 <= i < movie_record_line(a).len() ==> #[trigger] movie_record_line(a)[i] != '\n',
{
    let fields = movie_fields(a);
    lemma_hex_field(a.folder);
    lemma_hex_field(a.folder_identity);
    lemma_hex_field(a.relative_path);
    lemma_hex_field(a.file_identity);
    lemma_hex_field(a.fingerprint);
    lemma_number_field(a.size as nat, u64::MAX as nat);
    lemma_number_field(a.tmdb_movie_id as nat, u64::MAX as nat);
    lemma_hex_field(a.imdb_id);
    lemma_hex_field(a.title);
    lemma_hex_field(optional_text(a.original_title));
    lemma_hex_field(optional_text(a.release_date));
    lemma_hex_field(optional_text(a.poster_path));
    lemma_hex_field(optional_text(a.overview));
    lemma_number_field(a.generation as nat, u64::MAX as nat);
    assert(clean_fields(fields));
    lemma_split_join_tab(fields);
    lemma_join_tab_chars(fields);
}

/// The stored line of a valid association decodes back to it.
proof fn lemma_movie_record_round_trip(a: MovieAssociationView)
    requires
        spec_movie_association_valid(a),
    ensures
        movie_record_decodes(movie_record_line(a)),
        movie_record_view(movie_record_line(a)) == a,
{
    lemma_movie_record_fields(a);
    lemma_hex_field(a.folder);
    lemma_hex_field(a.folder_identity);
    lemma_hex_field(a.relative_path);
    lemma_hex_field(a.file_identity);
    lemma_hex_field(a.fingerprint);
    lemma_number_field(a.size as nat, u64::MAX as nat);
    lemma_number_field(a.tmdb_movie_id as nat, u64::MAX as nat);
    lemma_hex_field(a.imdb_id);
    lemma_hex_field(a.title);
    lemma_optional_field(a.original_title);
    lemma_optional_field(a.release_date);
    lemma_optional_field(a.poster_path);
    lemma_optional_field(a.overview);
    lemma_number_field(a.generation as nat, u64::MAX as nat);
}

/// The stored lines of associations end with a newline.
proof fn lemma_movie_lines_end(v: Seq<MovieAssociationView>)
    requires
        v.len() > 0,
    ensures
        movie_lines(v).len() > 0,
        movie_lines(v).last() == '\n',
{
}

/// Splitting a count line and the stored lines (without the final newline) on newlines gives
/// the count line and each record line.
#[verifier::spinoff_prover]
proof fn lemma_movie_lines_split(d: Seq<char>, v: Seq<MovieAssociationView>)
    requires
        forall|i: int| 0 <= i < d.len() ==> d[i] != '\n',
    ensures
        split_text((d + seq!['\n'] + movie_lines(v)).drop_last(), '\n') == seq![d] + Seq::new(
            v.len(),
            |k: int| movie_record_line(v[k]),
        ),
    decreases v.len(),
{
    if v.len() == 0 {
        assert((d + seq!['\n'] + movie_lines(v)).drop_last() =~= d);
        lemma_split_single(d, '\n');
        assert(seq![d] + Seq::new(v.len(), |k: int| movie_record_line(v[k])) =~= seq![d]);
    } else {
        let rest = v.drop_last();
        let last = v.last();
        lemma_movie_lines_split(d, rest);
        let x = d + seq!['\n'] + movie_lines(rest);
        if rest.len() > 0 {
            lemma_movie_lines_end(rest);
        }
        assert(x.last() == '\n');
        assert(x =~= x.drop_last() + seq!['\n']);
        assert((d + seq!['\n'] + movie_lines(v)).drop_last() =~= x.drop_last() + seq!['\n']
            + movie_record_line(last));
        lemma_split_concat(x.drop_last(), movie_record_line(last), '\n');
        lemma_movie_record_fields(last);
        lemma_split_single(movie_record_line(last), '\n');
        assert(seq![d] + Seq::new(v.len(), |k: int| movie_record_line(v[k])) =~= seq![d]
            + Seq::new(rest.len(), |k: int| movie_record_line(rest[k])) + seq![
            movie_record_line(last),
        ]);
    }
}

/// What a movie store written from distinct associations reads back is those associations:
/// for every sequence of associations that `encoded_movie_metadata_associations` accepts and
/// in which no two share a file path or a generation, `parse_movie_metadata_associations`
/// gives back exactly that sequence.
pub proof fn lemma_movie_store_round_trip(associations: Seq<MovieAssociationView>)
    requires
        spec_encoded_movie_store(associations) is Some,
        movie_records_distinct(associations),
    ensures
        spec_parse_movie_store(spec_encoded_movie_store(associations).unwrap()) == Some(
            associations,
        ),
{
    let v = associations;
    let n = v.len();
    let d = decimal_string(n);
    let p = movie_payload(v);
    lemma_number_field(n, usize::MAX as nat);
    if n > 0 {
        lemma_movie_lines_end(v);
    }
    assert(p.last() == '\n');
    lemma_checked_bytes_payload(movie_store_header(), p, MOVIE_METADATA_MAX_BYTES as nat);
    let body = p.drop_last();
    lemma_movie_lines_split(d, v);
    let lines = split_text(body, '\n');
    assert(lines == seq![d] + Seq::new(n, |k: int| movie_record_line(v[k])));
    assert(lines[0] == d);
    assert forall|i: int| 0 <= i < n implies #[trigger] movie_record_decodes(lines[i + 1]) by {
        assert(lines[i + 1] == movie_record_line(v[i]));
        lemma_movie_record_round_trip(v[i]);
    }
    let records = Seq::new(n, |i: int| movie_record_view(lines[i + 1]));
    assert forall|i: int| 0 <= i < n implies records[i] == v[i] by {
        assert(lines[i + 1] == movie_record_line(v[i]));
        lemma_movie_record_round_trip(v[i]);
    }
    assert(records =~= v);
}

/// What reading the movie store found: no file, a file that could not be read, something
/// that is not a regular file, a file over the size limit, or the file's bytes.
#[derive(Debug, PartialEq, Eq)]
pub enum MovieMetadataFile {
    Missing,
    Unavailable,
    NotRegularFile,
    Oversized,
    Contents(Vec<u8>),
}

/// The associations that reading the store gives: none for a missing file.
pub open spec fn spec_read_movie_store(file: MovieMetadataFile) -> Result<
    Seq<MovieAssociationView>,
    MovieMetadataReadError,
> {
    match file {
        MovieMetadataFile::Missing => Ok(Seq::empty()),
        MovieMetadataFile::Unavailable => Err(MovieMetadataReadError::Unavailable),
        MovieMetadataFile::NotRegularFile => Err(MovieMetadataReadError::Invalid),
        MovieMetadataFile::Oversized => Err(MovieMetadataReadError::Invalid),
        MovieMetadataFile::Contents(bytes) => match spec_parse_movie_store(bytes@) {
            Some(v) => Ok(v),
            None => Err(MovieMetadataReadError::Invalid),
        },
    }
}

/// Reads the associations from what was found at the store's path.
pub fn read_movie_metadata_associations(file: MovieMetadataFile) -> (result: Result<
    Vec<MovieMetadataAssociation>,
    MovieMetadataReadError,
>)
    ensures
        match result {
            Ok(v) => spec_read_movie_store(file) == Ok::<
                Seq<MovieAssociationView>,
                MovieMetadataReadError,
            >(movie_associations_view(v@)),
            Err(e) => spec_read_movie_store(file) == Err::<
                Seq<MovieAssociationView>,
                MovieMetadataReadError,
            >(e),
        },
{
    match file {
        MovieMetadataFile::Missing => {
            let none: Vec<MovieMetadataAssociation> = Vec::new();
            assert(movie_associations_view(none@) =~= Seq::<MovieAssociationView>::empty());
            Ok(none)
        },
        MovieMetadataFile::Unavailable => Err(MovieMetadataReadError::Unavailable),
        MovieMetadataFile::NotRegularFile => Err(MovieMetadataReadError::Invalid),
        MovieMetadataFile::Oversized => Err(MovieMetadataReadError::Invalid),
        MovieMetadataFile::Contents(bytes) => parse_movie_metadata_associations(bytes.as_slice()),
    }
}

/// A copy of an association.
pub fn copy_movie_association(a: &MovieMetadataAssociation) -> (copy: MovieMetadataAssociation)
    ensures
        copy == *a,
{
    MovieMetadataAssociation {
        folder: a.folder.clone(),
        folder_identity: a.folder_identity.clone(),
        relative_path: a.relative_path.clone(),
        file_identity: a.file_identity.clone(),
        fingerprint: a.fingerprint.clone(),
        size: a.size,
        tmdb_movie_id: a.tmdb_movie_id,
        imdb_id: a.imdb_id.clone(),
        title: a.title.clone(),
        original_title: copy_optional_text(&a.original_title),
        release_date: copy_optional_text(&a.release_date),
        poster_path: copy_optional_text(&a.poster_path),
        overview: copy_optional_text(&a.overview),
        generation: a.generation,
    }
}

/// Whether association `a` comes before `b` in a store: by folder, then folder identity, then
/// relative path, each compared as text.
pub open spec fn movie_key_less(a: MovieAssociationView, b: MovieAssociationView) -> bool {
    ||| text_less(a.folder, b.folder)
    ||| a.folder == b.folder && text_less(a.folder_identity, b.folder_identity)
    ||| a.folder == b.folder && a.folder_identity == b.folder_identity && text_less(
        a.relative_path,
        b.relative_path,
    )
}

/// Whether associations are in store order: none comes before an earlier one.
pub open spec fn movie_store_ordered(s: Seq<MovieAssociationView>) -> bool {
    forall|i: int, j: int| 0 <= i < j < s.len() ==> !movie_key_less(#[trigger] s[j], #[trigger] s[i])
}

proof fn lemma_movie_key_order(a: MovieAssociationView, b: MovieAssociationView, c: MovieAssociationView)
    ensures
        !movie_key_less(a, a),
        movie_key_less(a, b) && movie_key_less(b, c) ==> movie_key_less(a, c),
        !movie_key_less(a, b) && !movie_key_less(b, c) ==> !movie_key_less(a, c),
        movie_key_less(a, b) ==> !movie_key_less(b, a),
        !movie_key_less(a, b) ==> !movie_key_less(b, a) ==> (a.folder == b.folder
            && a.folder_identity == b.folder_identity && a.relative_path == b.relative_path),
{
    lemma_text_less_order(a.folder, b.folder, c.folder);
    lemma_text_less_order(a.folder_identity, b.folder_identity, c.folder_identity);
    lemma_text_less_order(a.relative_path, b.relative_path, c.relative_path);
    lemma_text_less_order(b.folder, a.folder, c.folder);
    lemma_text_less_order(b.folder_identity, a.folder_identity, c.folder_identity);
    lemma_text_less_order(b.relative_path, a.relative_path, c.relative_path);
    lemma_text_less_order(c.folder, b.folder, a.folder);
    lemma_text_less_order(c.folder_identity, b.folder_identity, a.folder_identity);
    lemma_text_less_order(c.relative_path, b.relative_path, a.relative_path);
    lemma_text_less_order(a.folder, c.folder, b.folder);
    lemma_text_less_order(a.folder_identity, c.folder_identity, b.folder_identity);
    lemma_text_less_order(a.relative_path, c.relative_path, b.relative_path);
}

fn text_less_str(a: &str, b: &str) -> (result: bool)
    ensures
        result == text_less(a@, b@),
{
    let x = chars_of(a);
    let y = chars_of(b);
    text_less_chars(&x, &y)
}

fn movie_key_less_exec(a: &MovieMetadataAssociation, b: &MovieMetadataAssociation) -> (result: bool)
    ensures
        result == movie_key_less(a@, b@),
{
    if text_less_str(a.folder.as_str(), b.folder.as_str()) {
        return true;
    }
    if a.folder != b.folder {
        return false;
    }
    if text_less_str(a.folder_identity.as_str(), b.folder_identity.as_str()) {
        return true;
    }
    if a.folder_identity != b.folder_identity {
        return false;
    }
    text_less_str(a.relative_path.as_str(), b.relative_path.as_str())
}

/// Puts associations in store order, keeping the order of those with the same key (a stable
/// sort by folder, folder identity and relative path).
pub fn sort_movie_associations(associations: Vec<MovieMetadataAssociation>) -> (sorted: Vec<
    MovieMetadataAssociation,
>)
    ensures
        movie_store_ordered(movie_associations_view(sorted@)),
        sorted@.to_multiset() == associations@.to_multiset(),
{
    let mut sorted: Vec<MovieMetadataAssociation> = Vec::new();
    let mut i: usize = 0;
    assert(associations@.take(0).to_multiset() =~= sorted@.to_multiset()) by {
        assert(associations@.take(0) =~= Seq::<MovieMetadataAssociation>::empty());
        assert(sorted@ =~= Seq::<MovieMetadataAssociation>::empty());
    }
    while i < associations.len()
        invariant
            i <= associations@.len(),
            movie_store_ordered(movie_associations_view(sorted@)),
            sorted@.to_multiset() == associations@.take(i as int).to_multiset(),
        decreases associations@.len() - i,
    {
        let x = &associations[i];
        let mut p: usize = sorted.len();
        while p > 0 && movie_key_less_exec(x, &sorted[p - 1])
            invariant
                p <= sorted@.len(),
                forall|k: int| p <= k < sorted@.len() ==> movie_key_less(x@, #[trigger] sorted@[k]@),
            decreases p,
        {
            p = p - 1;
        }
        let ghost before = sorted@;
        let ghost views = movie_associations_view(before);
        proof {
            if p > 0 {
                assert(!movie_key_less(x@, before[p - 1]@));
            }
            assert forall|k: int| 0 <= k < p implies !movie_key_less(x@, #[trigger] views[k]) by {
                if k < p - 1 {
                    lemma_movie_key_order(views[k], views[p - 1], x@);
                    lemma_movie_key_order(x@, views[p - 1], views[k]);
                    assert(!movie_key_less(views[p - 1], views[k]));
                }
            }
        }
        sorted.insert(p, copy_movie_association(x));
        proof {
            let after = movie_associations_view(sorted@);
            assert(after =~= views.insert(p as int, x@));
            assert forall|a: int, b: int| 0 <= a < b < after.len() implies !movie_key_less(
                #[trigger] after[b],
                #[trigger] after[a],
            ) by {
                if a < p && b == p {
                    lemma_movie_key_order(x@, views[a], x@);
                } else if a == p && b > p {
                    assert(after[b] == views[b - 1]);
                    assert(movie_key_less(x@, before[b - 1]@));
                    lemma_movie_key_order(x@, views[b - 1], x@);
                } else if b < p {
                    assert(after[a] == views[a] && after[b] == views[b]);
                } else if a > p {
                    assert(after[a] == views[a - 1] && after[b] == views[b - 1]);
                } else {
                    assert(after[a] == views[a] && after[b] == views[b - 1]);
                }
            }
            let a = associations@[i as int];
            assert(sorted@ =~= before.insert(p as int, a));
            vstd::seq_lib::to_multiset_insert(before, p as int, a);
            assert(associations@.take(i + 1) =~= associations@.take(i as int).push(a));
            vstd::seq_lib::to_multiset_build(associations@.take(i as int), a);
        }
        i = i + 1;
    }
    assert(associations@.take(associations@.len() as int) =~= associations@);
    sorted
}

} // verus!
