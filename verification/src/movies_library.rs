//! The movies library: the configured folder, the completed scan with each file's stored
//! TMDB association, the checks before a file is opened, revealed or trashed, and the TMDB
//! matching flow bound to one scanned file.
use vstd::prelude::*;

use crate::library_scan::{is_supported_library_media, spec_supported_media};
use crate::movie_store::{
    copy_movie_association, movie_associations_view, read_movie_metadata_associations,
    spec_read_movie_store, MovieAssociationView,
    MovieMetadataAssociation, MovieMetadataFile, MovieMetadataReadError,
};
use crate::text::{decimal_string, decimal_string_of, same_text};
use crate::tv_library::{TvCanonicalPath, TvEntryKind, TvIoFailure, TvPathComponent};
use crate::tv_scan::{empty_fields, owned, push_all, push_empty_fields, texts};
use crate::tv_store::{optional_str, optional_text, optional_view};

verus! {

pub const MOVIES_FOLDER_UNAVAILABLE: &'static str = "movies_folder_unavailable";

pub const MOVIES_SCAN_FAILED: &'static str = "movies_scan_failed";

pub const MOVIE_OPEN_FAILED: &'static str = "movie_open_failed";

pub const MOVIE_OPEN_NOT_FILE: &'static str = "movie_open_not_file";

pub const MOVIE_OPEN_NOT_FOUND: &'static str = "movie_open_not_found";

pub const MOVIE_OPEN_UNAVAILABLE: &'static str = "movie_open_unavailable";

pub const MOVIE_OPEN_UNSUPPORTED: &'static str = "movie_open_unsupported";

pub const MOVIE_REVEAL_FAILED: &'static str = "movie_reveal_failed";

pub const MOVIE_REVEAL_NOT_FILE: &'static str = "movie_reveal_not_file";

pub const MOVIE_REVEAL_NOT_FOUND: &'static str = "movie_reveal_not_found";

pub const MOVIE_REVEAL_UNAVAILABLE: &'static str = "movie_reveal_unavailable";

pub const MOVIE_REVEAL_UNSUPPORTED: &'static str = "movie_reveal_unsupported";

pub const MOVIE_TRASH_FAILED: &'static str = "movie_trash_failed";

pub const MOVIE_TRASH_FOLDER_UNAVAILABLE: &'static str = "movie_trash_folder_unavailable";

pub const MOVIE_TRASH_NOT_FILE: &'static str = "movie_trash_not_file";

pub const MOVIE_TRASH_NOT_FOUND: &'static str = "movie_trash_not_found";

pub const MOVIE_TRASH_OUTSIDE_FOLDER: &'static str = "movie_trash_outside_folder";

pub const MOVIE_TRASH_STALE: &'static str = "movie_trash_stale";

pub const MOVIE_TRASH_UNAVAILABLE: &'static str = "movie_trash_unavailable";

pub const MOVIE_TRASH_UNSUPPORTED: &'static str = "movie_trash_unsupported";

pub const MOVIE_METADATA_CONTEXT_INVALID: &'static str = "movie_metadata_context_invalid";

pub const MOVIE_METADATA_STALE: &'static str = "movie_metadata_stale";

pub const MOVIE_METADATA_UNAVAILABLE: &'static str = "movie_metadata_unavailable";

/// Whether the association store could be used by the last scan.
#[derive(Clone, Copy, Debug, PartialEq, Eq)]
pub enum MovieAssociationStatus {
    Ready,
    Attention,
    Unavailable,
}

impl MovieAssociationStatus {
    pub open spec fn text(self) -> Seq<char> {
        match self {
            MovieAssociationStatus::Ready => "ready"@,
            MovieAssociationStatus::Attention => "attention"@,
            MovieAssociationStatus::Unavailable => "unavailable"@,
        }
    }

    /// The status as the scan response writes it.
    pub fn as_str(&self) -> (text: &'static str)
        ensures
            text@ == self.text(),
    {
        match self {
            MovieAssociationStatus::Ready => "ready",
            MovieAssociationStatus::Attention => "attention",
            MovieAssociationStatus::Unavailable => "unavailable",
        }
    }
}

/// A media file found by a scan of the movies folder, with what identifies its contents and
/// the stored association that matches it, if any.
#[derive(Clone, Debug, PartialEq, Eq)]
pub struct TrustedMovieFile {
    pub file_id: String,
    pub path: String,
    pub relative_path: String,
    pub file_identity: String,
    pub fingerprint: String,
    pub size: u64,
    pub association: Option<MovieMetadataAssociation>,
}

/// The result of the last scan of the movies folder.
#[derive(Clone, Debug, PartialEq, Eq)]
pub struct CompletedMovieScan {
    pub folder: String,
    pub folder_identity: String,
    pub generation: u64,
    pub files: Vec<TrustedMovieFile>,
    pub association_status: MovieAssociationStatus,
}

/// A movie offered by a TMDB search.
#[derive(Clone, Debug, PartialEq, Eq)]
pub struct MovieMetadataCandidate {
    pub tmdb_movie_id: u64,
    pub title: String,
    pub original_title: Option<String>,
    pub release_date: Option<String>,
    pub poster_path: Option<String>,
}

/// What a metadata operation was started for: one file of one scan.
#[derive(Clone, Debug, PartialEq, Eq)]
pub struct MovieMetadataAuthority {
    pub scan_generation: u64,
    pub folder: String,
    pub folder_identity: String,
    pub file_id: String,
    pub path: String,
    pub relative_path: String,
    pub file_identity: String,
    pub fingerprint: String,
    pub size: u64,
}

/// The search in progress for a file.
#[derive(Clone, Debug, PartialEq, Eq)]
pub struct MovieMetadataSearch {
    pub request_id: String,
    pub operation_generation: u64,
    pub authority: MovieMetadataAuthority,
    pub query: String,
    pub token_identity: String,
    pub candidates: Vec<MovieMetadataCandidate>,
}

/// A verified match waiting to be saved.
#[derive(Clone, Debug, PartialEq, Eq)]
pub struct MovieMetadataVerification {
    pub verification_id: String,
    pub operation_generation: u64,
    pub matching_request_id: String,
    pub authority: MovieMetadataAuthority,
    pub association: MovieMetadataAssociation,
    pub token_identity: String,
}

/// The state of the movies library: the configured folder, the paths of the last scan, a
/// generation that every scan advances, the completed scan, and the metadata operations in
/// progress.
pub struct MoviesLibraryContext {
    pub folder: Option<String>,
    pub movie_paths: Vec<String>,
    pub generation: u64,
    pub completed_scan: Option<CompletedMovieScan>,
    pub metadata_client_generation: u64,
    pub metadata_operation_generation: u64,
    pub metadata_search: Option<MovieMetadataSearch>,
    pub metadata_verification: Option<MovieMetadataVerification>,
}

/// `x + 1`, wrapping to zero after the largest value.
pub open spec fn wrapping_next(x: u64) -> u64 {
    if x == u64::MAX {
        0
    } else {
        (x + 1) as u64
    }
}

fn wrapping_advance(x: u64) -> (y: u64)
    ensures
        y == wrapping_next(x),
{
    if x == u64::MAX {
        0
    } else {
        x + 1
    }
}

impl MoviesLibraryContext {
    /// A context with no folder, no scan and no metadata operation.
    pub fn new() -> (context: Self)
        ensures
            context.folder is None,
            context.movie_paths@.len() == 0,
            context.generation == 0,
            context.completed_scan is None,
            context.metadata_client_generation == 0,
            context.metadata_operation_generation == 0,
            context.metadata_search is None,
            context.metadata_verification is None,
    {
        MoviesLibraryContext {
            folder: None,
            movie_paths: Vec::new(),
            generation: 0,
            completed_scan: None,
            metadata_client_generation: 0,
            metadata_operation_generation: 0,
            metadata_search: None,
            metadata_verification: None,
        }
    }

    /// `self` is `before` with its metadata operations dropped and the operation generation
    /// advanced.
    pub open spec fn metadata_invalidated_from(self, before: Self) -> bool {
        &&& self.metadata_operation_generation == wrapping_next(before.metadata_operation_generation)
        &&& self.metadata_search is None
        &&& self.metadata_verification is None
    }

    /// `self` and `before` agree on the folder, the scanned paths, the generation and the
    /// completed scan.
    pub open spec fn same_library(self, before: Self) -> bool {
        &&& self.folder == before.folder
        &&& self.movie_paths == before.movie_paths
        &&& self.generation == before.generation
        &&& self.completed_scan == before.completed_scan
    }
}

/// Drops the metadata operations in progress.
pub fn invalidate_movie_metadata_context(library: &mut MoviesLibraryContext)
    ensures
        final(library).metadata_invalidated_from(*old(library)),
        final(library).same_library(*old(library)),
        final(library).metadata_client_generation == old(library).metadata_client_generation,
{
    library.metadata_operation_generation = wrapping_advance(library.metadata_operation_generation);
    library.metadata_search = None;
    library.metadata_verification = None;
}

/// Accepts a client generation newer than every one seen so far.
pub fn begin_movie_metadata_client_operation(
    library: &mut MoviesLibraryContext,
    client_generation: u64,
) -> (result: Result<(), &'static str>)
    ensures
        result is Ok <==> (client_generation != 0 && client_generation
            > old(library).metadata_client_generation),
        result matches Err(e) ==> e == MOVIE_METADATA_CONTEXT_INVALID && *final(library) == *old(
            library,
        ),
        result is Ok ==> final(library).metadata_client_generation == client_generation,
        final(library).same_library(*old(library)),
        final(library).metadata_operation_generation == old(library).metadata_operation_generation,
        final(library).metadata_search == old(library).metadata_search,
        final(library).metadata_verification == old(library).metadata_verification,
{
    if client_generation == 0 || client_generation <= library.metadata_client_generation {
        return Err(MOVIE_METADATA_CONTEXT_INVALID);
    }
    library.metadata_client_generation = client_generation;
    Ok(())
}

/// Drops the metadata operations of clients older than `client_generation`; an older client
/// generation changes nothing.
pub fn invalidate_movie_metadata_client_context(
    library: &mut MoviesLibraryContext,
    client_generation: u64,
)
    ensures
        client_generation < old(library).metadata_client_generation ==> *final(library) == *old(
            library,
        ),
        client_generation >= old(library).metadata_client_generation ==> {
            &&& final(library).metadata_client_generation == client_generation
            &&& final(library).metadata_invalidated_from(*old(library))
            &&& final(library).same_library(*old(library))
        },
{
    if client_generation < library.metadata_client_generation {
        return;
    }
    library.metadata_client_generation = client_generation;
    invalidate_movie_metadata_context(library);
}

/// Starts a new metadata operation and returns its generation, which is never zero.
pub fn next_movie_metadata_operation(library: &mut MoviesLibraryContext) -> (generation: u64)
    ensures
        generation != 0,
        generation == (if wrapping_next(old(library).metadata_operation_generation) == 0 {
            1
        } else {
            wrapping_next(old(library).metadata_operation_generation)
        }),
        final(library).metadata_operation_generation == generation,
        final(library).same_library(*old(library)),
        final(library).metadata_client_generation == old(library).metadata_client_generation,
        final(library).metadata_search == old(library).metadata_search,
        final(library).metadata_verification == old(library).metadata_verification,
{
    library.metadata_operation_generation = wrapping_advance(library.metadata_operation_generation);
    if library.metadata_operation_generation == 0 {
        library.metadata_operation_generation = 1;
    }
    library.metadata_operation_generation
}

/// Whether a stored association matches a scanned file of a scan: the same folder and folder
/// identity, and the file's relative path, identity, fingerprint and size.
pub open spec fn spec_association_matches_file(
    association: MovieAssociationView,
    folder: Seq<char>,
    folder_identity: Seq<char>,
    file: TrustedMovieFile,
) -> bool {
    &&& association.folder == folder
    &&& association.folder_identity == folder_identity
    &&& association.relative_path == file.relative_path@
    &&& association.file_identity == file.file_identity@
    &&& association.fingerprint == file.fingerprint@
    &&& association.size == file.size
}

/// Whether `association` matches `file` of `scan`.
pub fn association_matches_file(
    association: &MovieMetadataAssociation,
    scan: &CompletedMovieScan,
    file: &TrustedMovieFile,
) -> (b: bool)
    ensures
        b == spec_association_matches_file(association@, scan.folder@, scan.folder_identity@, *file),
{
    association.folder == scan.folder && association.folder_identity == scan.folder_identity
        && association.relative_path == file.relative_path && association.file_identity
        == file.file_identity && association.fingerprint == file.fingerprint && association.size
        == file.size
}

/// The eight response fields of an association: its TMDB id, IMDb id, title, original title,
/// release date, poster path, overview (absent ones empty) and generation.
pub open spec fn movie_association_fields(a: MovieAssociationView) -> Seq<Seq<char>> {
    seq![
        decimal_string(a.tmdb_movie_id as nat),
        a.imdb_id,
        a.title,
        optional_text(a.original_title),
        optional_text(a.release_date),
        optional_text(a.poster_path),
        optional_text(a.overview),
        decimal_string(a.generation as nat),
    ]
}

/// Encodes the response fields of an association.
pub fn encode_movie_metadata_association(association: &MovieMetadataAssociation) -> (fields: Vec<
    String,
>)
    ensures
        texts(fields@) == movie_association_fields(association@),
{
    let mut fields: Vec<String> = Vec::new();
    fields.push(decimal_string_of(association.tmdb_movie_id));
    fields.push(association.imdb_id.clone());
    fields.push(association.title.clone());
    fields.push(owned(optional_str(&association.original_title)));
    fields.push(owned(optional_str(&association.release_date)));
    fields.push(owned(optional_str(&association.poster_path)));
    fields.push(owned(optional_str(&association.overview)));
    fields.push(decimal_string_of(association.generation));
    assert(texts(fields@) =~= movie_association_fields(association@));
    fields
}

/// The thirteen response fields of a scanned file: its id, path, relative path and size;
/// then `1` and its association's fields, or `0` and eight empty fields.
pub open spec fn movie_file_row(file: TrustedMovieFile) -> Seq<Seq<char>> {
    seq![file.file_id@, file.path@, file.relative_path@, decimal_string(file.size as nat)]
        + match file.association {
        Some(a) => seq!["1"@] + movie_association_fields(a@),
        None => seq!["0"@] + empty_fields(8),
    }
}

/// The rows of scanned files, in order.
pub open spec fn movie_rows(files: Seq<TrustedMovieFile>) -> Seq<Seq<char>>
    decreases files.len(),
{
    if files.len() == 0 {
        Seq::empty()
    } else {
        movie_rows(files.drop_last()) + movie_file_row(files.last())
    }
}

/// The response to a scan: a version line, the association status, the number of files, then
/// a row per file.
pub open spec fn movie_scan_response(scan: CompletedMovieScan) -> Seq<Seq<char>> {
    seq!["movie-library-v1"@, scan.association_status.text(), decimal_string(scan.files@.len())]
        + movie_rows(scan.files@)
}

/// Encodes the response to a scan; every path is text, so this always succeeds.
pub fn encode_movie_scan(scan: &CompletedMovieScan) -> (result: Result<Vec<String>, &'static str>)
    ensures
        result matches Ok(response) && texts(response@) == movie_scan_response(*scan),
{
    let mut response: Vec<String> = Vec::new();
    response.push(owned("movie-library-v1"));
    response.push(owned(scan.association_status.as_str()));
    response.push(decimal_string_of(scan.files.len() as u64));
    proof {
        reveal_strlit("movie-library-v1");
    }
    let ghost header = seq![
        "movie-library-v1"@,
        scan.association_status.text(),
        decimal_string(scan.files@.len()),
    ];
    assert(texts(response@) =~= header);
    let mut i: usize = 0;
    while i < scan.files.len()
        invariant
            i <= scan.files@.len(),
            texts(response@) == header + movie_rows(scan.files@.take(i as int)),
        decreases scan.files@.len() - i,
    {
        let file = &scan.files[i];
        let mut row: Vec<String> = Vec::new();
        row.push(file.file_id.clone());
        row.push(file.path.clone());
        row.push(file.relative_path.clone());
        row.push(decimal_string_of(file.size));
        let ghost head = texts(row@);
        match &file.association {
            Some(association) => {
                row.push(owned("1"));
                proof {
                    reveal_strlit("1");
                }
                push_all(&mut row, encode_movie_metadata_association(association));
            },
            None => {
                row.push(owned("0"));
                proof {
                    reveal_strlit("0");
                }
                push_empty_fields(&mut row, 8);
            },
        }
        assert(texts(row@) =~= movie_file_row(*file));
        push_all(&mut response, row);
        assert(scan.files@.take(i + 1).drop_last() =~= scan.files@.take(i as int));
        assert(scan.files@.take(i + 1).last() == scan.files@[i as int]);
        assert(texts(response@) =~= header + movie_rows(scan.files@.take(i + 1)));
        i = i + 1;
    }
    assert(scan.files@.take(scan.files@.len() as int) =~= scan.files@);
    Ok(response)
}

/// The view of an optional association.
pub open spec fn optional_association_view(a: Option<MovieMetadataAssociation>) -> Option<
    MovieAssociationView,
> {
    match a {
        Some(a) => Some(a@),
        None => None,
    }
}

/// The first of the stored associations that matches `file` of a scan of `folder`.
pub open spec fn first_match(
    associations: Seq<MovieAssociationView>,
    folder: Seq<char>,
    folder_identity: Seq<char>,
    file: TrustedMovieFile,
) -> Option<MovieAssociationView>
    decreases associations.len(),
{
    if associations.len() == 0 {
        None
    } else if spec_association_matches_file(associations[0], folder, folder_identity, file) {
        Some(associations[0])
    } else {
        first_match(associations.drop_first(), folder, folder_identity, file)
    }
}

/// Whether two scanned files agree on everything but their association.
pub open spec fn same_file(x: TrustedMovieFile, y: TrustedMovieFile) -> bool {
    &&& x.file_id == y.file_id
    &&& x.path == y.path
    &&& x.relative_path == y.relative_path
    &&& x.file_identity == y.file_identity
    &&& x.fingerprint == y.fingerprint
    &&& x.size == y.size
}

/// The first stored association that matches `file`.
fn matching_association(
    associations: &Vec<MovieMetadataAssociation>,
    folder: &String,
    folder_identity: &String,
    file: &TrustedMovieFile,
) -> (found: Option<MovieMetadataAssociation>)
    ensures
        optional_association_view(found) == first_match(
            movie_associations_view(associations@),
            folder@,
            folder_identity@,
            *file,
        ),
{
    let ghost views = movie_associations_view(associations@);
    let mut i: usize = 0;
    assert(views.subrange(0, views.len() as int) =~= views);
    while i < associations.len()
        invariant
            views == movie_associations_view(associations@),
            i <= associations@.len(),
            first_match(views, folder@, folder_identity@, *file) == first_match(
                views.subrange(i as int, views.len() as int),
                folder@,
                folder_identity@,
                *file,
            ),
        decreases associations@.len() - i,
    {
        let ghost rest = views.subrange(i as int, views.len() as int);
        assert(rest.drop_first() =~= views.subrange(i + 1, views.len() as int));
        assert(rest[0] == associations@[i as int]@);
        let a = &associations[i];
        if a.folder == *folder && a.folder_identity == *folder_identity && a.relative_path
            == file.relative_path && a.file_identity == file.file_identity && a.fingerprint
            == file.fingerprint && a.size == file.size {
            return Some(copy_movie_association(a));
        }
        i = i + 1;
    }
    None
}

/// The associations that a store read gives, none when it failed, and the status it sets.
pub open spec fn read_outcome(read: Result<Seq<MovieAssociationView>, MovieMetadataReadError>) -> (
    Seq<MovieAssociationView>,
    MovieAssociationStatus,
) {
    match read {
        Ok(v) => (v, MovieAssociationStatus::Ready),
        Err(MovieMetadataReadError::Invalid) => (Seq::empty(), MovieAssociationStatus::Attention),
        Err(MovieMetadataReadError::Unavailable) => (
            Seq::empty(),
            MovieAssociationStatus::Unavailable,
        ),
    }
}

/// Whether `scan` is the completed scan of `files` found in `folder` with `folder_identity`
/// by scan `generation`, with the store read as `file`: each file carries the first stored
/// association that matches it.
pub open spec fn is_movie_scan(
    scan: CompletedMovieScan,
    folder: String,
    folder_identity: String,
    generation: u64,
    files: Seq<TrustedMovieFile>,
    file: MovieMetadataFile,
) -> bool {
    let (stored, status) = read_outcome(spec_read_movie_store(file));
    &&& scan.folder == folder
    &&& scan.folder_identity == folder_identity
    &&& scan.generation == generation
    &&& scan.association_status == status
    &&& scan.files@.len() == files.len()
    &&& forall|k: int|
        0 <= k < files.len() ==> same_file(#[trigger] scan.files@[k], files[k])
            && optional_association_view(scan.files@[k].association) == first_match(
            stored,
            folder@,
            folder_identity@,
            files[k],
        )
}

/// The paths of scanned files.
pub open spec fn movie_file_paths(files: Seq<TrustedMovieFile>) -> Seq<Seq<char>> {
    files.map_values(|f: TrustedMovieFile| f.path@)
}

/// What looking at the movies folder found: it is no longer a reachable canonical
/// directory, it could not be walked, or its identity and movie files.
pub enum MovieFolderScan {
    Unavailable,
    Failed,
    Found(String, Vec<TrustedMovieFile>),
}

/// Scans the configured folder: the generation advances, and the completed scan and the
/// metadata operations are dropped; `scan_folder` lists the folder's media files with its
/// identity (a folder that is no longer a canonical directory is unavailable, one that cannot
/// be walked has failed); `read_store` reads the association store, and
/// each file is given the first stored association that matches it. The scan's paths are
/// remembered, the scan becomes the completed scan, and its response is returned.
pub fn scan_movies_library(
    library: &mut MoviesLibraryContext,
    scan_folder: impl FnOnce(&str, u64) -> MovieFolderScan,
    read_store: impl FnOnce() -> MovieMetadataFile,
) -> (result: Result<Vec<String>, &'static str>)
    requires
        old(library).folder matches Some(f) ==> forall|p: &str, g: u64| p@ == f@ && g == wrapping_next(
            old(library).generation,
        ) ==> call_requires(scan_folder, (p, g)),
        (exists|p: &str, g: u64, id: String, files: Vec<TrustedMovieFile>|
            #[trigger] call_ensures(scan_folder, (p, g), MovieFolderScan::Found(id, files))) ==> call_requires(
            read_store,
            (),
        ),
    ensures
        old(library).folder is None ==> result == Err::<Vec<String>, &'static str>(
            MOVIES_FOLDER_UNAVAILABLE,
        ) && *final(library) == *old(library),
        old(library).folder matches Some(folder) ==> {
            let generation = wrapping_next(old(library).generation);
            &&& final(library).folder == old(library).folder
            &&& final(library).generation == generation
            &&& final(library).metadata_invalidated_from(*old(library))
            &&& final(library).metadata_client_generation == old(library).metadata_client_generation
            &&& exists|p: &str, outcome: MovieFolderScan|
                p@ == folder@ && call_ensures(scan_folder, (p, generation), outcome) && match outcome {
                    MovieFolderScan::Unavailable => result == Err::<Vec<String>, &'static str>(
                        MOVIES_FOLDER_UNAVAILABLE,
                    ) && final(library).completed_scan is None && final(library).movie_paths == old(
                        library,
                    ).movie_paths,
                    MovieFolderScan::Failed => result == Err::<Vec<String>, &'static str>(MOVIES_SCAN_FAILED)
                        && final(library).completed_scan is None && final(library).movie_paths == old(
                        library,
                    ).movie_paths,
                    MovieFolderScan::Found(folder_identity, files) => exists|file: MovieMetadataFile|
                        call_ensures(read_store, (), file) && scan_completed(
                            *final(library),
                            result,
                            folder,
                            folder_identity,
                            generation,
                            files@,
                            file,
                        ),
                }
        },
{
    let folder = match &library.folder {
        None => return Err(MOVIES_FOLDER_UNAVAILABLE),
        Some(folder) => folder.clone(),
    };
    library.generation = wrapping_advance(library.generation);
    let generation = library.generation;
    library.completed_scan = None;
    invalidate_movie_metadata_context(library);
    let ghost start = *library;
    let p: &str = folder.as_str();
    let outcome = scan_folder(p, generation);
    let ghost outcome_copy = outcome;
    let (folder_identity, files) = match outcome {
        MovieFolderScan::Found(folder_identity, files) => (folder_identity, files),
        MovieFolderScan::Unavailable => {
            assert(call_ensures(scan_folder, (p, generation), outcome_copy));
            return Err(MOVIES_FOLDER_UNAVAILABLE);
        },
        MovieFolderScan::Failed => {
            assert(call_ensures(scan_folder, (p, generation), outcome_copy));
            return Err(MOVIES_SCAN_FAILED);
        },
    };
    let file = read_store();
    let ghost file_copy = file;
    let (associations, status) = match read_movie_metadata_associations(file) {
        Ok(v) => (v, MovieAssociationStatus::Ready),
        Err(MovieMetadataReadError::Invalid) => (Vec::new(), MovieAssociationStatus::Attention),
        Err(MovieMetadataReadError::Unavailable) => (Vec::new(), MovieAssociationStatus::Unavailable),
    };
    let ghost stored = movie_associations_view(associations@);
    assert(read_outcome(spec_read_movie_store(file_copy)) == (stored, status));
    let mut matched: Vec<TrustedMovieFile> = Vec::new();
    let mut paths: Vec<String> = Vec::new();
    let mut k: usize = 0;
    while k < files.len()
        invariant
            k <= files@.len(),
            stored == movie_associations_view(associations@),
            matched@.len() == k,
            paths@.len() == k,
            forall|j: int|
                0 <= j < k ==> same_file(#[trigger] matched@[j], files@[j])
                    && optional_association_view(matched@[j].association) == first_match(
                    stored,
                    folder@,
                    folder_identity@,
                    files@[j],
                ),
            texts(paths@) == movie_file_paths(files@.take(k as int)),
        decreases files@.len() - k,
    {
        let f = &files[k];
        let association = matching_association(&associations, &folder, &folder_identity, f);
        matched.push(
            TrustedMovieFile {
                file_id: f.file_id.clone(),
                path: f.path.clone(),
                relative_path: f.relative_path.clone(),
                file_identity: f.file_identity.clone(),
                fingerprint: f.fingerprint.clone(),
                size: f.size,
                association,
            },
        );
        let ghost before = texts(paths@);
        paths.push(f.path.clone());
        assert(texts(paths@) =~= before.push(f.path@));
        assert(movie_file_paths(files@.take(k + 1)) =~= movie_file_paths(files@.take(k as int)).push(
            files@[k as int].path@,
        ));
        k = k + 1;
    }
    assert(files@.take(files@.len() as int) =~= files@);
    let ghost identity_copy = folder_identity;
    let ghost folder_copy = folder;
    let ghost files_copy = files@;
    let scan = CompletedMovieScan {
        folder,
        folder_identity,
        generation,
        files: matched,
        association_status: status,
    };
    let response = match encode_movie_scan(&scan) {
        Ok(response) => response,
        Err(e) => return Err(e),
    };
    library.movie_paths = paths;
    library.completed_scan = Some(scan);
    let result = Ok(response);
    proof {
        assert(call_ensures(scan_folder, (p, generation), outcome_copy));
        assert(scan_completed(
            *library,
            result,
            folder_copy,
            identity_copy,
            generation,
            files_copy,
            file_copy,
        ));
    }
    result
}

/// Whether the library holds the completed scan of `files` and `result` gives its response.
pub open spec fn scan_completed(
    library: MoviesLibraryContext,
    result: Result<Vec<String>, &'static str>,
    folder: String,
    folder_identity: String,
    generation: u64,
    files: Seq<TrustedMovieFile>,
    file: MovieMetadataFile,
) -> bool {
    match (library.completed_scan, result) {
        (Some(scan), Ok(response)) => {
            &&& is_movie_scan(scan, folder, folder_identity, generation, files, file)
            &&& texts(library.movie_paths@) == movie_file_paths(files)
            &&& texts(response@) == movie_scan_response(scan)
        },
        _ => false,
    }
}

/// Why a movie file may not be acted on.
#[derive(Clone, Copy, Debug, PartialEq, Eq)]
pub enum MoviePathValidationError {
    NotFound,
    Unavailable,
    NotFile,
    Unsupported,
    OutsideFolder,
    Stale,
}

impl MoviePathValidationError {
    pub open spec fn spec_open_error_code(self) -> &'static str {
        match self {
            MoviePathValidationError::NotFound => MOVIE_OPEN_NOT_FOUND,
            MoviePathValidationError::Unavailable => MOVIE_OPEN_UNAVAILABLE,
            MoviePathValidationError::NotFile => MOVIE_OPEN_NOT_FILE,
            MoviePathValidationError::Unsupported => MOVIE_OPEN_UNSUPPORTED,
            MoviePathValidationError::OutsideFolder => MOVIE_OPEN_UNAVAILABLE,
            MoviePathValidationError::Stale => MOVIE_OPEN_UNAVAILABLE,
        }
    }

    pub open spec fn spec_reveal_error_code(self) -> &'static str {
        match self {
            MoviePathValidationError::NotFound => MOVIE_REVEAL_NOT_FOUND,
            MoviePathValidationError::Unavailable => MOVIE_REVEAL_UNAVAILABLE,
            MoviePathValidationError::NotFile => MOVIE_REVEAL_NOT_FILE,
            MoviePathValidationError::Unsupported => MOVIE_REVEAL_UNSUPPORTED,
            MoviePathValidationError::OutsideFolder => MOVIE_REVEAL_UNAVAILABLE,
            MoviePathValidationError::Stale => MOVIE_REVEAL_UNAVAILABLE,
        }
    }

    pub open spec fn spec_trash_error_code(self) -> &'static str {
        match self {
            MoviePathValidationError::NotFound => MOVIE_TRASH_NOT_FOUND,
            MoviePathValidationError::Unavailable => MOVIE_TRASH_UNAVAILABLE,
            MoviePathValidationError::NotFile => MOVIE_TRASH_NOT_FILE,
            MoviePathValidationError::Unsupported => MOVIE_TRASH_UNSUPPORTED,
            MoviePathValidationError::OutsideFolder => MOVIE_TRASH_OUTSIDE_FOLDER,
            MoviePathValidationError::Stale => MOVIE_TRASH_STALE,
        }
    }

    /// The error that opening a movie reports; a file outside the folder or one that changed
    /// since the scan is reported as unavailable.
    pub fn open_error_code(self) -> (code: &'static str)
        ensures
            code == self.spec_open_error_code(),
    {
        match self {
            MoviePathValidationError::NotFound => MOVIE_OPEN_NOT_FOUND,
            MoviePathValidationError::Unavailable => MOVIE_OPEN_UNAVAILABLE,
            MoviePathValidationError::NotFile => MOVIE_OPEN_NOT_FILE,
            MoviePathValidationError::Unsupported => MOVIE_OPEN_UNSUPPORTED,
            MoviePathValidationError::OutsideFolder => MOVIE_OPEN_UNAVAILABLE,
            MoviePathValidationError::Stale => MOVIE_OPEN_UNAVAILABLE,
        }
    }

    /// The error that revealing a movie reports.
    pub fn reveal_error_code(self) -> (code: &'static str)
        ensures
            code == self.spec_reveal_error_code(),
    {
        match self {
            MoviePathValidationError::NotFound => MOVIE_REVEAL_NOT_FOUND,
            MoviePathValidationError::Unavailable => MOVIE_REVEAL_UNAVAILABLE,
            MoviePathValidationError::NotFile => MOVIE_REVEAL_NOT_FILE,
            MoviePathValidationError::Unsupported => MOVIE_REVEAL_UNSUPPORTED,
            MoviePathValidationError::OutsideFolder => MOVIE_REVEAL_UNAVAILABLE,
            MoviePathValidationError::Stale => MOVIE_REVEAL_UNAVAILABLE,
        }
    }

    /// The error that trashing a movie reports; each refusal has its own.
    pub fn trash_error_code(self) -> (code: &'static str)
        ensures
            code == self.spec_trash_error_code(),
    {
        match self {
            MoviePathValidationError::NotFound => MOVIE_TRASH_NOT_FOUND,
            MoviePathValidationError::Unavailable => MOVIE_TRASH_UNAVAILABLE,
            MoviePathValidationError::NotFile => MOVIE_TRASH_NOT_FILE,
            MoviePathValidationError::Unsupported => MOVIE_TRASH_UNSUPPORTED,
            MoviePathValidationError::OutsideFolder => MOVIE_TRASH_OUTSIDE_FOLDER,
            MoviePathValidationError::Stale => MOVIE_TRASH_STALE,
        }
    }
}

/// The refusal for an entry that could not be queried.
pub open spec fn movie_metadata_error_spec(failure: TvIoFailure) -> MoviePathValidationError {
    match failure {
        TvIoFailure::NotFound => MoviePathValidationError::NotFound,
        TvIoFailure::Other => MoviePathValidationError::Unavailable,
    }
}

/// The refusal for an entry that could not be queried: missing, or unavailable.
pub fn movie_metadata_error(failure: TvIoFailure) -> (e: MoviePathValidationError)
    ensures
        e == movie_metadata_error_spec(failure),
{
    match failure {
        TvIoFailure::NotFound => MoviePathValidationError::NotFound,
        TvIoFailure::Other => MoviePathValidationError::Unavailable,
    }
}

/// What `metadata` reported for a requested movie file.
#[derive(Clone, Debug, PartialEq, Eq)]
pub struct MovieFileMetadata {
    pub is_file: bool,
    pub size: u64,
    pub fingerprint: String,
}

/// What the file system said about the movies folder and a requested file, gathered before
/// deciding on it.
#[derive(Debug, PartialEq, Eq)]
pub struct MovieFileObservation {
    /// Whether the folder resolves to itself.
    pub folder_canonical: bool,
    /// The identity of the folder, when it could be read.
    pub folder_identity: Option<String>,
    /// The components of the path below the folder; none when it is not below the folder.
    pub components: Option<Vec<TvPathComponent>>,
    pub metadata: Result<MovieFileMetadata, TvIoFailure>,
    pub canonical: Result<TvCanonicalPath, TvIoFailure>,
    /// The identity of the file, when it could be read.
    pub file_identity: Option<String>,
}

/// The refusal that the first failing component of a path gives, if any.
pub open spec fn movie_component_failure(components: Seq<TvPathComponent>) -> Option<
    MoviePathValidationError,
>
    decreases components.len(),
{
    if components.len() == 0 {
        None
    } else {
        match components[0] {
            TvPathComponent::Special => Some(MoviePathValidationError::OutsideFolder),
            TvPathComponent::Normal(TvEntryKind::Failed(f)) => Some(movie_metadata_error_spec(f)),
            TvPathComponent::Normal(TvEntryKind::Symlink) => Some(MoviePathValidationError::NotFile),
            TvPathComponent::Normal(TvEntryKind::Present) => movie_component_failure(
                components.drop_first(),
            ),
        }
    }
}

/// The first scanned file at `path`.
pub open spec fn find_movie(files: Seq<TrustedMovieFile>, path: Seq<char>) -> Option<TrustedMovieFile>
    decreases files.len(),
{
    if files.len() == 0 {
        None
    } else if files[0].path@ == path {
        Some(files[0])
    } else {
        find_movie(files.drop_first(), path)
    }
}

/// Whether `requested` may be acted on as a file of the completed scan: a folder is
/// configured and scanned, the folder resolves to itself with the scanned identity, the path
/// lies below it through plain, existing, non-link components, it is a supported media file
/// that resolves to itself, and it is a scanned file with the scanned size, identity and
/// fingerprint. Gives that file.
pub open spec fn spec_validate_current_movie_file(
    library: MoviesLibraryContext,
    requested: Seq<char>,
    seen: MovieFileObservation,
) -> Result<TrustedMovieFile, MoviePathValidationError> {
    match library.folder {
        None => Err(MoviePathValidationError::Unavailable),
        Some(folder) => match library.completed_scan {
            None => Err(MoviePathValidationError::Stale),
            Some(scan) => if scan.folder@ != folder@ || !seen.folder_canonical || optional_view(
                seen.folder_identity,
            ) != Some(scan.folder_identity@) {
                Err(MoviePathValidationError::Stale)
            } else {
                match seen.components {
                    None => Err(MoviePathValidationError::OutsideFolder),
                    Some(components) => match movie_component_failure(components@) {
                        Some(e) => Err(e),
                        None => match seen.metadata {
                            Err(f) => Err(movie_metadata_error_spec(f)),
                            Ok(metadata) => if !metadata.is_file {
                                Err(MoviePathValidationError::NotFile)
                            } else if !spec_supported_media(requested) {
                                Err(MoviePathValidationError::Unsupported)
                            } else {
                                match seen.canonical {
                                    Err(f) => Err(movie_metadata_error_spec(f)),
                                    Ok(canonical) => if canonical.path@ != requested
                                        || !canonical.within_folder {
                                        Err(MoviePathValidationError::OutsideFolder)
                                    } else {
                                        match find_movie(scan.files@, requested) {
                                            None => Err(MoviePathValidationError::Stale),
                                            Some(trusted) => if trusted.size != metadata.size
                                                || optional_view(seen.file_identity) != Some(
                                                trusted.file_identity@,
                                            ) || metadata.fingerprint@ != trusted.fingerprint@ {
                                                Err(MoviePathValidationError::Stale)
                                            } else {
                                                Ok(trusted)
                                            },
                                        }
                                    },
                                }
                            },
                        },
                    },
                }
            },
        },
    }
}

fn first_movie_component_failure(components: &Vec<TvPathComponent>) -> (failure: Option<
    MoviePathValidationError,
>)
    ensures
        failure == movie_component_failure(components@),
{
    let mut i: usize = 0;
    assert(components@.subrange(0, components@.len() as int) =~= components@);
    while i < components.len()
        invariant
            i <= components@.len(),
            movie_component_failure(components@) == movie_component_failure(
                components@.subrange(i as int, components@.len() as int),
            ),
        decreases components@.len() - i,
    {
        let ghost rest = components@.subrange(i as int, components@.len() as int);
        assert(rest.drop_first() =~= components@.subrange(i + 1, components@.len() as int));
        match components[i] {
            TvPathComponent::Special => {
                return Some(MoviePathValidationError::OutsideFolder);
            },
            TvPathComponent::Normal(TvEntryKind::Failed(f)) => {
                return Some(movie_metadata_error(f));
            },
            TvPathComponent::Normal(TvEntryKind::Symlink) => {
                return Some(MoviePathValidationError::NotFile);
            },
            TvPathComponent::Normal(TvEntryKind::Present) => {},
        }
        i = i + 1;
    }
    assert(components@.subrange(i as int, components@.len() as int).len() == 0);
    None
}

fn find_movie_index(files: &Vec<TrustedMovieFile>, path: &str) -> (index: Option<usize>)
    ensures
        match index {
            Some(k) => k < files@.len() && find_movie(files@, path@) == Some(files@[k as int]),
            None => find_movie(files@, path@) is None,
        },
{
    let mut i: usize = 0;
    assert(files@.subrange(0, files@.len() as int) =~= files@);
    while i < files.len()
        invariant
            i <= files@.len(),
            find_movie(files@, path@) == find_movie(files@.subrange(i as int, files@.len() as int), path@),
        decreases files@.len() - i,
    {
        let ghost rest = files@.subrange(i as int, files@.len() as int);
        assert(rest.drop_first() =~= files@.subrange(i + 1, files@.len() as int));
        assert(rest[0] == files@[i as int]);
        if same_text(files[i].path.as_str(), path) {
            return Some(i);
        }
        i = i + 1;
    }
    assert(files@.subrange(i as int, files@.len() as int).len() == 0);
    None
}

fn optional_equals(value: &Option<String>, text: &String) -> (b: bool)
    ensures
        b == (optional_view(*value) == Some(text@)),
{
    match value {
        Some(v) => *v == *text,
        None => false,
    }
}

/// A copy of a scanned file.
pub(crate) fn copy_movie_file(file: &TrustedMovieFile) -> (copy: TrustedMovieFile)
    ensures
        copy == *file,
{
    TrustedMovieFile {
        file_id: file.file_id.clone(),
        path: file.path.clone(),
        relative_path: file.relative_path.clone(),
        file_identity: file.file_identity.clone(),
        fingerprint: file.fingerprint.clone(),
        size: file.size,
        association: match &file.association {
            Some(a) => Some(copy_movie_association(a)),
            None => None,
        },
    }
}

/// Decides whether `requested` may be acted on as a file of the completed scan, and gives
/// that file.
pub fn validate_current_movie_file(
    library: &MoviesLibraryContext,
    requested: &str,
    seen: &MovieFileObservation,
) -> (result: Result<TrustedMovieFile, MoviePathValidationError>)
    ensures
        result == spec_validate_current_movie_file(*library, requested@, *seen),
{
    let folder = match &library.folder {
        None => return Err(MoviePathValidationError::Unavailable),
        Some(folder) => folder,
    };
    let scan = match &library.completed_scan {
        None => return Err(MoviePathValidationError::Stale),
        Some(scan) => scan,
    };
    if scan.folder != *folder || !seen.folder_canonical || !optional_equals(
        &seen.folder_identity,
        &scan.folder_identity,
    ) {
        return Err(MoviePathValidationError::Stale);
    }
    let components = match &seen.components {
        None => return Err(MoviePathValidationError::OutsideFolder),
        Some(components) => components,
    };
    match first_movie_component_failure(components) {
        Some(e) => return Err(e),
        None => {},
    }
    let metadata = match &seen.metadata {
        Err(f) => return Err(movie_metadata_error(*f)),
        Ok(metadata) => metadata,
    };
    if !metadata.is_file {
        return Err(MoviePathValidationError::NotFile);
    }
    if !is_supported_library_media(requested) {
        return Err(MoviePathValidationError::Unsupported);
    }
    let canonical = match &seen.canonical {
        Err(f) => return Err(movie_metadata_error(*f)),
        Ok(canonical) => canonical,
    };
    if !same_text(canonical.path.as_str(), requested) || !canonical.within_folder {
        return Err(MoviePathValidationError::OutsideFolder);
    }
    let trusted = match find_movie_index(&scan.files, requested) {
        None => return Err(MoviePathValidationError::Stale),
        Some(k) => &scan.files[k],
    };
    if trusted.size != metadata.size || !optional_equals(&seen.file_identity, &trusted.file_identity)
        || metadata.fingerprint != trusted.fingerprint {
        return Err(MoviePathValidationError::Stale);
    }
    Ok(copy_movie_file(trusted))
}

/// Opens a movie: `dispatch` receives exactly `path`, and only when it validates as a file of
/// the completed scan.
pub fn open_movie_request_with(
    path: &str,
    library: &MoviesLibraryContext,
    seen: &MovieFileObservation,
    dispatch: impl FnOnce(&str) -> Result<(), ()>,
) -> (result: Result<(), &'static str>)
    requires
        spec_validate_current_movie_file(*library, path@, *seen) is Ok ==> call_requires(dispatch, (path,)),
    ensures
        spec_validate_current_movie_file(*library, path@, *seen) matches Err(e) ==> result
            == Err::<(), &'static str>(e.spec_open_error_code()),
        spec_validate_current_movie_file(*library, path@, *seen) is Ok ==> exists|
            outcome: Result<(), ()>,
        |
            call_ensures(dispatch, (path,), outcome) && (outcome is Ok ==> result is Ok) && (
            outcome is Err ==> result == Err::<(), &'static str>(MOVIE_OPEN_FAILED)),
{
    match validate_current_movie_file(library, path, seen) {
        Err(e) => return Err(e.open_error_code()),
        Ok(_) => {},
    }
    match dispatch(path) {
        Ok(()) => Ok(()),
        Err(()) => Err(MOVIE_OPEN_FAILED),
    }
}

/// Reveals a movie: `dispatch` receives exactly `path`, and only when it validates as a file
/// of the completed scan.
pub fn reveal_movie_request_with(
    path: &str,
    library: &MoviesLibraryContext,
    seen: &MovieFileObservation,
    dispatch: impl FnOnce(&str) -> Result<(), ()>,
) -> (result: Result<(), &'static str>)
    requires
        spec_validate_current_movie_file(*library, path@, *seen) is Ok ==> call_requires(dispatch, (path,)),
    ensures
        spec_validate_current_movie_file(*library, path@, *seen) matches Err(e) ==> result
            == Err::<(), &'static str>(e.spec_reveal_error_code()),
        spec_validate_current_movie_file(*library, path@, *seen) is Ok ==> exists|
            outcome: Result<(), ()>,
        |
            call_ensures(dispatch, (path,), outcome) && (outcome is Ok ==> result is Ok) && (
            outcome is Err ==> result == Err::<(), &'static str>(MOVIE_REVEAL_FAILED)),
{
    match validate_current_movie_file(library, path, seen) {
        Err(e) => return Err(e.reveal_error_code()),
        Ok(_) => {},
    }
    match dispatch(path) {
        Ok(()) => Ok(()),
        Err(()) => Err(MOVIE_REVEAL_FAILED),
    }
}

/// What the file system said before a movie is moved to the trash: whether the folder is a
/// directory and resolves, whether the path is a regular file (not following a link), and
/// whether the path resolves to somewhere inside the resolved folder.
#[derive(Clone, Copy, Debug, PartialEq, Eq)]
pub struct MovieTrashObservation {
    pub folder_is_directory: bool,
    pub path_is_file: Result<bool, TvIoFailure>,
    pub folder_canonical: bool,
    pub path_within_folder: Result<bool, TvIoFailure>,
}

/// Whether `path` may go to the trash: the folder is a directory, the path a regular
/// supported media file inside the folder, and both the scan that was confirmed and a fresh
/// listing of the folder hold it.
pub open spec fn spec_trash_path_check(
    path: Seq<char>,
    confirmed: Seq<String>,
    current: Seq<String>,
    seen: MovieTrashObservation,
) -> Result<(), &'static str> {
    if !seen.folder_is_directory {
        Err(MOVIE_TRASH_FOLDER_UNAVAILABLE)
    } else {
        match seen.path_is_file {
            Err(f) => Err(movie_metadata_error_spec(f).spec_trash_error_code()),
            Ok(is_file) => if !is_file {
                Err(MOVIE_TRASH_NOT_FILE)
            } else if !spec_supported_media(path) {
                Err(MOVIE_TRASH_UNSUPPORTED)
            } else if !seen.folder_canonical {
                Err(MOVIE_TRASH_FOLDER_UNAVAILABLE)
            } else {
                match seen.path_within_folder {
                    Err(f) => Err(movie_metadata_error_spec(f).spec_trash_error_code()),
                    Ok(within) => if !within {
                        Err(MOVIE_TRASH_OUTSIDE_FOLDER)
                    } else if !texts(confirmed).contains(path) || !texts(current).contains(path) {
                        Err(MOVIE_TRASH_STALE)
                    } else {
                        Ok(())
                    },
                }
            },
        }
    }
}

fn contains_text(values: &Vec<String>, text: &str) -> (b: bool)
    ensures
        b == texts(values@).contains(text@),
{
    let mut i: usize = 0;
    while i < values.len()
        invariant
            i <= values@.len(),
            forall|k: int| 0 <= k < i ==> values@[k]@ != text@,
        decreases values@.len() - i,
    {
        if same_text(values[i].as_str(), text) {
            assert(texts(values@)[i as int] == text@);
            return true;
        }
        i = i + 1;
    }
    proof {
        if texts(values@).contains(text@) {
            let k = choose|k: int| 0 <= k < texts(values@).len() && texts(values@)[k] == text@;
            assert(values@[k]@ == texts(values@)[k]);
        }
    }
    false
}

/// Moves `path` to the trash: `dispatch` receives it only when `spec_trash_path_check`
/// passes; each refusal has its own error.
pub fn trash_movie_path_with(
    path: &str,
    folder: &str,
    confirmed_movie_paths: &Vec<String>,
    current_movie_paths: &Vec<String>,
    seen: &MovieTrashObservation,
    dispatch: impl FnOnce(&str) -> Result<(), ()>,
) -> (result: Result<(), &'static str>)
    requires
        spec_trash_path_check(path@, confirmed_movie_paths@, current_movie_paths@, *seen) is Ok
            ==> call_requires(dispatch, (path,)),
    ensures
        spec_trash_path_check(path@, confirmed_movie_paths@, current_movie_paths@, *seen) matches Err(
            e,
        ) ==> result == Err::<(), &'static str>(e),
        spec_trash_path_check(path@, confirmed_movie_paths@, current_movie_paths@, *seen) is Ok
            ==> exists|outcome: Result<(), ()>|
            call_ensures(dispatch, (path,), outcome) && (outcome is Ok ==> result is Ok) && (
            outcome is Err ==> result == Err::<(), &'static str>(MOVIE_TRASH_FAILED)),
{
    if !seen.folder_is_directory {
        return Err(MOVIE_TRASH_FOLDER_UNAVAILABLE);
    }
    match seen.path_is_file {
        Err(f) => return Err(movie_metadata_error(f).trash_error_code()),
        Ok(false) => return Err(MOVIE_TRASH_NOT_FILE),
        Ok(true) => {},
    }
    if !is_supported_library_media(path) {
        return Err(MOVIE_TRASH_UNSUPPORTED);
    }
    if !seen.folder_canonical {
        return Err(MOVIE_TRASH_FOLDER_UNAVAILABLE);
    }
    match seen.path_within_folder {
        Err(f) => return Err(movie_metadata_error(f).trash_error_code()),
        Ok(false) => return Err(MOVIE_TRASH_OUTSIDE_FOLDER),
        Ok(true) => {},
    }
    if !contains_text(confirmed_movie_paths, path) || !contains_text(current_movie_paths, path) {
        return Err(MOVIE_TRASH_STALE);
    }
    match dispatch(path) {
        Ok(()) => Ok(()),
        Err(()) => Err(MOVIE_TRASH_FAILED),
    }
}

/// A request to trash a movie. The folder and paths that the caller sends are kept for
/// compatibility and never take part in the decision.
pub struct TrashMovieRequest {
    pub path: String,
    pub folder: Option<String>,
    pub library_paths: Option<Vec<String>>,
}

/// Whether a trash request may be dispatched: a folder is configured, the path validates as a
/// file of the completed scan, the folder could be listed afresh, and `spec_trash_path_check`
/// passes against the scanned and the fresh paths.
pub open spec fn spec_trash_request_check(
    library: MoviesLibraryContext,
    path: Seq<char>,
    file_seen: MovieFileObservation,
    current: Result<Vec<String>, &'static str>,
    seen: MovieTrashObservation,
) -> Result<(), &'static str> {
    match library.folder {
        None => Err(MOVIE_TRASH_FOLDER_UNAVAILABLE),
        Some(_) => match spec_validate_current_movie_file(library, path, file_seen) {
            Err(e) => Err(e.spec_trash_error_code()),
            Ok(_) => match current {
                Err(e) => if e@ == MOVIES_FOLDER_UNAVAILABLE@ {
                    Err(MOVIE_TRASH_FOLDER_UNAVAILABLE)
                } else {
                    Err(MOVIE_TRASH_UNAVAILABLE)
                },
                Ok(paths) => spec_trash_path_check(path, library.movie_paths@, paths@, seen),
            },
        },
    }
}

/// The paths other than `path`, in order.
pub open spec fn paths_except(paths: Seq<String>, path: Seq<char>) -> Seq<String>
    decreases paths.len(),
{
    if paths.len() == 0 {
        Seq::empty()
    } else {
        let rest = paths_except(paths.drop_last(), path);
        if paths.last()@ == path {
            rest
        } else {
            rest.push(paths.last())
        }
    }
}

/// The scanned files other than those at `path`, in order.
pub open spec fn movie_files_except(files: Seq<TrustedMovieFile>, path: Seq<char>) -> Seq<
    TrustedMovieFile,
>
    decreases files.len(),
{
    if files.len() == 0 {
        Seq::empty()
    } else {
        let rest = movie_files_except(files.drop_last(), path);
        if files.last().path@ == path {
            rest
        } else {
            rest.push(files.last())
        }
    }
}

fn retain_other_paths(paths: &Vec<String>, path: &str) -> (kept: Vec<String>)
    ensures
        kept@ == paths_except(paths@, path@),
{
    let mut kept: Vec<String> = Vec::new();
    let mut i: usize = 0;
    while i < paths.len()
        invariant
            i <= paths@.len(),
            kept@ == paths_except(paths@.subrange(0, i as int), path@),
        decreases paths@.len() - i,
    {
        let ghost prefix = paths@.subrange(0, i as int + 1);
        assert(prefix.drop_last() =~= paths@.subrange(0, i as int));
        if !same_text(paths[i].as_str(), path) {
            kept.push(paths[i].clone());
        }
        i = i + 1;
    }
    assert(paths@.subrange(0, paths@.len() as int) =~= paths@);
    kept
}

fn retain_other_movies(files: &Vec<TrustedMovieFile>, path: &str) -> (kept: Vec<TrustedMovieFile>)
    ensures
        kept@ == movie_files_except(files@, path@),
{
    let mut kept: Vec<TrustedMovieFile> = Vec::new();
    let mut i: usize = 0;
    while i < files.len()
        invariant
            i <= files@.len(),
            kept@ == movie_files_except(files@.subrange(0, i as int), path@),
        decreases files@.len() - i,
    {
        let ghost prefix = files@.subrange(0, i as int + 1);
        assert(prefix.drop_last() =~= files@.subrange(0, i as int));
        if !same_text(files[i].path.as_str(), path) {
            kept.push(copy_movie_file(&files[i]));
        }
        i = i + 1;
    }
    assert(files@.subrange(0, files@.len() as int) =~= files@);
    kept
}

/// The library after `path` went to the trash: its path and its file leave the scan, and the
/// metadata operations are dropped.
pub open spec fn library_after_trash(
    after: MoviesLibraryContext,
    before: MoviesLibraryContext,
    path: Seq<char>,
) -> bool {
    &&& after.folder == before.folder
    &&& after.generation == before.generation
    &&& after.movie_paths@ == paths_except(before.movie_paths@, path)
    &&& match (after.completed_scan, before.completed_scan) {
        (Some(a), Some(b)) => a == (CompletedMovieScan {
            files: a.files,
            ..b
        }) && a.files@ == movie_files_except(b.files@, path),
        (None, None) => true,
        _ => false,
    }
    &&& after.metadata_invalidated_from(before)
    &&& after.metadata_client_generation == before.metadata_client_generation
}

/// Moves a movie of the completed scan to the trash. The path is handed to `dispatch` only
/// when `spec_trash_request_check` passes (`file_seen` and `seen` are what the file system
/// said, `current` a fresh listing of the folder); each refusal has its own error and changes
/// nothing, and so does a failed dispatch. After the file left, its path and its file leave
/// the scan and the metadata operations are dropped.
pub fn trash_movie_request_with(
    request: TrashMovieRequest,
    library: &mut MoviesLibraryContext,
    file_seen: &MovieFileObservation,
    current: Result<Vec<String>, &'static str>,
    seen: &MovieTrashObservation,
    dispatch: impl FnOnce(&str) -> Result<(), ()>,
) -> (result: Result<(), &'static str>)
    requires
        spec_trash_request_check(*old(library), request.path@, *file_seen, current, *seen) is Ok
            ==> forall|p: &str| p@ == request.path@ ==> call_requires(dispatch, (p,)),
    ensures
        spec_trash_request_check(*old(library), request.path@, *file_seen, current, *seen) matches Err(
            e,
        ) ==> result == Err::<(), &'static str>(e) && *final(library) == *old(library),
        spec_trash_request_check(*old(library), request.path@, *file_seen, current, *seen) is Ok
            ==> exists|p: &str, outcome: Result<(), ()>|
            p@ == request.path@ && call_ensures(dispatch, (p,), outcome) && match outcome {
                Err(_) => result == Err::<(), &'static str>(MOVIE_TRASH_FAILED) && *final(library)
                    == *old(library),
                Ok(_) => result is Ok && library_after_trash(
                    *final(library),
                    *old(library),
                    request.path@,
                ),
            },
{
    let path = request.path.as_str();
    let folder = match &library.folder {
        None => return Err(MOVIE_TRASH_FOLDER_UNAVAILABLE),
        Some(folder) => folder,
    };
    match validate_current_movie_file(library, path, file_seen) {
        Err(e) => return Err(e.trash_error_code()),
        Ok(_) => {},
    }
    let current_paths = match current {
        Ok(paths) => paths,
        Err(e) => {
            if same_text(e, MOVIES_FOLDER_UNAVAILABLE) {
                return Err(MOVIE_TRASH_FOLDER_UNAVAILABLE);
            } else {
                return Err(MOVIE_TRASH_UNAVAILABLE);
            }
        },
    };
    let ghost start = *library;
    match trash_movie_path_with(
        path,
        folder.as_str(),
        &library.movie_paths,
        &current_paths,
        seen,
        dispatch,
    ) {
        Err(e) => return Err(e),
        Ok(()) => {},
    }
    let kept = retain_other_paths(&library.movie_paths, path);
    library.movie_paths = kept;
    let files = match &library.completed_scan {
        Some(scan) => Some(retain_other_movies(&scan.files, path)),
        None => None,
    };
    match files {
        Some(files) => {
            match &mut library.completed_scan {
                Some(scan) => {
                    scan.files = files;
                },
                None => {},
            }
        },
        None => {},
    }
    invalidate_movie_metadata_context(library);
    Ok(())
}

/// The text whose SHA-1 is the id of a scanned movie file.
pub open spec fn movie_file_id_text(
    generation: u64,
    folder_identity: Seq<char>,
    relative_path: Seq<char>,
    file_identity: Seq<char>,
    fingerprint: Seq<char>,
    size: u64,
) -> Seq<char> {
    decimal_string(generation as nat) + seq!['\0'] + folder_identity + seq!['\0'] + relative_path
        + seq!['\0'] + file_identity + seq!['\0'] + fingerprint + seq!['\0'] + decimal_string(
        size as nat,
    )
}

/// The id a scan gives a movie file: the lower-case hexadecimal SHA-1 of the scan generation,
/// the folder identity, the relative path, the file identity, the fingerprint and the size,
/// separated by NUL characters.
pub fn movie_file_id(
    generation: u64,
    folder_identity: &str,
    relative_path: &str,
    file_identity: &str,
    fingerprint: &str,
    size: u64,
) -> (id: String)
    ensures
        id@ == crate::digest::spec_hex_sha1(
            vstd::utf8::encode_utf8(
                movie_file_id_text(
                    generation,
                    folder_identity@,
                    relative_path@,
                    file_identity@,
                    fingerprint@,
                    size,
                ),
            ),
        ),
{
    let mut text = decimal_string_of(generation);
    crate::tmdb_cover::push_separator(&mut text);
    crate::text::push_str(&mut text, folder_identity);
    crate::tmdb_cover::push_separator(&mut text);
    crate::text::push_str(&mut text, relative_path);
    crate::tmdb_cover::push_separator(&mut text);
    crate::text::push_str(&mut text, file_identity);
    crate::tmdb_cover::push_separator(&mut text);
    crate::text::push_str(&mut text, fingerprint);
    crate::tmdb_cover::push_separator(&mut text);
    crate::tmdb_cover::push_number(&mut text, size);
    crate::digest::hex_sha1(text.as_str().as_bytes())
}

} // verus!
