//! Matching a scanned movie file to a TMDB movie: the authority of one file, a search bound
//! to it, the verification of one candidate, and saving or clearing the verified match in the
//! association store.
use vstd::prelude::*;
use vstd::utf8::encode_utf8;

use crate::digest::{hex_sha1, spec_hex_sha1};
use crate::movie_store::{
    copy_movie_association, encoded_movie_metadata_associations, lemma_movie_store_round_trip,
    movie_associations_view, movie_records_distinct, movie_store_ordered, same_movie_path,
    spec_parse_movie_store, read_movie_metadata_associations, sort_movie_associations,
    spec_encoded_movie_store, spec_read_movie_store, MovieMetadataAssociation, MovieMetadataFile,
    MovieMetadataReadError, MOVIE_METADATA_PERSISTENCE_FAILED,
};
use crate::movies_library::{
    encode_movie_metadata_association, movie_association_fields, next_movie_metadata_operation,
    spec_validate_current_movie_file, validate_current_movie_file, wrapping_next,
    MovieFileObservation, MovieMetadataAuthority, MovieMetadataCandidate, MovieMetadataSearch,
    MovieMetadataVerification, MoviesLibraryContext, TrustedMovieFile, CompletedMovieScan,
    MOVIE_METADATA_CONTEXT_INVALID, MOVIE_METADATA_STALE, MOVIE_METADATA_UNAVAILABLE,
    invalidate_movie_metadata_context,
};
use crate::query::{is_valid_tmdb_token, spec_valid_tmdb_token};
use crate::text::{decimal_string, decimal_string_of, push_char, push_str, same_text};
use crate::tv_matching::{acceptable_query, query_acceptable, token_identity};
use crate::tv_scan::{owned, push_all, texts};
use crate::tv_store::{copy_optional_text, optional_str, optional_text, optional_view};

verus! {

/// The first scanned file with identifier `file_id`.
pub open spec fn find_movie_id(files: Seq<TrustedMovieFile>, file_id: Seq<char>) -> Option<
    TrustedMovieFile,
>
    decreases files.len(),
{
    if files.len() == 0 {
        None
    } else if files[0].file_id@ == file_id {
        Some(files[0])
    } else {
        find_movie_id(files.drop_first(), file_id)
    }
}

/// The authority of `file` of `scan`.
pub open spec fn movie_authority_of(scan: CompletedMovieScan, file: TrustedMovieFile) -> MovieMetadataAuthority {
    MovieMetadataAuthority {
        scan_generation: scan.generation,
        folder: scan.folder,
        folder_identity: scan.folder_identity,
        file_id: file.file_id,
        path: file.path,
        relative_path: file.relative_path,
        file_identity: file.file_identity,
        fingerprint: file.fingerprint,
        size: file.size,
    }
}

/// The path that establishing the authority of `file_id` observes, if any.
pub open spec fn authority_path(library: MoviesLibraryContext, file_id: Seq<char>) -> Option<String> {
    match library.completed_scan {
        None => None,
        Some(scan) => match find_movie_id(scan.files@, file_id) {
            None => None,
            Some(file) => Some(file.path),
        },
    }
}

/// What a metadata operation on file `file_id` works for, given what was observed of it: the
/// file must be scanned and still validate; otherwise the operation is stale.
pub open spec fn spec_movie_metadata_authority(
    library: MoviesLibraryContext,
    file_id: Seq<char>,
    seen: MovieFileObservation,
) -> Result<MovieMetadataAuthority, &'static str> {
    match library.completed_scan {
        None => Err(MOVIE_METADATA_STALE),
        Some(scan) => match find_movie_id(scan.files@, file_id) {
            None => Err(MOVIE_METADATA_STALE),
            Some(file) => match spec_validate_current_movie_file(library, file.path@, seen) {
                Err(_) => Err(MOVIE_METADATA_STALE),
                Ok(current) => Ok(movie_authority_of(scan, current)),
            },
        },
    }
}

/// Whether `seen` is what `observe` said of the path that the authority of `file_id`
/// observes (anything, when there is none).
pub open spec fn observed_authority(
    library: MoviesLibraryContext,
    file_id: Seq<char>,
    observe: impl Fn(String) -> MovieFileObservation,
    seen: MovieFileObservation,
) -> bool {
    match authority_path(library, file_id) {
        Some(path) => call_ensures(observe, (path,), seen),
        None => true,
    }
}

fn find_movie_id_index(files: &Vec<TrustedMovieFile>, file_id: &str) -> (index: Option<usize>)
    ensures
        match index {
            Some(k) => k < files@.len() && find_movie_id(files@, file_id@) == Some(files@[k as int]),
            None => find_movie_id(files@, file_id@) is None,
        },
{
    let mut i: usize = 0;
    assert(files@.subrange(0, files@.len() as int) =~= files@);
    while i < files.len()
        invariant
            i <= files@.len(),
            find_movie_id(files@, file_id@) == find_movie_id(
                files@.subrange(i as int, files@.len() as int),
                file_id@,
            ),
        decreases files@.len() - i,
    {
        let ghost rest = files@.subrange(i as int, files@.len() as int);
        assert(rest.drop_first() =~= files@.subrange(i + 1, files@.len() as int));
        assert(rest[0] == files@[i as int]);
        if same_text(files[i].file_id.as_str(), file_id) {
            return Some(i);
        }
        i = i + 1;
    }
    assert(files@.subrange(i as int, files@.len() as int).len() == 0);
    None
}

/// Establishes what a metadata operation on file `file_id` works for, observing the file
/// through `observe`; also gives what was observed.
pub fn movie_metadata_authority(
    library: &MoviesLibraryContext,
    file_id: &str,
    observe: &impl Fn(String) -> MovieFileObservation,
) -> (result: (Result<MovieMetadataAuthority, &'static str>, Ghost<MovieFileObservation>))
    requires
        forall|p: String| call_requires(*observe, (p,)),
    ensures
        observed_authority(*library, file_id@, *observe, result.1@),
        result.0 == spec_movie_metadata_authority(*library, file_id@, result.1@),
{
    let ghost arbitrary: MovieFileObservation = arbitrary();
    let scan = match &library.completed_scan {
        None => return (Err(MOVIE_METADATA_STALE), Ghost(arbitrary)),
        Some(scan) => scan,
    };
    let index = match find_movie_id_index(&scan.files, file_id) {
        None => return (Err(MOVIE_METADATA_STALE), Ghost(arbitrary)),
        Some(index) => index,
    };
    let path = scan.files[index].path.clone();
    let seen = observe(path);
    let current = match validate_current_movie_file(library, scan.files[index].path.as_str(), &seen) {
        Err(_) => return (Err(MOVIE_METADATA_STALE), Ghost(seen)),
        Ok(current) => current,
    };
    (
        Ok(
            MovieMetadataAuthority {
                scan_generation: scan.generation,
                folder: scan.folder.clone(),
                folder_identity: scan.folder_identity.clone(),
                file_id: current.file_id,
                path: current.path,
                relative_path: current.relative_path,
                file_identity: current.file_identity,
                fingerprint: current.fingerprint,
                size: current.size,
            },
        ),
        Ghost(seen),
    )
}

/// Whether `authority` still stands, given what was observed at its path: the completed scan
/// is the one it was made for, and the file at its path validates and still is the file it
/// names. Gives that file.
pub open spec fn spec_validate_movie_authority(
    library: MoviesLibraryContext,
    authority: MovieMetadataAuthority,
    seen: MovieFileObservation,
) -> Result<TrustedMovieFile, &'static str> {
    match library.completed_scan {
        None => Err(MOVIE_METADATA_STALE),
        Some(scan) => if scan.generation != authority.scan_generation || scan.folder@
            != authority.folder@ || scan.folder_identity@ != authority.folder_identity@ {
            Err(MOVIE_METADATA_STALE)
        } else {
            match spec_validate_current_movie_file(library, authority.path@, seen) {
                Err(_) => Err(MOVIE_METADATA_STALE),
                Ok(file) => if file.file_id@ != authority.file_id@ || file.relative_path@
                    != authority.relative_path@ || file.file_identity@ != authority.file_identity@
                    || file.fingerprint@ != authority.fingerprint@ || file.size != authority.size {
                    Err(MOVIE_METADATA_STALE)
                } else {
                    Ok(file)
                },
            }
        },
    }
}

/// Whether `seen` is what `observe` said of the path of `authority`, when the check gets that
/// far (anything otherwise).
pub open spec fn observed_authority_path(
    library: MoviesLibraryContext,
    authority: MovieMetadataAuthority,
    observe: impl Fn(String) -> MovieFileObservation,
    seen: MovieFileObservation,
) -> bool {
    match library.completed_scan {
        Some(scan) => (scan.generation == authority.scan_generation && scan.folder@
            == authority.folder@ && scan.folder_identity@ == authority.folder_identity@) ==> call_ensures(
            observe,
            (authority.path,),
            seen,
        ),
        None => true,
    }
}

/// Checks that `authority` still stands, observing its path through `observe`; also gives
/// what was observed.
pub fn validate_movie_metadata_authority(
    library: &MoviesLibraryContext,
    authority: &MovieMetadataAuthority,
    observe: &impl Fn(String) -> MovieFileObservation,
) -> (result: (Result<TrustedMovieFile, &'static str>, Ghost<MovieFileObservation>))
    requires
        forall|p: String| call_requires(*observe, (p,)),
    ensures
        observed_authority_path(*library, *authority, *observe, result.1@),
        result.0 == spec_validate_movie_authority(*library, *authority, result.1@),
{
    let ghost arbitrary: MovieFileObservation = arbitrary();
    let scan = match &library.completed_scan {
        None => return (Err(MOVIE_METADATA_STALE), Ghost(arbitrary)),
        Some(scan) => scan,
    };
    if scan.generation != authority.scan_generation || scan.folder != authority.folder
        || scan.folder_identity != authority.folder_identity {
        return (Err(MOVIE_METADATA_STALE), Ghost(arbitrary));
    }
    let seen = observe(authority.path.clone());
    let file = match validate_current_movie_file(library, authority.path.as_str(), &seen) {
        Err(_) => return (Err(MOVIE_METADATA_STALE), Ghost(seen)),
        Ok(file) => file,
    };
    if file.file_id != authority.file_id || file.relative_path != authority.relative_path
        || file.file_identity != authority.file_identity || file.fingerprint
        != authority.fingerprint || file.size != authority.size {
        return (Err(MOVIE_METADATA_STALE), Ghost(seen));
    }
    (Ok(file), Ghost(seen))
}

/// The generation that the next metadata operation after `g` gets; never zero.
pub open spec fn next_movie_operation(g: u64) -> u64 {
    if wrapping_next(g) == 0 {
        1
    } else {
        wrapping_next(g)
    }
}

/// The text whose SHA-1 identifies a movie search: its parts separated by NUL characters.
pub open spec fn movie_search_text(
    operation_generation: u64,
    file_id: Seq<char>,
    fingerprint: Seq<char>,
    query: Seq<char>,
    token_identity: Seq<char>,
) -> Seq<char> {
    "search"@ + seq!['\0'] + decimal_string(operation_generation as nat) + seq!['\0'] + file_id
        + seq!['\0'] + fingerprint + seq!['\0'] + query + seq!['\0'] + token_identity
}

/// The text whose SHA-1 identifies a movie verification.
pub open spec fn movie_verification_text(
    operation_generation: u64,
    request_id: Seq<char>,
    tmdb_movie_id: u64,
    imdb_id: Seq<char>,
) -> Seq<char> {
    "verify"@ + seq!['\0'] + decimal_string(operation_generation as nat) + seq!['\0']
        + request_id + seq!['\0'] + decimal_string(tmdb_movie_id as nat) + seq!['\0'] + imdb_id
}

fn movie_search_exec(
    operation_generation: u64,
    file_id: &str,
    fingerprint: &str,
    query: &str,
    token_identity: &str,
) -> (text: String)
    ensures
        text@ == movie_search_text(operation_generation, file_id@, fingerprint@, query@, token_identity@),
{
    let mut text = owned("search");
    proof {
        reveal_strlit("search");
    }
    push_char(&mut text, '\0');
    let number = decimal_string_of(operation_generation);
    push_str(&mut text, number.as_str());
    push_char(&mut text, '\0');
    push_str(&mut text, file_id);
    push_char(&mut text, '\0');
    push_str(&mut text, fingerprint);
    push_char(&mut text, '\0');
    push_str(&mut text, query);
    push_char(&mut text, '\0');
    push_str(&mut text, token_identity);
    text
}

fn movie_verification_exec(
    operation_generation: u64,
    request_id: &str,
    tmdb_movie_id: u64,
    imdb_id: &str,
) -> (text: String)
    ensures
        text@ == movie_verification_text(operation_generation, request_id@, tmdb_movie_id, imdb_id@),
{
    let mut text = owned("verify");
    proof {
        reveal_strlit("verify");
    }
    push_char(&mut text, '\0');
    let number = decimal_string_of(operation_generation);
    push_str(&mut text, number.as_str());
    push_char(&mut text, '\0');
    push_str(&mut text, request_id);
    push_char(&mut text, '\0');
    let id = decimal_string_of(tmdb_movie_id);
    push_str(&mut text, id.as_str());
    push_char(&mut text, '\0');
    push_str(&mut text, imdb_id);
    text
}

/// Whether `search` is the fresh search that `begin_movie_metadata_search` records.
pub open spec fn is_begun_movie_search(
    search: MovieMetadataSearch,
    operation_generation: u64,
    authority: MovieMetadataAuthority,
    query: Seq<char>,
    token: Seq<char>,
) -> bool {
    &&& search.operation_generation == operation_generation
    &&& search.authority == authority
    &&& search.query@ == query
    &&& search.token_identity@ == token_identity(token)
    &&& search.candidates@.len() == 0
    &&& search.request_id@ == spec_hex_sha1(
        encode_utf8(
            movie_search_text(
                operation_generation,
                authority.file_id@,
                authority.fingerprint@,
                query,
                token_identity(token),
            ),
        ),
    )
}

/// The outcome of beginning a search for file `file_id` once the query and token were
/// accepted, given what was observed of the file.
pub open spec fn movie_search_begun(
    before: MoviesLibraryContext,
    after: MoviesLibraryContext,
    result: Result<(u64, String), &'static str>,
    file_id: Seq<char>,
    query: Seq<char>,
    token: Seq<char>,
    seen: MovieFileObservation,
) -> bool {
    match spec_movie_metadata_authority(before, file_id, seen) {
        Err(e) => result == Err::<(u64, String), &'static str>(e) && after == before,
        Ok(authority) => {
            let g = next_movie_operation(before.metadata_operation_generation);
            &&& after.same_library(before)
            &&& after.metadata_client_generation == before.metadata_client_generation
            &&& after.metadata_operation_generation == g
            &&& after.metadata_verification is None
            &&& after.metadata_search matches Some(search) && is_begun_movie_search(
                search,
                g,
                authority,
                query,
                token,
            ) && result == Ok::<(u64, String), &'static str>((g, search.request_id))
        },
    }
}

/// Begins a TMDB search for file `file_id`: the query must be acceptable and the token
/// valid; the file is observed through `observe` and its authority established. The search
/// is recorded with a new operation generation, any pending verification is dropped, and the
/// generation and the search's request id are returned.
pub fn begin_movie_metadata_search(
    library: &mut MoviesLibraryContext,
    file_id: &str,
    query: &str,
    token: &str,
    observe: impl Fn(String) -> MovieFileObservation,
) -> (result: Result<(u64, String), &'static str>)
    requires
        forall|p: String| call_requires(observe, (p,)),
    ensures
        !query_acceptable(query@) || !spec_valid_tmdb_token(token@) ==> result == Err::<
            (u64, String),
            &'static str,
        >(MOVIE_METADATA_CONTEXT_INVALID) && *final(library) == *old(library),
        query_acceptable(query@) && spec_valid_tmdb_token(token@) ==> exists|
            seen: MovieFileObservation,
        |
            observed_authority(*old(library), file_id@, observe, seen) && movie_search_begun(
                *old(library),
                *final(library),
                result,
                file_id@,
                query@,
                token@,
                seen,
            ),
{
    if !acceptable_query(query) || !is_valid_tmdb_token(token) {
        return Err(MOVIE_METADATA_CONTEXT_INVALID);
    }
    let ghost start = *library;
    let (found, seen) = movie_metadata_authority(library, file_id, &observe);
    let authority = match found {
        Err(e) => {
            assert(movie_search_begun(start, *library, Err(e), file_id@, query@, token@, seen@));
            return Err(e);
        },
        Ok(authority) => authority,
    };
    let operation_generation = next_movie_metadata_operation(library);
    let token_id = hex_sha1(token.as_bytes());
    let text = movie_search_exec(
        operation_generation,
        authority.file_id.as_str(),
        authority.fingerprint.as_str(),
        query,
        token_id.as_str(),
    );
    let request_id = hex_sha1(text.as_str().as_bytes());
    let result_id = request_id.clone();
    library.metadata_verification = None;
    library.metadata_search = Some(
        MovieMetadataSearch {
            request_id,
            operation_generation,
            authority,
            query: owned(query),
            token_identity: token_id,
            candidates: Vec::new(),
        },
    );
    let result = Ok((operation_generation, result_id));
    assert(movie_search_begun(start, *library, result, file_id@, query@, token@, seen@));
    result
}

/// The five response fields of a candidate.
pub open spec fn movie_candidate_fields(c: MovieMetadataCandidate) -> Seq<Seq<char>> {
    seq![
        decimal_string(c.tmdb_movie_id as nat),
        c.title@,
        optional_text(optional_view(c.original_title)),
        optional_text(optional_view(c.release_date)),
        optional_text(optional_view(c.poster_path)),
    ]
}

/// The response fields of candidates, five each.
pub open spec fn movie_candidates_fields(candidates: Seq<MovieMetadataCandidate>) -> Seq<Seq<char>>
    decreases candidates.len(),
{
    if candidates.len() == 0 {
        Seq::empty()
    } else {
        movie_candidates_fields(candidates.drop_last()) + movie_candidate_fields(candidates.last())
    }
}

/// The response to a search: its request id, the number of candidates, then each candidate.
pub open spec fn movie_search_response(search: MovieMetadataSearch) -> Seq<Seq<char>> {
    seq![search.request_id@, decimal_string(search.candidates@.len())] + movie_candidates_fields(
        search.candidates@,
    )
}

/// Encodes the response to a search.
pub fn encode_movie_metadata_search(search: &MovieMetadataSearch) -> (response: Vec<String>)
    ensures
        texts(response@) == movie_search_response(*search),
{
    let mut response: Vec<String> = Vec::new();
    response.push(search.request_id.clone());
    response.push(decimal_string_of(search.candidates.len() as u64));
    assert(texts(response@) =~= seq![search.request_id@, decimal_string(search.candidates@.len())]);
    let mut k: usize = 0;
    while k < search.candidates.len()
        invariant
            k <= search.candidates@.len(),
            texts(response@) == seq![search.request_id@, decimal_string(search.candidates@.len())]
                + movie_candidates_fields(search.candidates@.take(k as int)),
        decreases search.candidates@.len() - k,
    {
        let candidate = &search.candidates[k];
        let mut fields: Vec<String> = Vec::new();
        fields.push(decimal_string_of(candidate.tmdb_movie_id));
        fields.push(candidate.title.clone());
        fields.push(owned(optional_str(&candidate.original_title)));
        fields.push(owned(optional_str(&candidate.release_date)));
        fields.push(owned(optional_str(&candidate.poster_path)));
        assert(texts(fields@) =~= movie_candidate_fields(*candidate));
        push_all(&mut response, fields);
        assert(search.candidates@.take(k + 1).drop_last() =~= search.candidates@.take(k as int));
        assert(texts(response@) =~= seq![search.request_id@, decimal_string(search.candidates@.len())]
            + movie_candidates_fields(search.candidates@.take(k + 1)));
        k = k + 1;
    }
    assert(search.candidates@.take(search.candidates@.len() as int) =~= search.candidates@);
    response
}

/// Whether the search in progress is operation `operation_generation` with request id
/// `request_id`, begun with `token`.
pub open spec fn is_pending_movie_search(
    library: MoviesLibraryContext,
    operation_generation: u64,
    request_id: Seq<char>,
    token: Seq<char>,
) -> bool {
    library.metadata_search matches Some(s) && s.operation_generation == operation_generation
        && s.request_id@ == request_id && s.token_identity@ == token_identity(token)
}

/// Finishes the search in progress with the candidates that TMDB returned: the search must be
/// operation `operation_generation` with request id `request_id`, begun with `token`, and its
/// authority must still stand. The candidates are recorded and the response given.
pub fn finish_movie_metadata_search(
    library: &mut MoviesLibraryContext,
    operation_generation: u64,
    request_id: &str,
    token: &str,
    candidates: Vec<MovieMetadataCandidate>,
    observe: impl Fn(String) -> MovieFileObservation,
) -> (result: Result<Vec<String>, &'static str>)
    requires
        forall|p: String| call_requires(observe, (p,)),
    ensures
        !is_pending_movie_search(*old(library), operation_generation, request_id@, token@) ==> result
            == Err::<Vec<String>, &'static str>(MOVIE_METADATA_CONTEXT_INVALID) && *final(library)
            == *old(library),
        is_pending_movie_search(*old(library), operation_generation, request_id@, token@) ==> {
            let s = old(library).metadata_search.unwrap();
            exists|seen: MovieFileObservation|
                observed_authority_path(*old(library), s.authority, observe, seen) && match spec_validate_movie_authority(
                    *old(library),
                    s.authority,
                    seen,
                ) {
                    Err(e) => result == Err::<Vec<String>, &'static str>(e) && *final(library)
                        == *old(library),
                    Ok(_) => {
                        &&& final(library).same_library(*old(library))
                        &&& final(library).metadata_client_generation == old(library).metadata_client_generation
                        &&& final(library).metadata_operation_generation == old(library).metadata_operation_generation
                        &&& final(library).metadata_verification == old(library).metadata_verification
                        &&& final(library).metadata_search == Some(MovieMetadataSearch { candidates, ..s })
                        &&& result matches Ok(response) && texts(response@) == movie_search_response(
                            MovieMetadataSearch { candidates, ..s },
                        )
                    },
                }
        },
{
    let token_id = hex_sha1(token.as_bytes());
    let pending = match &library.metadata_search {
        Some(s) => s.operation_generation == operation_generation && same_text(
            s.request_id.as_str(),
            request_id,
        ) && s.token_identity == token_id,
        None => false,
    };
    if !pending {
        return Err(MOVIE_METADATA_CONTEXT_INVALID);
    }
    let (check, seen) = match &library.metadata_search {
        Some(search) => validate_movie_metadata_authority(library, &search.authority, &observe),
        None => return Err(MOVIE_METADATA_CONTEXT_INVALID),
    };
    match check {
        Err(e) => return Err(e),
        Ok(_) => {},
    }
    let mut search = library.metadata_search.take().unwrap();
    search.candidates = candidates;
    let response = encode_movie_metadata_search(&search);
    library.metadata_search = Some(search);
    Ok(response)
}

fn copy_movie_candidate(c: &MovieMetadataCandidate) -> (copy: MovieMetadataCandidate)
    ensures
        copy == *c,
{
    MovieMetadataCandidate {
        tmdb_movie_id: c.tmdb_movie_id,
        title: c.title.clone(),
        original_title: copy_optional_text(&c.original_title),
        release_date: copy_optional_text(&c.release_date),
        poster_path: copy_optional_text(&c.poster_path),
    }
}

fn copy_movie_authority(a: &MovieMetadataAuthority) -> (copy: MovieMetadataAuthority)
    ensures
        copy == *a,
{
    MovieMetadataAuthority {
        scan_generation: a.scan_generation,
        folder: a.folder.clone(),
        folder_identity: a.folder_identity.clone(),
        file_id: a.file_id.clone(),
        path: a.path.clone(),
        relative_path: a.relative_path.clone(),
        file_identity: a.file_identity.clone(),
        fingerprint: a.fingerprint.clone(),
        size: a.size,
    }
}

/// Whether two searches agree on every field.
pub open spec fn same_movie_search(a: MovieMetadataSearch, b: MovieMetadataSearch) -> bool {
    &&& a.request_id == b.request_id
    &&& a.operation_generation == b.operation_generation
    &&& a.authority == b.authority
    &&& a.query == b.query
    &&& a.token_identity == b.token_identity
    &&& a.candidates@ == b.candidates@
}

fn copy_movie_search(search: &MovieMetadataSearch) -> (copy: MovieMetadataSearch)
    ensures
        same_movie_search(copy, *search),
{
    let mut candidates: Vec<MovieMetadataCandidate> = Vec::new();
    let mut i: usize = 0;
    while i < search.candidates.len()
        invariant
            i <= search.candidates@.len(),
            candidates@ == search.candidates@.take(i as int),
        decreases search.candidates@.len() - i,
    {
        candidates.push(copy_movie_candidate(&search.candidates[i]));
        assert(candidates@ =~= search.candidates@.take(i + 1));
        i = i + 1;
    }
    assert(search.candidates@.take(search.candidates@.len() as int) =~= search.candidates@);
    MovieMetadataSearch {
        request_id: search.request_id.clone(),
        operation_generation: search.operation_generation,
        authority: copy_movie_authority(&search.authority),
        query: search.query.clone(),
        token_identity: search.token_identity.clone(),
        candidates,
    }
}

/// Whether the search in progress has request id `request_id`, was begun with `token` and
/// offered the movie `tmdb_movie_id`.
pub open spec fn offers_movie(
    library: MoviesLibraryContext,
    request_id: Seq<char>,
    token: Seq<char>,
    tmdb_movie_id: u64,
) -> bool {
    library.metadata_search matches Some(s) && s.request_id@ == request_id && s.token_identity@
        == token_identity(token) && exists|k: int|
        0 <= k < s.candidates@.len() && (#[trigger] s.candidates@[k]).tmdb_movie_id == tmdb_movie_id
}

fn offers_movie_exec(candidates: &Vec<MovieMetadataCandidate>, tmdb_movie_id: u64) -> (b: bool)
    ensures
        b == exists|k: int| 0 <= k < candidates@.len() && (#[trigger] candidates@[k]).tmdb_movie_id
            == tmdb_movie_id,
{
    let mut i: usize = 0;
    while i < candidates.len()
        invariant
            i <= candidates@.len(),
            forall|k: int| 0 <= k < i ==> (#[trigger] candidates@[k]).tmdb_movie_id != tmdb_movie_id,
        decreases candidates@.len() - i,
    {
        if candidates[i].tmdb_movie_id == tmdb_movie_id {
            return true;
        }
        i = i + 1;
    }
    false
}

/// Begins verifying candidate `tmdb_movie_id` of the search `matching_request_id`: the id must
/// not be zero and the token valid; the search in progress must be that one, begun with
/// `token`, and offer the candidate; its authority must still stand. A new operation
/// generation is taken, any pending verification is dropped, and the generation and a copy
/// of the search are returned.
pub fn begin_movie_metadata_verification(
    library: &mut MoviesLibraryContext,
    matching_request_id: &str,
    tmdb_movie_id: u64,
    token: &str,
    observe: impl Fn(String) -> MovieFileObservation,
) -> (result: Result<(u64, MovieMetadataSearch), &'static str>)
    requires
        forall|p: String| call_requires(observe, (p,)),
    ensures
        tmdb_movie_id == 0 || !spec_valid_tmdb_token(token@) || !offers_movie(
            *old(library),
            matching_request_id@,
            token@,
            tmdb_movie_id,
        ) ==> result is Err && result->Err_0 == MOVIE_METADATA_CONTEXT_INVALID && *final(library)
            == *old(library),
        tmdb_movie_id != 0 && spec_valid_tmdb_token(token@) && offers_movie(
            *old(library),
            matching_request_id@,
            token@,
            tmdb_movie_id,
        ) ==> {
            let s = old(library).metadata_search.unwrap();
            exists|seen: MovieFileObservation|
                observed_authority_path(*old(library), s.authority, observe, seen) && match spec_validate_movie_authority(
                    *old(library),
                    s.authority,
                    seen,
                ) {
                    Err(e) => result is Err && result->Err_0 == e && *final(library) == *old(library),
                    Ok(_) => {
                        &&& final(library).same_library(*old(library))
                        &&& final(library).metadata_client_generation == old(library).metadata_client_generation
                        &&& final(library).metadata_operation_generation == next_movie_operation(
                            old(library).metadata_operation_generation,
                        )
                        &&& final(library).metadata_search == old(library).metadata_search
                        &&& final(library).metadata_verification is None
                        &&& result matches Ok((g, copy)) && same_movie_search(copy, s)
                            && g == final(library).metadata_operation_generation
                    },
                }
        },
{
    if tmdb_movie_id == 0 || !is_valid_tmdb_token(token) {
        return Err(MOVIE_METADATA_CONTEXT_INVALID);
    }
    let token_id = hex_sha1(token.as_bytes());
    let offered = match &library.metadata_search {
        Some(s) => same_text(s.request_id.as_str(), matching_request_id) && s.token_identity
            == token_id && offers_movie_exec(&s.candidates, tmdb_movie_id),
        None => false,
    };
    if !offered {
        return Err(MOVIE_METADATA_CONTEXT_INVALID);
    }
    let (check, seen) = match &library.metadata_search {
        Some(search) => validate_movie_metadata_authority(library, &search.authority, &observe),
        None => return Err(MOVIE_METADATA_CONTEXT_INVALID),
    };
    match check {
        Err(e) => return Err(e),
        Ok(_) => {},
    }
    let copy = match &library.metadata_search {
        Some(search) => copy_movie_search(search),
        None => return Err(MOVIE_METADATA_CONTEXT_INVALID),
    };
    let operation_generation = next_movie_metadata_operation(library);
    library.metadata_verification = None;
    Ok((operation_generation, copy))
}

/// Whether a verification may finish: operation `operation_generation` is the latest, the
/// search in progress is `search`, `token` began it, and the association is of the movie
/// `tmdb_movie_id`.
pub open spec fn movie_verification_current(
    library: MoviesLibraryContext,
    operation_generation: u64,
    search: MovieMetadataSearch,
    tmdb_movie_id: u64,
    token: Seq<char>,
    association: MovieMetadataAssociation,
) -> bool {
    &&& library.metadata_operation_generation == operation_generation
    &&& library.metadata_search matches Some(current) && current.request_id@ == search.request_id@
    &&& search.token_identity@ == token_identity(token)
    &&& association.tmdb_movie_id == tmdb_movie_id
}

/// Whether `recorded` is the verification of `association` that operation
/// `operation_generation` records for `search`, and `result` gives its id and the
/// association's response fields.
pub open spec fn movie_verification_response(
    recorded: Option<MovieMetadataVerification>,
    result: Result<Vec<String>, &'static str>,
    operation_generation: u64,
    search: MovieMetadataSearch,
    tmdb_movie_id: u64,
    association: MovieMetadataAssociation,
) -> bool {
    match (recorded, result) {
        (Some(v), Ok(response)) => {
            &&& v.verification_id@ == spec_hex_sha1(
                encode_utf8(
                    movie_verification_text(
                        operation_generation,
                        search.request_id@,
                        tmdb_movie_id,
                        association.imdb_id@,
                    ),
                ),
            )
            &&& v.operation_generation == operation_generation
            &&& v.matching_request_id == search.request_id
            &&& v.authority == search.authority
            &&& v.association == association
            &&& v.token_identity == search.token_identity
            &&& texts(response@) == seq![v.verification_id@] + movie_association_fields(association@)
        },
        _ => false,
    }
}

/// Finishes verifying a candidate with the association that TMDB's details gave: the
/// verification must be current and the search's authority must still stand. The
/// verification is recorded, and its id and the association's response fields returned.
pub fn finish_movie_metadata_verification(
    library: &mut MoviesLibraryContext,
    operation_generation: u64,
    search: &MovieMetadataSearch,
    tmdb_movie_id: u64,
    token: &str,
    association: MovieMetadataAssociation,
    observe: impl Fn(String) -> MovieFileObservation,
) -> (result: Result<Vec<String>, &'static str>)
    requires
        forall|p: String| call_requires(observe, (p,)),
    ensures
        !movie_verification_current(*old(library), operation_generation, *search, tmdb_movie_id, token@, association)
            ==> result == Err::<Vec<String>, &'static str>(MOVIE_METADATA_CONTEXT_INVALID)
            && *final(library) == *old(library),
        movie_verification_current(*old(library), operation_generation, *search, tmdb_movie_id, token@, association)
            ==> exists|seen: MovieFileObservation|
            observed_authority_path(*old(library), search.authority, observe, seen) && match spec_validate_movie_authority(
                *old(library),
                search.authority,
                seen,
            ) {
                Err(e) => result == Err::<Vec<String>, &'static str>(e) && *final(library) == *old(
                    library,
                ),
                Ok(_) => {
                    &&& final(library).same_library(*old(library))
                    &&& final(library).metadata_client_generation == old(library).metadata_client_generation
                    &&& final(library).metadata_operation_generation == old(library).metadata_operation_generation
                    &&& final(library).metadata_search == old(library).metadata_search
                    &&& movie_verification_response(
                        final(library).metadata_verification,
                        result,
                        operation_generation,
                        *search,
                        tmdb_movie_id,
                        association,
                    )
                },
            },
{
    let token_id = hex_sha1(token.as_bytes());
    let current = match &library.metadata_search {
        Some(c) => library.metadata_operation_generation == operation_generation && c.request_id
            == search.request_id,
        None => false,
    };
    if !current || search.token_identity != token_id || association.tmdb_movie_id != tmdb_movie_id {
        return Err(MOVIE_METADATA_CONTEXT_INVALID);
    }
    let ghost assoc = association;
    let (check, seen) = validate_movie_metadata_authority(library, &search.authority, &observe);
    match check {
        Err(e) => return Err(e),
        Ok(_) => {},
    }
    let text = movie_verification_exec(
        operation_generation,
        search.request_id.as_str(),
        tmdb_movie_id,
        association.imdb_id.as_str(),
    );
    let verification_id = hex_sha1(text.as_str().as_bytes());
    let mut response: Vec<String> = Vec::new();
    response.push(verification_id.clone());
    assert(texts(response@) =~= seq![verification_id@]);
    push_all(&mut response, encode_movie_metadata_association(&association));
    assert(texts(response@) =~= seq![verification_id@] + movie_association_fields(assoc@));
    library.metadata_verification = Some(
        MovieMetadataVerification {
            verification_id,
            operation_generation,
            matching_request_id: search.request_id.clone(),
            authority: copy_movie_authority(&search.authority),
            association,
            token_identity: search.token_identity.clone(),
        },
    );
    let result = Ok(response);
    assert(movie_verification_response(
        library.metadata_verification,
        result,
        operation_generation,
        *search,
        tmdb_movie_id,
        assoc,
    ));
    result
}

/// The verification waiting with id `verification_id` for the latest operation, if any.
pub open spec fn pending_movie_verification(
    library: MoviesLibraryContext,
    verification_id: Seq<char>,
) -> Option<MovieMetadataVerification> {
    match library.metadata_verification {
        Some(v) => if v.verification_id@ == verification_id && v.operation_generation
            == library.metadata_operation_generation {
            Some(v)
        } else {
            None
        },
        None => None,
    }
}

/// Whether a stored association is of the file that `authority` is for (by path).
pub open spec fn of_authority_path(a: MovieMetadataAssociation, authority: MovieMetadataAuthority) -> bool {
    a.folder@ == authority.folder@ && a.folder_identity@ == authority.folder_identity@
        && a.relative_path@ == authority.relative_path@
}

/// The stored associations of other files than the one `authority` is for, in order.
pub open spec fn other_movie_associations(
    stored: Seq<MovieMetadataAssociation>,
    authority: MovieMetadataAuthority,
) -> Seq<MovieMetadataAssociation>
    decreases stored.len(),
{
    if stored.len() == 0 {
        Seq::empty()
    } else {
        let rest = other_movie_associations(stored.drop_last(), authority);
        if of_authority_path(stored.last(), authority) {
            rest
        } else {
            rest.push(stored.last())
        }
    }
}

/// The largest generation of some associations, or zero.
pub open spec fn max_movie_generation(associations: Seq<MovieMetadataAssociation>) -> nat
    decreases associations.len(),
{
    if associations.len() == 0 {
        0
    } else {
        let m = max_movie_generation(associations.drop_last());
        if associations.last().generation > m {
            associations.last().generation as nat
        } else {
            m
        }
    }
}

/// The error that a failed store read gives.
pub open spec fn movie_read_error(e: MovieMetadataReadError) -> &'static str {
    match e {
        MovieMetadataReadError::Unavailable => MOVIE_METADATA_UNAVAILABLE,
        MovieMetadataReadError::Invalid => MOVIE_METADATA_PERSISTENCE_FAILED,
    }
}

/// The association that saving `association` for `authority` stores: `association` with a
/// generation one above those of the other files' associations.
pub open spec fn movie_saved_association(
    stored: Seq<MovieMetadataAssociation>,
    authority: MovieMetadataAuthority,
    association: MovieMetadataAssociation,
) -> Result<MovieMetadataAssociation, &'static str> {
    let generation = max_movie_generation(other_movie_associations(stored, authority)) + 1;
    if generation > u64::MAX {
        Err(MOVIE_METADATA_PERSISTENCE_FAILED)
    } else {
        Ok(MovieMetadataAssociation { generation: generation as u64, ..association })
    }
}

/// Whether `ordered` holds the associations of `list`, in store order.
pub open spec fn in_store_order(
    ordered: Seq<MovieMetadataAssociation>,
    list: Seq<MovieMetadataAssociation>,
) -> bool {
    movie_store_ordered(movie_associations_view(ordered)) && ordered.to_multiset() == list.to_multiset()
}

/// The index of the first file with identifier `file_id`, or the number of files.
pub open spec fn movie_id_index(files: Seq<TrustedMovieFile>, file_id: Seq<char>, i: int) -> int
    decreases files.len() - i,
{
    if i < 0 || i >= files.len() {
        files.len() as int
    } else if files[i].file_id@ == file_id {
        i
    } else {
        movie_id_index(files, file_id, i + 1)
    }
}

/// What binding file `file_id` of the completed scan to `association` does: without a scan or
/// such a file it is `MOVIE_METADATA_STALE` and nothing changes; otherwise the file carries the
/// association, the metadata operations are dropped, and `ok` fields are returned.
pub open spec fn movie_bound(
    after: MoviesLibraryContext,
    before: MoviesLibraryContext,
    result: Result<Vec<String>, &'static str>,
    file_id: Seq<char>,
    association: Option<MovieMetadataAssociation>,
    fields: Seq<Seq<char>>,
) -> bool {
    match before.completed_scan {
        None => result == Err::<Vec<String>, &'static str>(MOVIE_METADATA_STALE) && after == before,
        Some(scan) => {
            let k = movie_id_index(scan.files@, file_id, 0);
            if k >= scan.files@.len() {
                result == Err::<Vec<String>, &'static str>(MOVIE_METADATA_STALE) && after == before
            } else {
                &&& after.folder == before.folder
                &&& after.movie_paths == before.movie_paths
                &&& after.generation == before.generation
                &&& after.metadata_invalidated_from(before)
                &&& after.metadata_client_generation == before.metadata_client_generation
                &&& after.completed_scan matches Some(a) && a.folder == scan.folder
                    && a.folder_identity == scan.folder_identity && a.generation == scan.generation
                    && a.association_status == scan.association_status && a.files@
                    == scan.files@.update(k, TrustedMovieFile { association, ..scan.files@[k] })
                &&& result matches Ok(response) && texts(response@) == fields
            }
        },
    }
}

/// What writing the associations `ordered` does: a store that cannot be encoded, or a refused
/// write, is `MOVIE_METADATA_PERSISTENCE_FAILED` and changes nothing; an accepted write binds
/// the file of `authority` to `saved`.
pub open spec fn movie_save_write(
    before: MoviesLibraryContext,
    after: MoviesLibraryContext,
    result: Result<Vec<String>, &'static str>,
    authority: MovieMetadataAuthority,
    ordered: Seq<MovieMetadataAssociation>,
    saved: MovieMetadataAssociation,
    write_store: impl FnOnce(Vec<u8>) -> bool,
) -> bool {
    match spec_encoded_movie_store(movie_associations_view(ordered)) {
        None => result == Err::<Vec<String>, &'static str>(MOVIE_METADATA_PERSISTENCE_FAILED)
            && after == before,
        Some(bytes) => exists|w: Vec<u8>, ok: bool|
            w@ == bytes && call_ensures(write_store, (w,), ok) && if !ok {
                result == Err::<Vec<String>, &'static str>(MOVIE_METADATA_PERSISTENCE_FAILED)
                    && after == before
            } else {
                movie_bound(
                    after,
                    before,
                    result,
                    authority.file_id@,
                    Some(saved),
                    movie_association_fields(saved@),
                )
            },
    }
}

/// What saving `v` does once the store read gave `stored`: the other files' associations and
/// the saved one, in store order, are written.
pub open spec fn movie_save_after_read(
    before: MoviesLibraryContext,
    after: MoviesLibraryContext,
    result: Result<Vec<String>, &'static str>,
    v: MovieMetadataVerification,
    stored: Seq<MovieMetadataAssociation>,
    write_store: impl FnOnce(Vec<u8>) -> bool,
) -> bool {
    match movie_saved_association(stored, v.authority, v.association) {
        Err(e) => result == Err::<Vec<String>, &'static str>(e) && after == before,
        Ok(saved) => exists|ordered: Seq<MovieMetadataAssociation>|
            #[trigger] in_store_order(
                ordered,
                other_movie_associations(stored, v.authority).push(saved),
            ) && movie_save_write(
                before,
                after,
                result,
                v.authority,
                ordered,
                saved,
                write_store,
            ),
    }
}

/// Whether saving verification `verification_id` may write the store: the verification is
/// pending, the observed file still validates as its authority, and the store reads.
pub open spec fn movie_save_writes(
    before: MoviesLibraryContext,
    verification_id: Seq<char>,
    observe: impl Fn(String) -> MovieFileObservation,
    read_store: impl FnOnce() -> MovieMetadataFile,
) -> bool {
    match pending_movie_verification(before, verification_id) {
        None => false,
        Some(v) => exists|seen: MovieFileObservation, file: MovieMetadataFile|
            #![trigger observed_authority_path(before, v.authority, observe, seen), call_ensures(read_store, (), file)]
            observed_authority_path(before, v.authority, observe, seen) && spec_validate_movie_authority(
                before,
                v.authority,
                seen,
            ) is Ok && call_ensures(read_store, (), file) && spec_read_movie_store(file) is Ok,
    }
}

/// Whether clearing the match of file `file_id` writes `bytes`: the file's authority stands
/// for what was observed, the store reads and holds its association, and `bytes` encode the
/// other associations.
pub open spec fn movie_clear_writes(
    before: MoviesLibraryContext,
    file_id: Seq<char>,
    observe: impl Fn(String) -> MovieFileObservation,
    read_store: impl FnOnce() -> MovieMetadataFile,
    bytes: Seq<u8>,
) -> bool {
    exists|seen: MovieFileObservation, file: MovieMetadataFile, stored: Seq<MovieMetadataAssociation>|
        #![trigger observed_authority(before, file_id, observe, seen), call_ensures(read_store, (), file), movie_associations_view(stored)]
        observed_authority(before, file_id, observe, seen) && call_ensures(read_store, (), file)
            && spec_read_movie_store(file) == Ok::<_, MovieMetadataReadError>(movie_associations_view(stored))
            && match spec_movie_metadata_authority(before, file_id, seen) {
            Ok(authority) => {
                let kept = movie_associations_without(stored, authority);
                kept.len() != stored.len() && spec_encoded_movie_store(movie_associations_view(kept))
                    == Some(bytes)
            },
            Err(_) => false,
        }
}

/// The outcome of saving verification `verification_id`.
#[verifier::opaque]
pub open spec fn movie_save_outcome(
    before: MoviesLibraryContext,
    after: MoviesLibraryContext,
    result: Result<Vec<String>, &'static str>,
    verification_id: Seq<char>,
    observe: impl Fn(String) -> MovieFileObservation,
    read_store: impl FnOnce() -> MovieMetadataFile,
    write_store: impl FnOnce(Vec<u8>) -> bool,
) -> bool {
    match pending_movie_verification(before, verification_id) {
        None => result == Err::<Vec<String>, &'static str>(MOVIE_METADATA_CONTEXT_INVALID) && after
            == before,
        Some(v) => exists|seen: MovieFileObservation|
            observed_authority_path(before, v.authority, observe, seen) && match spec_validate_movie_authority(
                before,
                v.authority,
                seen,
            ) {
                Err(e) => result == Err::<Vec<String>, &'static str>(e) && after == before,
                Ok(_) => exists|file: MovieMetadataFile|
                    call_ensures(read_store, (), file) && match spec_read_movie_store(file) {
                        Err(e) => result == Err::<Vec<String>, &'static str>(movie_read_error(e))
                            && after == before,
                        Ok(views) => exists|stored: Seq<MovieMetadataAssociation>|
                            views == #[trigger] movie_associations_view(stored)
                                && movie_save_after_read(before, after, result, v, stored, write_store),
                    },
            },
    }
}

fn other_movie_associations_exec(
    stored: Vec<MovieMetadataAssociation>,
    authority: &MovieMetadataAuthority,
) -> (kept: Vec<MovieMetadataAssociation>)
    ensures
        kept@ == other_movie_associations(stored@, *authority),
{
    let mut kept: Vec<MovieMetadataAssociation> = Vec::new();
    let mut i: usize = 0;
    while i < stored.len()
        invariant
            i <= stored@.len(),
            kept@ == other_movie_associations(stored@.subrange(0, i as int), *authority),
        decreases stored@.len() - i,
    {
        let ghost prefix = stored@.subrange(0, i as int + 1);
        assert(prefix.drop_last() =~= stored@.subrange(0, i as int));
        let a = &stored[i];
        if !(a.folder == authority.folder && a.folder_identity == authority.folder_identity
            && a.relative_path == authority.relative_path) {
            kept.push(copy_movie_association(a));
        }
        i = i + 1;
    }
    assert(stored@.subrange(0, stored@.len() as int) =~= stored@);
    kept
}

fn largest_movie_generation(associations: &Vec<MovieMetadataAssociation>) -> (m: u64)
    ensures
        m == max_movie_generation(associations@),
{
    let mut m: u64 = 0;
    let mut i: usize = 0;
    while i < associations.len()
        invariant
            i <= associations@.len(),
            m == max_movie_generation(associations@.subrange(0, i as int)),
        decreases associations@.len() - i,
    {
        let ghost prefix = associations@.subrange(0, i as int + 1);
        assert(prefix.drop_last() =~= associations@.subrange(0, i as int));
        if associations[i].generation > m {
            m = associations[i].generation;
        }
        i = i + 1;
    }
    assert(associations@.subrange(0, associations@.len() as int) =~= associations@);
    m
}

/// Binds file `file_id` of the completed scan to `association` and drops the metadata
/// operations.
fn bind_movie_file(
    library: &mut MoviesLibraryContext,
    file_id: &str,
    association: Option<MovieMetadataAssociation>,
    fields: Vec<String>,
) -> (result: Result<Vec<String>, &'static str>)
    ensures
        movie_bound(*final(library), *old(library), result, file_id@, association, texts(fields@)),
{
    let k = match &library.completed_scan {
        None => return Err(MOVIE_METADATA_STALE),
        Some(scan) => match find_movie_id_index_at(&scan.files, file_id) {
            None => return Err(MOVIE_METADATA_STALE),
            Some(k) => k,
        },
    };
    match &mut library.completed_scan {
        Some(scan) => {
            scan.files[k].association = association;
        },
        None => {},
    }
    invalidate_movie_metadata_context(library);
    Ok(fields)
}

fn find_movie_id_index_at(files: &Vec<TrustedMovieFile>, file_id: &str) -> (index: Option<usize>)
    ensures
        match index {
            Some(k) => k < files@.len() && movie_id_index(files@, file_id@, 0) == k,
            None => movie_id_index(files@, file_id@, 0) == files@.len(),
        },
{
    let mut i: usize = 0;
    while i < files.len()
        invariant
            i <= files@.len(),
            movie_id_index(files@, file_id@, 0) == movie_id_index(files@, file_id@, i as int),
        decreases files@.len() - i,
    {
        if same_text(files[i].file_id.as_str(), file_id) {
            return Some(i);
        }
        i = i + 1;
    }
    None
}

/// Saves the verified match `verification_id`: the verification must be for the latest
/// operation and its authority must still stand; the store is read through `read_store`, the
/// other files' associations are kept, the verified association gets a generation one above
/// theirs, and the list in store order is encoded and handed to `write_store`. Once written,
/// the file carries the association, the metadata operations are dropped, and the
/// association's response fields are returned.
pub fn save_movie_metadata_match_with(
    library: &mut MoviesLibraryContext,
    verification_id: &str,
    observe: impl Fn(String) -> MovieFileObservation,
    read_store: impl FnOnce() -> MovieMetadataFile,
    write_store: impl FnOnce(Vec<u8>) -> bool,
) -> (result: Result<Vec<String>, &'static str>)
    requires
        forall|p: String| call_requires(observe, (p,)),
        pending_movie_verification(*old(library), verification_id@) is Some ==> call_requires(read_store, ()),
        movie_save_writes(*old(library), verification_id@, observe, read_store) ==> forall|bytes: Vec<u8>|
            call_requires(write_store, (bytes,)),
    ensures
        movie_save_outcome(
            *old(library),
            *final(library),
            result,
            verification_id@,
            observe,
            read_store,
            write_store,
        ),
{
    let ghost start = *library;
    let pending = match &library.metadata_verification {
        Some(v) => same_text(v.verification_id.as_str(), verification_id) && v.operation_generation
            == library.metadata_operation_generation,
        None => false,
    };
    if !pending {
        assert(movie_save_outcome(start, *library, Err(MOVIE_METADATA_CONTEXT_INVALID), verification_id@, observe, read_store, write_store)) by {
            reveal(movie_save_outcome);
        }
        return Err(MOVIE_METADATA_CONTEXT_INVALID);
    }
    let ghost v = start.metadata_verification.unwrap();
    let (authority, association) = match &library.metadata_verification {
        Some(v) => (copy_movie_authority(&v.authority), copy_movie_association(&v.association)),
        None => return Err(MOVIE_METADATA_CONTEXT_INVALID),
    };
    let (check, seen) = validate_movie_metadata_authority(library, &authority, &observe);
    if let Err(e) = check {
        assert(movie_save_outcome(start, *library, Err(e), verification_id@, observe, read_store, write_store)) by {
            reveal(movie_save_outcome);
        }
        return Err(e);
    }
    let file = read_store();
    let ghost file_copy = file;
    let stored = match read_movie_metadata_associations(file) {
        Ok(stored) => stored,
        Err(e) => {
            let code = match e {
                MovieMetadataReadError::Unavailable => MOVIE_METADATA_UNAVAILABLE,
                MovieMetadataReadError::Invalid => MOVIE_METADATA_PERSISTENCE_FAILED,
            };
            assert(movie_save_outcome(start, *library, Err(code), verification_id@, observe, read_store, write_store)) by {
                reveal(movie_save_outcome);
                assert(call_ensures(read_store, (), file_copy));
            }
            return Err(code);
        },
    };
    let ghost stored_copy = stored@;
    let kept = other_movie_associations_exec(stored, &authority);
    let m = largest_movie_generation(&kept);
    if m == u64::MAX {
        assert(movie_save_outcome(start, *library, Err(MOVIE_METADATA_PERSISTENCE_FAILED), verification_id@, observe, read_store, write_store)) by {
            reveal(movie_save_outcome);
            assert(call_ensures(read_store, (), file_copy));
        }
        return Err(MOVIE_METADATA_PERSISTENCE_FAILED);
    }
    let ghost kept_copy = kept@;
    let mut saved = association;
    saved.generation = m + 1;
    let ghost saved_ghost = saved;
    let saved_copy = copy_movie_association(&saved);
    let fields = encode_movie_metadata_association(&saved);
    let mut list = kept;
    list.push(saved);
    let ghost list_copy = list@;
    proof {
        assert(list_copy == kept_copy.push(saved_ghost));
        assert(saved_ghost == (MovieMetadataAssociation { generation: (m + 1) as u64, ..v.association }));
        assert(movie_saved_association(stored_copy, v.authority, v.association) == Ok::<
            MovieMetadataAssociation,
            &'static str,
        >(saved_ghost));
        assert(spec_read_movie_store(file_copy) == Ok::<_, MovieMetadataReadError>(
            movie_associations_view(stored_copy),
        ));
    }
    let ordered = sort_movie_associations(list);
    let ghost ordered_copy = ordered@;
    let bytes = match encoded_movie_metadata_associations(ordered.as_slice()) {
        Ok(bytes) => bytes,
        Err(_) => {
            assert(movie_save_outcome(start, *library, Err(MOVIE_METADATA_PERSISTENCE_FAILED), verification_id@, observe, read_store, write_store)) by {
                reveal(movie_save_outcome);
                assert(call_ensures(read_store, (), file_copy));
                assert(in_store_order(ordered_copy, list_copy));
                assert(movie_save_write(start, *library, Err(MOVIE_METADATA_PERSISTENCE_FAILED), v.authority, ordered_copy, saved_ghost, write_store));
                assert(movie_save_after_read(start, *library, Err(MOVIE_METADATA_PERSISTENCE_FAILED), v, stored_copy, write_store));
            }
            return Err(MOVIE_METADATA_PERSISTENCE_FAILED);
        },
    };
    let ghost written = bytes;
    proof {
        assert(spec_read_movie_store(file_copy) is Ok);
        assert(movie_save_writes(start, verification_id@, observe, read_store));
    }
    let ok = write_store(bytes);
    if !ok {
        assert(movie_save_outcome(start, *library, Err(MOVIE_METADATA_PERSISTENCE_FAILED), verification_id@, observe, read_store, write_store)) by {
            reveal(movie_save_outcome);
            assert(call_ensures(read_store, (), file_copy));
            assert(in_store_order(ordered_copy, list_copy));
            assert(call_ensures(write_store, (written,), ok));
            assert(movie_save_write(start, *library, Err(MOVIE_METADATA_PERSISTENCE_FAILED), v.authority, ordered_copy, saved_ghost, write_store));
            assert(movie_save_after_read(start, *library, Err(MOVIE_METADATA_PERSISTENCE_FAILED), v, stored_copy, write_store));
        }
        return Err(MOVIE_METADATA_PERSISTENCE_FAILED);
    }
    let result = bind_movie_file(library, authority.file_id.as_str(), Some(saved_copy), fields);
    assert(movie_save_outcome(start, *library, result, verification_id@, observe, read_store, write_store)) by {
        reveal(movie_save_outcome);
        assert(call_ensures(read_store, (), file_copy));
        assert(in_store_order(ordered_copy, list_copy));
        assert(call_ensures(write_store, (written,), ok));
        assert(movie_save_write(start, *library, result, v.authority, ordered_copy, saved_ghost, write_store));
        assert(movie_save_after_read(start, *library, result, v, stored_copy, write_store));
    }
    result
}

/// Whether a stored association is exactly the one of the file that `authority` is for: its
/// path, identity, fingerprint and size.
pub open spec fn is_authority_association(
    a: MovieMetadataAssociation,
    authority: MovieMetadataAuthority,
) -> bool {
    &&& of_authority_path(a, authority)
    &&& a.file_identity@ == authority.file_identity@
    &&& a.fingerprint@ == authority.fingerprint@
    &&& a.size == authority.size
}

/// The stored associations other than the exact one of `authority`, in order.
pub open spec fn movie_associations_without(
    stored: Seq<MovieMetadataAssociation>,
    authority: MovieMetadataAuthority,
) -> Seq<MovieMetadataAssociation>
    decreases stored.len(),
{
    if stored.len() == 0 {
        Seq::empty()
    } else {
        let rest = movie_associations_without(stored.drop_last(), authority);
        if is_authority_association(stored.last(), authority) {
            rest
        } else {
            rest.push(stored.last())
        }
    }
}

/// What clearing does once the store read gave `stored`: when it held no association of the
/// file it is `MOVIE_METADATA_STALE`; otherwise the rest is encoded and handed to
/// `write_store`, and an accepted write unbinds the file.
pub open spec fn movie_clear_after_read(
    before: MoviesLibraryContext,
    after: MoviesLibraryContext,
    result: Result<(), &'static str>,
    file_id: Seq<char>,
    authority: MovieMetadataAuthority,
    stored: Seq<MovieMetadataAssociation>,
    write_store: impl FnOnce(Vec<u8>) -> bool,
) -> bool {
    let kept = movie_associations_without(stored, authority);
    if kept.len() == stored.len() {
        result == Err::<(), &'static str>(MOVIE_METADATA_STALE) && after == before
    } else {
        match spec_encoded_movie_store(movie_associations_view(kept)) {
            None => result == Err::<(), &'static str>(MOVIE_METADATA_PERSISTENCE_FAILED) && after
                == before,
            Some(bytes) => exists|w: Vec<u8>, ok: bool|
                w@ == bytes && call_ensures(write_store, (w,), ok) && if !ok {
                    result == Err::<(), &'static str>(MOVIE_METADATA_PERSISTENCE_FAILED) && after
                        == before
                } else {
                    exists|r: Result<Vec<String>, &'static str>|
                        movie_bound(after, before, r, file_id, None, Seq::empty()) && (r is Ok
                            <==> result is Ok) && (r matches Err(e) ==> result == Err::<
                            (),
                            &'static str,
                        >(e))
                },
        }
    }
}

/// The outcome of clearing the match of file `file_id`.
#[verifier::opaque]
pub open spec fn movie_clear_outcome(
    before: MoviesLibraryContext,
    after: MoviesLibraryContext,
    result: Result<(), &'static str>,
    file_id: Seq<char>,
    observe: impl Fn(String) -> MovieFileObservation,
    read_store: impl FnOnce() -> MovieMetadataFile,
    write_store: impl FnOnce(Vec<u8>) -> bool,
) -> bool {
    exists|seen: MovieFileObservation|
        observed_authority(before, file_id, observe, seen) && match spec_movie_metadata_authority(
            before,
            file_id,
            seen,
        ) {
            Err(e) => result == Err::<(), &'static str>(e) && after == before,
            Ok(authority) => exists|file: MovieMetadataFile|
                call_ensures(read_store, (), file) && match spec_read_movie_store(file) {
                    Err(e) => result == Err::<(), &'static str>(movie_read_error(e)) && after
                        == before,
                    Ok(views) => exists|stored: Seq<MovieMetadataAssociation>|
                        views == #[trigger] movie_associations_view(stored)
                            && movie_clear_after_read(
                            before,
                            after,
                            result,
                            file_id,
                            authority,
                            stored,
                            write_store,
                        ),
                },
        }
}

fn movie_associations_without_exec(
    stored: &Vec<MovieMetadataAssociation>,
    authority: &MovieMetadataAuthority,
) -> (kept: Vec<MovieMetadataAssociation>)
    ensures
        kept@ == movie_associations_without(stored@, *authority),
{
    let mut kept: Vec<MovieMetadataAssociation> = Vec::new();
    let mut i: usize = 0;
    while i < stored.len()
        invariant
            i <= stored@.len(),
            kept@ == movie_associations_without(stored@.subrange(0, i as int), *authority),
        decreases stored@.len() - i,
    {
        let ghost prefix = stored@.subrange(0, i as int + 1);
        assert(prefix.drop_last() =~= stored@.subrange(0, i as int));
        let a = &stored[i];
        if !(a.folder == authority.folder && a.folder_identity == authority.folder_identity
            && a.relative_path == authority.relative_path && a.file_identity
            == authority.file_identity && a.fingerprint == authority.fingerprint && a.size
            == authority.size) {
            kept.push(copy_movie_association(a));
        }
        i = i + 1;
    }
    assert(stored@.subrange(0, stored@.len() as int) =~= stored@);
    kept
}

/// Clears the match of file `file_id`: the file's authority must stand; the store is read
/// through `read_store` and must hold the file's exact association, which is removed; the
/// rest is encoded and handed to `write_store`. Once written, the file carries no association
/// and the metadata operations are dropped.
pub fn clear_movie_metadata_match_with(
    library: &mut MoviesLibraryContext,
    file_id: &str,
    observe: impl Fn(String) -> MovieFileObservation,
    read_store: impl FnOnce() -> MovieMetadataFile,
    write_store: impl FnOnce(Vec<u8>) -> bool,
) -> (result: Result<(), &'static str>)
    requires
        forall|p: String| call_requires(observe, (p,)),
        (exists|seen: MovieFileObservation|
            #[trigger] observed_authority(*old(library), file_id@, observe, seen)
                && spec_movie_metadata_authority(*old(library), file_id@, seen) is Ok) ==> call_requires(
            read_store,
            (),
        ),
        forall|bytes: Vec<u8>| movie_clear_writes(*old(library), file_id@, observe, read_store, bytes@)
            ==> #[trigger] call_requires(write_store, (bytes,)),
    ensures
        movie_clear_outcome(
            *old(library),
            *final(library),
            result,
            file_id@,
            observe,
            read_store,
            write_store,
        ),
{
    let ghost start = *library;
    let (found, seen) = movie_metadata_authority(library, file_id, &observe);
    let authority = match found {
        Err(e) => {
            assert(movie_clear_outcome(start, *library, Err(e), file_id@, observe, read_store, write_store)) by {
                reveal(movie_clear_outcome);
            }
            return Err(e);
        },
        Ok(authority) => authority,
    };
    let file = read_store();
    let ghost file_copy = file;
    let stored = match read_movie_metadata_associations(file) {
        Ok(stored) => stored,
        Err(e) => {
            let code = match e {
                MovieMetadataReadError::Unavailable => MOVIE_METADATA_UNAVAILABLE,
                MovieMetadataReadError::Invalid => MOVIE_METADATA_PERSISTENCE_FAILED,
            };
            assert(movie_clear_outcome(start, *library, Err(code), file_id@, observe, read_store, write_store)) by {
                reveal(movie_clear_outcome);
                assert(call_ensures(read_store, (), file_copy));
            }
            return Err(code);
        },
    };
    let ghost stored_copy = stored@;
    proof {
        assert(spec_read_movie_store(file_copy) == Ok::<_, MovieMetadataReadError>(
            movie_associations_view(stored_copy),
        ));
    }
    let kept = movie_associations_without_exec(&stored, &authority);
    if kept.len() == stored.len() {
        assert(movie_clear_outcome(start, *library, Err(MOVIE_METADATA_STALE), file_id@, observe, read_store, write_store)) by {
            reveal(movie_clear_outcome);
            assert(call_ensures(read_store, (), file_copy));
            assert(movie_clear_after_read(start, *library, Err(MOVIE_METADATA_STALE), file_id@, authority, stored_copy, write_store));
        }
        return Err(MOVIE_METADATA_STALE);
    }
    let bytes = match encoded_movie_metadata_associations(kept.as_slice()) {
        Ok(bytes) => bytes,
        Err(_) => {
            assert(movie_clear_outcome(start, *library, Err(MOVIE_METADATA_PERSISTENCE_FAILED), file_id@, observe, read_store, write_store)) by {
                reveal(movie_clear_outcome);
                assert(call_ensures(read_store, (), file_copy));
                assert(movie_clear_after_read(start, *library, Err(MOVIE_METADATA_PERSISTENCE_FAILED), file_id@, authority, stored_copy, write_store));
            }
            return Err(MOVIE_METADATA_PERSISTENCE_FAILED);
        },
    };
    let ghost written = bytes;
    proof {
        assert(movie_clear_writes(start, file_id@, observe, read_store, written@));
    }
    let ok = write_store(bytes);
    if !ok {
        assert(movie_clear_outcome(start, *library, Err(MOVIE_METADATA_PERSISTENCE_FAILED), file_id@, observe, read_store, write_store)) by {
            reveal(movie_clear_outcome);
            assert(call_ensures(read_store, (), file_copy));
            assert(call_ensures(write_store, (written,), ok));
            assert(movie_clear_after_read(start, *library, Err(MOVIE_METADATA_PERSISTENCE_FAILED), file_id@, authority, stored_copy, write_store));
        }
        return Err(MOVIE_METADATA_PERSISTENCE_FAILED);
    }
    let bound = bind_movie_file(library, file_id, None, Vec::new());
    let ghost r = bound;
    let result = match bound {
        Ok(_) => Ok(()),
        Err(e) => Err(e),
    };
    assert(movie_clear_outcome(start, *library, result, file_id@, observe, read_store, write_store)) by {
        reveal(movie_clear_outcome);
        assert(call_ensures(read_store, (), file_copy));
        assert(call_ensures(write_store, (written,), ok));
        assert(texts(Seq::<String>::empty()) =~= Seq::<Seq<char>>::empty());
        assert(movie_bound(*library, start, r, file_id@, None, Seq::empty()));
        assert(movie_clear_after_read(start, *library, result, file_id@, authority, stored_copy, write_store));
    }
    result
}

/// Every association of other files is one of the stored ones, and none is of the file of
/// `authority`.
proof fn lemma_other_movie_associations_members(
    stored: Seq<MovieMetadataAssociation>,
    authority: MovieMetadataAuthority,
)
    ensures
        forall|i: int|
            #![trigger other_movie_associations(stored, authority)[i]]
            0 <= i < other_movie_associations(stored, authority).len() ==> !of_authority_path(
                other_movie_associations(stored, authority)[i],
                authority,
            ) && exists|k: int|
                0 <= k < stored.len() && #[trigger] stored[k] == other_movie_associations(
                    stored,
                    authority,
                )[i],
    decreases stored.len(),
{
    if stored.len() > 0 {
        let rest = stored.drop_last();
        lemma_other_movie_associations_members(rest, authority);
        let kept = other_movie_associations(rest, authority);
        assert forall|i: int|
            #![trigger other_movie_associations(stored, authority)[i]]
            0 <= i < other_movie_associations(stored, authority).len() implies !of_authority_path(
            other_movie_associations(stored, authority)[i],
            authority,
        ) && exists|k: int|
            0 <= k < stored.len() && #[trigger] stored[k] == other_movie_associations(
                stored,
                authority,
            )[i] by {
            if i < kept.len() {
                let k = choose|k: int| 0 <= k < rest.len() && #[trigger] rest[k] == kept[i];
                assert(stored[k] == rest[k]);
            } else {
                assert(stored[stored.len() - 1] == stored.last());
            }
        }
    }
}

/// The associations of other files of distinct stored associations are distinct.
proof fn lemma_other_movie_associations_distinct(
    stored: Seq<MovieMetadataAssociation>,
    authority: MovieMetadataAuthority,
)
    requires
        movie_records_distinct(movie_associations_view(stored)),
    ensures
        movie_records_distinct(movie_associations_view(other_movie_associations(stored, authority))),
    decreases stored.len(),
{
    if stored.len() > 0 {
        let rest = stored.drop_last();
        assert(movie_records_distinct(movie_associations_view(rest))) by {
            assert forall|i: int, j: int|
                0 <= i < j < movie_associations_view(rest).len() implies !same_movie_path(
                #[trigger] movie_associations_view(rest)[i],
                #[trigger] movie_associations_view(rest)[j],
            ) && movie_associations_view(rest)[i].generation != movie_associations_view(
                rest,
            )[j].generation by {
                assert(movie_associations_view(rest)[i] == movie_associations_view(stored)[i]);
                assert(movie_associations_view(rest)[j] == movie_associations_view(stored)[j]);
            }
        }
        lemma_other_movie_associations_distinct(rest, authority);
        lemma_other_movie_associations_members(rest, authority);
        let kept = other_movie_associations(rest, authority);
        let all = other_movie_associations(stored, authority);
        if !of_authority_path(stored.last(), authority) {
            assert(all == kept.push(stored.last()));
            assert forall|i: int, j: int|
                0 <= i < j < movie_associations_view(all).len() implies !same_movie_path(
                #[trigger] movie_associations_view(all)[i],
                #[trigger] movie_associations_view(all)[j],
            ) && movie_associations_view(all)[i].generation != movie_associations_view(
                all,
            )[j].generation by {
                if j < kept.len() {
                    assert(movie_associations_view(all)[i] == movie_associations_view(kept)[i]);
                    assert(movie_associations_view(all)[j] == movie_associations_view(kept)[j]);
                } else {
                    let k = choose|k: int| 0 <= k < rest.len() && #[trigger] rest[k] == kept[i];
                    assert(movie_associations_view(stored)[k] == kept[i]@);
                    assert(movie_associations_view(stored)[stored.len() - 1] == stored.last()@);
                }
            }
        } else {
            assert(all == kept);
        }
    }
}

/// No association has a generation above the largest.
proof fn lemma_max_movie_generation(associations: Seq<MovieMetadataAssociation>)
    ensures
        forall|i: int|
            0 <= i < associations.len() ==> (#[trigger] associations[i]).generation
                <= max_movie_generation(associations),
    decreases associations.len(),
{
    if associations.len() > 0 {
        lemma_max_movie_generation(associations.drop_last());
        assert forall|i: int|
            0 <= i < associations.len() implies (#[trigger] associations[i]).generation
                <= max_movie_generation(associations) by {
            if i < associations.len() - 1 {
                assert(associations[i] == associations.drop_last()[i]);
            }
        }
    }
}

/// A rearrangement of distinct associations is distinct.
proof fn lemma_movie_records_permutation(
    list: Seq<MovieMetadataAssociation>,
    ordered: Seq<MovieMetadataAssociation>,
)
    requires
        movie_records_distinct(movie_associations_view(list)),
        ordered.to_multiset() == list.to_multiset(),
    ensures
        movie_records_distinct(movie_associations_view(ordered)),
{
    broadcast use vstd::seq_lib::group_to_multiset_ensures;
    broadcast use vstd::multiset::group_multiset_axioms;

    assert forall|i: int, j: int|
        0 <= i < j < movie_associations_view(ordered).len() implies !same_movie_path(
        #[trigger] movie_associations_view(ordered)[i],
        #[trigger] movie_associations_view(ordered)[j],
    ) && movie_associations_view(ordered)[i].generation != movie_associations_view(
        ordered,
    )[j].generation by {
        let x = ordered[i];
        let y = ordered[j];
        assert(ordered.to_multiset().count(x) > 0);
        assert(ordered.to_multiset().count(y) > 0);
        assert(list.contains(x));
        assert(list.contains(y));
        let p = choose|p: int| 0 <= p < list.len() && list[p] == x;
        let q = choose|q: int| 0 <= q < list.len() && list[q] == y;
        if p == q {
            let rest = ordered.remove(i);
            assert(rest[j - 1] == y);
            assert(rest.contains(x));
            vstd::seq_lib::to_multiset_remove(ordered, i);
            assert(rest.to_multiset().count(x) > 0);
            assert(ordered.to_multiset().count(x) > 1);
            let others = list.remove(p);
            vstd::seq_lib::to_multiset_remove(list, p);
            assert(!others.contains(x)) by {
                if others.contains(x) {
                    let r = choose|r: int| 0 <= r < others.len() && others[r] == x;
                    let r0 = if r < p { r } else { r + 1 };
                    assert(list[r0] == x);
                    assert(movie_associations_view(list)[r0] == movie_associations_view(list)[p]);
                }
            }
            assert(others.to_multiset().count(x) == 0);
            assert(false);
        }
        assert(movie_associations_view(ordered)[i] == movie_associations_view(list)[p]);
        assert(movie_associations_view(ordered)[j] == movie_associations_view(list)[q]);
        if p < q {
            assert(!same_movie_path(movie_associations_view(list)[p], movie_associations_view(list)[q]));
        } else {
            assert(!same_movie_path(movie_associations_view(list)[q], movie_associations_view(list)[p]));
        }
    }
}

/// What a read gives back of a saved movie match: when the stored associations are distinct
/// (as every store that reads is), the verified association is of the file of `authority`,
/// saving plans the other files' associations and the saved one in store order, and that
/// list can be written, reading the written store gives back exactly that list.
pub proof fn law_saved_movie_match_reads_back(
    stored: Seq<MovieMetadataAssociation>,
    authority: MovieMetadataAuthority,
    association: MovieMetadataAssociation,
    ordered: Seq<MovieMetadataAssociation>,
)
    requires
        movie_records_distinct(movie_associations_view(stored)),
        of_authority_path(association, authority),
        movie_saved_association(stored, authority, association) is Ok,
        in_store_order(
            ordered,
            other_movie_associations(stored, authority).push(
                movie_saved_association(stored, authority, association)->Ok_0,
            ),
        ),
        spec_encoded_movie_store(movie_associations_view(ordered)) is Some,
    ensures
        spec_parse_movie_store(spec_encoded_movie_store(movie_associations_view(ordered))->0)
            == Some(movie_associations_view(ordered)),
{
    let kept = other_movie_associations(stored, authority);
    let saved = movie_saved_association(stored, authority, association)->Ok_0;
    let list = kept.push(saved);
    lemma_other_movie_associations_distinct(stored, authority);
    lemma_other_movie_associations_members(stored, authority);
    lemma_max_movie_generation(kept);
    assert forall|i: int, j: int|
        0 <= i < j < movie_associations_view(list).len() implies !same_movie_path(
        #[trigger] movie_associations_view(list)[i],
        #[trigger] movie_associations_view(list)[j],
    ) && movie_associations_view(list)[i].generation != movie_associations_view(list)[j].generation by {
        if j < kept.len() {
            assert(movie_associations_view(list)[i] == movie_associations_view(kept)[i]);
            assert(movie_associations_view(list)[j] == movie_associations_view(kept)[j]);
        } else {
            assert(list[i] == kept[i]);
            assert(list[j] == saved);
            assert(!of_authority_path(kept[i], authority));
            assert(kept[i].generation <= max_movie_generation(kept));
        }
    }
    lemma_movie_records_permutation(list, ordered);
    lemma_movie_store_round_trip(movie_associations_view(ordered));
}

} // verus!
