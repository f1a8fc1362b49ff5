use std::cell::RefCell;

use auto_video::movie_matching::{
    begin_movie_metadata_search, begin_movie_metadata_verification, clear_movie_metadata_match_with,
    finish_movie_metadata_search, finish_movie_metadata_verification,
    save_movie_metadata_match_with,
};
use auto_video::movie_store::{
    encoded_movie_metadata_associations, parse_movie_metadata_associations,
    MovieMetadataAssociation, MovieMetadataFile,
};
use auto_video::movies_library::{
    invalidate_movie_metadata_client_context, open_movie_request_with, reveal_movie_request_with,
    scan_movies_library, trash_movie_request_with, MovieAssociationStatus, MovieFolderScan, MovieFileMetadata,
    MovieFileObservation, MovieMetadataCandidate, MoviePathValidationError, MovieTrashObservation,
    MoviesLibraryContext, TrashMovieRequest, TrustedMovieFile, MOVIES_FOLDER_UNAVAILABLE,
    MOVIE_METADATA_CONTEXT_INVALID, MOVIE_METADATA_STALE, MOVIE_OPEN_FAILED, MOVIE_OPEN_NOT_FOUND,
    MOVIE_OPEN_UNAVAILABLE, MOVIE_REVEAL_NOT_FILE, MOVIE_TRASH_FAILED,
    MOVIE_TRASH_FOLDER_UNAVAILABLE, MOVIE_TRASH_OUTSIDE_FOLDER, MOVIE_TRASH_STALE,
    MOVIE_TRASH_UNAVAILABLE,
};
use auto_video::tv_library::{TvCanonicalPath, TvEntryKind, TvIoFailure, TvPathComponent};

const FOLDER: &str = "/movies";
const IDENTITY: &str = "movies-identity";
const TOKEN: &str = "token.value";

fn movie(name: &str, size: u64) -> TrustedMovieFile {
    TrustedMovieFile {
        file_id: format!("id-{name}"),
        path: format!("{FOLDER}/{name}"),
        relative_path: name.to_owned(),
        file_identity: format!("identity-{name}"),
        fingerprint: format!("fingerprint-{name}"),
        size,
        association: None,
    }
}

fn movies() -> Vec<TrustedMovieFile> {
    vec![movie("Heat.mkv", 10), movie("Alien.mp4", 20)]
}

fn unchanged(path: String) -> MovieFileObservation {
    let files = movies();
    let file = files.iter().find(|file| file.path == path).expect("scanned movie");
    MovieFileObservation {
        folder_canonical: true,
        folder_identity: Some(IDENTITY.to_owned()),
        components: Some(vec![TvPathComponent::Normal(TvEntryKind::Present)]),
        metadata: Ok(MovieFileMetadata {
            is_file: true,
            size: file.size,
            fingerprint: file.fingerprint.clone(),
        }),
        canonical: Ok(TvCanonicalPath { path: file.path.clone(), within_folder: true }),
        file_identity: Some(file.file_identity.clone()),
    }
}

fn stored_association(name: &str, size: u64, generation: u64) -> MovieMetadataAssociation {
    MovieMetadataAssociation {
        folder: FOLDER.to_owned(),
        folder_identity: IDENTITY.to_owned(),
        relative_path: name.to_owned(),
        file_identity: format!("identity-{name}"),
        fingerprint: format!("fingerprint-{name}"),
        size,
        tmdb_movie_id: 949,
        imdb_id: "tt0113277".to_owned(),
        title: "Heat".to_owned(),
        original_title: None,
        release_date: Some("1995-12-15".to_owned()),
        poster_path: None,
        overview: None,
        generation,
    }
}

fn scanned(store: MovieMetadataFile) -> MoviesLibraryContext {
    let mut library = MoviesLibraryContext::new();
    library.folder = Some(FOLDER.to_owned());
    scan_movies_library(&mut library, |_, _| MovieFolderScan::Found(IDENTITY.to_owned(), movies()), || store)
        .expect("scan completes");
    library
}

#[test]
fn scan_without_folder_is_unavailable() {
    let mut library = MoviesLibraryContext::new();
    assert_eq!(
        scan_movies_library(&mut library, |_, _| MovieFolderScan::Found(IDENTITY.to_owned(), movies()), || {
            MovieMetadataFile::Missing
        }),
        Err(MOVIES_FOLDER_UNAVAILABLE)
    );
    assert_eq!(library.generation, 0);
}

#[test]
fn scan_binds_only_exactly_matching_stored_associations() {
    let store = encoded_movie_metadata_associations(&[
        stored_association("Heat.mkv", 10, 1),
        stored_association("Alien.mp4", 21, 2),
    ])
    .unwrap();
    let mut library = MoviesLibraryContext::new();
    library.folder = Some(FOLDER.to_owned());
    let response = scan_movies_library(
        &mut library,
        |folder, generation| {
            assert_eq!(folder, FOLDER);
            assert_eq!(generation, 1);
            MovieFolderScan::Found(IDENTITY.to_owned(), movies())
        },
        || MovieMetadataFile::Contents(store),
    )
    .unwrap();
    let scan = library.completed_scan.as_ref().unwrap();
    assert_eq!(scan.association_status, MovieAssociationStatus::Ready);
    assert_eq!(scan.files[0].association.as_ref().unwrap().tmdb_movie_id, 949);
    assert!(scan.files[1].association.is_none());
    assert_eq!(library.movie_paths, vec!["/movies/Heat.mkv".to_owned(), "/movies/Alien.mp4".to_owned()]);
    assert_eq!(response[..3], ["movie-library-v1", "ready", "2"]);
    assert_eq!(
        response[3..16],
        ["id-Heat.mkv", "/movies/Heat.mkv", "Heat.mkv", "10", "1", "949", "tt0113277", "Heat", "", "1995-12-15", "", "", "1"]
    );
    assert_eq!(
        response[16..],
        ["id-Alien.mp4", "/movies/Alien.mp4", "Alien.mp4", "20", "0", "", "", "", "", "", "", "", ""]
    );
}

#[test]
fn keeps_local_movies_available_when_the_store_is_corrupt_or_unreadable() {
    let corrupt = scanned(MovieMetadataFile::Contents(b"garbage".to_vec()));
    let scan = corrupt.completed_scan.unwrap();
    assert_eq!(scan.association_status, MovieAssociationStatus::Attention);
    assert_eq!(scan.files.len(), 2);
    let oversized = scanned(MovieMetadataFile::Oversized);
    assert_eq!(oversized.completed_scan.unwrap().association_status, MovieAssociationStatus::Attention);
    let unreadable = scanned(MovieMetadataFile::Unavailable);
    assert_eq!(unreadable.completed_scan.unwrap().association_status, MovieAssociationStatus::Unavailable);
}

#[test]
fn open_and_reveal_dispatch_only_validated_scanned_files() {
    let library = scanned(MovieMetadataFile::Missing);
    let path = "/movies/Heat.mkv";
    let dispatched = RefCell::new(Vec::new());
    assert_eq!(
        open_movie_request_with(path, &library, &unchanged(path.to_owned()), |p| {
            dispatched.borrow_mut().push(p.to_owned());
            Ok(())
        }),
        Ok(())
    );
    assert_eq!(*dispatched.borrow(), vec![path.to_owned()]);
    assert_eq!(
        open_movie_request_with(path, &library, &unchanged(path.to_owned()), |_| Err(())),
        Err(MOVIE_OPEN_FAILED)
    );
    let mut missing = unchanged(path.to_owned());
    missing.metadata = Err(TvIoFailure::NotFound);
    assert_eq!(open_movie_request_with(path, &library, &missing, |_| Ok(())), Err(MOVIE_OPEN_NOT_FOUND));
    let mut changed = unchanged(path.to_owned());
    changed.file_identity = Some("other".to_owned());
    assert_eq!(open_movie_request_with(path, &library, &changed, |_| Ok(())), Err(MOVIE_OPEN_UNAVAILABLE));
    let mut linked = unchanged(path.to_owned());
    linked.components = Some(vec![TvPathComponent::Normal(TvEntryKind::Symlink)]);
    assert_eq!(reveal_movie_request_with(path, &library, &linked, |_| Ok(())), Err(MOVIE_REVEAL_NOT_FILE));
    assert_eq!(MoviePathValidationError::OutsideFolder.trash_error_code(), MOVIE_TRASH_OUTSIDE_FOLDER);
    assert_eq!(MoviePathValidationError::Stale.open_error_code(), MOVIE_OPEN_UNAVAILABLE);
}

fn ready_trash() -> MovieTrashObservation {
    MovieTrashObservation {
        folder_is_directory: true,
        path_is_file: Ok(true),
        folder_canonical: true,
        path_within_folder: Ok(true),
    }
}

fn request(path: &str) -> TrashMovieRequest {
    TrashMovieRequest { path: path.to_owned(), folder: Some("/elsewhere".to_owned()), library_paths: None }
}

#[test]
fn trashes_the_exact_current_movie_path_after_root_validation() {
    let mut library = scanned(MovieMetadataFile::Missing);
    let path = "/movies/Heat.mkv";
    let current = || Ok(vec![path.to_owned(), "/movies/Alien.mp4".to_owned()]);
    let mut outside = ready_trash();
    outside.path_within_folder = Ok(false);
    assert_eq!(
        trash_movie_request_with(request(path), &mut library, &unchanged(path.to_owned()), current(), &outside, |_| Ok(())),
        Err(MOVIE_TRASH_OUTSIDE_FOLDER)
    );
    let mut gone = ready_trash();
    gone.folder_is_directory = false;
    assert_eq!(
        trash_movie_request_with(request(path), &mut library, &unchanged(path.to_owned()), current(), &gone, |_| Ok(())),
        Err(MOVIE_TRASH_FOLDER_UNAVAILABLE)
    );
    assert_eq!(
        trash_movie_request_with(request(path), &mut library, &unchanged(path.to_owned()), Err(MOVIES_FOLDER_UNAVAILABLE), &ready_trash(), |_| Ok(())),
        Err(MOVIE_TRASH_FOLDER_UNAVAILABLE)
    );
    assert_eq!(
        trash_movie_request_with(request(path), &mut library, &unchanged(path.to_owned()), Err("movies_scan_failed"), &ready_trash(), |_| Ok(())),
        Err(MOVIE_TRASH_UNAVAILABLE)
    );
    assert_eq!(
        trash_movie_request_with(request(path), &mut library, &unchanged(path.to_owned()), Ok(Vec::new()), &ready_trash(), |_| Ok(())),
        Err(MOVIE_TRASH_STALE)
    );
    assert_eq!(
        trash_movie_request_with(request(path), &mut library, &unchanged(path.to_owned()), current(), &ready_trash(), |_| Err(())),
        Err(MOVIE_TRASH_FAILED)
    );
    assert_eq!(library.movie_paths.len(), 2);
    let operation = library.metadata_operation_generation;
    let dispatched = RefCell::new(Vec::new());
    assert_eq!(
        trash_movie_request_with(request(path), &mut library, &unchanged(path.to_owned()), current(), &ready_trash(), |p| {
            dispatched.borrow_mut().push(p.to_owned());
            Ok(())
        }),
        Ok(())
    );
    assert_eq!(*dispatched.borrow(), vec![path.to_owned()]);
    assert_eq!(library.movie_paths, vec!["/movies/Alien.mp4".to_owned()]);
    let scan = library.completed_scan.as_ref().unwrap();
    assert_eq!(scan.files.len(), 1);
    assert_eq!(scan.files[0].path, "/movies/Alien.mp4");
    assert_eq!(library.metadata_operation_generation, operation + 1);
}

fn verified(library: &mut MoviesLibraryContext, file_id: &str) -> String {
    let (generation, request_id) =
        begin_movie_metadata_search(library, file_id, "Heat 1995", TOKEN, unchanged).unwrap();
    let candidate = MovieMetadataCandidate {
        tmdb_movie_id: 949,
        title: "Heat".to_owned(),
        original_title: None,
        release_date: Some("1995-12-15".to_owned()),
        poster_path: Some("/heat.jpg".to_owned()),
    };
    let response =
        finish_movie_metadata_search(library, generation, &request_id, TOKEN, vec![candidate], unchanged)
            .unwrap();
    assert_eq!(response, vec![request_id.clone(), "1".into(), "949".into(), "Heat".into(), "".into(), "1995-12-15".into(), "/heat.jpg".into()]);
    let (verify_generation, search) =
        begin_movie_metadata_verification(library, &request_id, 949, TOKEN, unchanged).unwrap();
    let authority = &search.authority;
    let association = MovieMetadataAssociation {
        folder: authority.folder.clone(),
        folder_identity: authority.folder_identity.clone(),
        relative_path: authority.relative_path.clone(),
        file_identity: authority.file_identity.clone(),
        fingerprint: authority.fingerprint.clone(),
        size: authority.size,
        tmdb_movie_id: 949,
        imdb_id: "tt0113277".to_owned(),
        title: "Heat".to_owned(),
        original_title: None,
        release_date: Some("1995-12-15".to_owned()),
        poster_path: Some("/heat.jpg".to_owned()),
        overview: Some("A heist.".to_owned()),
        generation: 1,
    };
    let response = finish_movie_metadata_verification(
        library, verify_generation, &search, 949, TOKEN, association, unchanged,
    )
    .unwrap();
    assert_eq!(response.len(), 9);
    response[0].clone()
}

#[test]
fn persists_reloads_and_clears_only_an_explicit_verified_match() {
    let mut library = scanned(MovieMetadataFile::Missing);
    let other_folder = MovieMetadataAssociation {
        folder: "/aaa".to_owned(),
        generation: 4,
        ..stored_association("Other.mkv", 5, 4)
    };
    let existing = encoded_movie_metadata_associations(&[other_folder.clone()]).unwrap();
    let verification_id = verified(&mut library, "id-Heat.mkv");
    let written = RefCell::new(Vec::new());
    let response = save_movie_metadata_match_with(
        &mut library,
        &verification_id,
        unchanged,
        || MovieMetadataFile::Contents(existing.clone()),
        |bytes| {
            *written.borrow_mut() = bytes;
            true
        },
    )
    .unwrap();
    assert_eq!(response, ["949", "tt0113277", "Heat", "", "1995-12-15", "/heat.jpg", "A heist.", "5"]);
    let stored = parse_movie_metadata_associations(&written.borrow()).unwrap();
    assert_eq!(stored.len(), 2);
    assert_eq!(stored[0], other_folder);
    assert_eq!(stored[1].relative_path, "Heat.mkv");
    assert_eq!(stored[1].generation, 5);
    let scan = library.completed_scan.as_ref().unwrap();
    assert_eq!(scan.files[0].association.as_ref().unwrap().generation, 5);
    assert!(library.metadata_verification.is_none());
    assert_eq!(
        save_movie_metadata_match_with(&mut library, &verification_id, unchanged, || MovieMetadataFile::Missing, |_| true),
        Err(MOVIE_METADATA_CONTEXT_INVALID)
    );

    let cleared = RefCell::new(Vec::new());
    assert_eq!(
        clear_movie_metadata_match_with(
            &mut library,
            "id-Heat.mkv",
            unchanged,
            || MovieMetadataFile::Contents(written.borrow().clone()),
            |bytes| {
                *cleared.borrow_mut() = bytes;
                true
            },
        ),
        Ok(())
    );
    assert_eq!(parse_movie_metadata_associations(&cleared.borrow()).unwrap(), vec![other_folder]);
    assert!(library.completed_scan.as_ref().unwrap().files[0].association.is_none());
    assert_eq!(
        clear_movie_metadata_match_with(
            &mut library,
            "id-Heat.mkv",
            unchanged,
            || MovieMetadataFile::Contents(cleared.borrow().clone()),
            |_| true,
        ),
        Err(MOVIE_METADATA_STALE)
    );
}

#[test]
fn delayed_client_invalidation_cannot_erase_a_newer_search() {
    let mut library = scanned(MovieMetadataFile::Missing);
    invalidate_movie_metadata_client_context(&mut library, 5);
    begin_movie_metadata_search(&mut library, "id-Heat.mkv", "Heat", TOKEN, unchanged).unwrap();
    invalidate_movie_metadata_client_context(&mut library, 4);
    assert!(library.metadata_search.is_some());
    invalidate_movie_metadata_client_context(&mut library, 5);
    assert!(library.metadata_search.is_none());
}

#[test]
fn rejects_invalid_queries_tokens_and_unknown_files() {
    let mut library = scanned(MovieMetadataFile::Missing);
    assert_eq!(
        begin_movie_metadata_search(&mut library, "id-Heat.mkv", " ", TOKEN, unchanged),
        Err(MOVIE_METADATA_CONTEXT_INVALID)
    );
    assert_eq!(
        begin_movie_metadata_search(&mut library, "id-Heat.mkv", "Heat", " token", unchanged),
        Err(MOVIE_METADATA_CONTEXT_INVALID)
    );
    assert_eq!(
        begin_movie_metadata_search(&mut library, "id-missing", "Heat", TOKEN, unchanged),
        Err(MOVIE_METADATA_STALE)
    );
    let (generation, request_id) =
        begin_movie_metadata_search(&mut library, "id-Heat.mkv", "Heat", TOKEN, unchanged).unwrap();
    assert_eq!(
        finish_movie_metadata_search(&mut library, generation, &request_id, "other.token", Vec::new(), unchanged),
        Err(MOVIE_METADATA_CONTEXT_INVALID)
    );
    assert_eq!(
        begin_movie_metadata_verification(&mut library, &request_id, 949, TOKEN, unchanged).unwrap_err(),
        MOVIE_METADATA_CONTEXT_INVALID
    );
}
