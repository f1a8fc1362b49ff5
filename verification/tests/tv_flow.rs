use std::cell::RefCell;

use auto_video::json::JsonValue;
use auto_video::tmdb_documents::verified_tv_association;

use auto_video::episode::TvLibraryIdentity;
use auto_video::tv_library::{
    begin_tv_library_scan, clear_tv_metadata_match_with, complete_tv_library_scan,
    invalidate_tv_metadata_client_context, invalidate_tv_metadata_context_for_state,
    open_tv_file_with, reveal_tv_file_with, save_tv_metadata_match_with,
    scan_tv_library_with_metadata, tv_tmdb_cover_authority, TrustedTvFile, TvFolderScan, TvCanonicalPath, TvFileActionObservation,
    TvFileMetadata, TvFileObservation, TvLibraryState, TvMetadataCandidate, TvMetadataStatus,
    TvPathComponent, TvEntryKind, TV_FILE_OPEN_FAILED, TV_FILE_OPEN_NOT_FOUND,
    TV_FILE_OPEN_STALE, TV_FILE_OPEN_UNAVAILABLE, TV_FILE_OPEN_UNSUPPORTED,
    TV_FILE_REVEAL_OUTSIDE_FOLDER, TV_FOLDER_UNAVAILABLE, TV_LIBRARY_STALE,
    TV_METADATA_CONTEXT_INVALID, TV_METADATA_MALFORMED, TV_METADATA_STALE,
};
use auto_video::tv_matching::{
    begin_tv_metadata_search, begin_tv_metadata_verification, encode_tv_metadata_search,
    finish_tv_metadata_search, finish_tv_metadata_verification,
};
use auto_video::tv_store::{
    parse_tv_metadata_associations, TvMetadataAssociation, TvMetadataFile,
};
use auto_video::tv_trash::{
    trash_tv_file_with_download_ownership_and_metadata, TvDownloadOwnership,
    TV_FILE_TRASH_FAILED, TV_FILE_TRASH_OWNED, TV_FILE_TRASH_OWNERSHIP_UNAVAILABLE,
    TV_FILE_TRASH_STALE, TV_FILE_TRASH_UNAVAILABLE,
};

const FOLDER: &str = "/library/tv";
const IDENTITY: &str = "folder-identity";

fn episode(relative: &str, show: &str, season: u64, number: u64) -> TrustedTvFile {
    TrustedTvFile {
        path: format!("{FOLDER}/{relative}"),
        relative_path: relative.to_owned(),
        file_identity: format!("file-{relative}"),
        fingerprint: format!("fingerprint-{relative}"),
        size: 1000 + number,
        modified: 1_700_000_000_000_000_000 + i128::from(number),
        identity: Some(TvLibraryIdentity { show_title: show.to_owned(), season, episode: number }),
    }
}

fn library_files() -> Vec<TrustedTvFile> {
    vec![
        episode("Show/Season 01/Show - S01E01.mkv", "Show", 1, 1),
        episode("Show/Season 01/Show - S01E02.mkv", "Show", 1, 2),
        episode("Other/Other - S02E05.mp4", "Other", 2, 5),
    ]
}

/// What the file system says of a scanned file that did not change.
fn unchanged(file: &TrustedTvFile) -> TvFileObservation {
    TvFileObservation {
        folder_identity: Some(IDENTITY.to_owned()),
        components: Some(vec![TvPathComponent::Normal(TvEntryKind::Present); 3]),
        metadata: Ok(TvFileMetadata {
            is_file: true,
            size: file.size,
            fingerprint: file.fingerprint.clone(),
            modified: Ok(file.modified),
        }),
        canonical: Ok(TvCanonicalPath { path: file.path.clone(), within_folder: true }),
        file_identity: Some(file.file_identity.clone()),
    }
}

fn observe_unchanged(path: String) -> TvFileObservation {
    let files = library_files();
    let file = files.iter().find(|file| file.path == path).expect("observed file is scanned");
    unchanged(file)
}

fn scanned_state(store: TvMetadataFile) -> TvLibraryState {
    let mut state = TvLibraryState::new();
    state.replace_tv_folder(Some(FOLDER.to_owned()));
    scan_tv_library_with_metadata(
        &mut state,
        |_| TvFolderScan::Found(IDENTITY.to_owned(), library_files()),
        || store,
        |_| false,
        |_| true,
    )
    .expect("scan completes");
    state
}

fn group_id_of(state: &TvLibraryState, title: &str) -> String {
    let scan = state.completed_scan.as_ref().expect("scan completed");
    scan.groups.iter().find(|group| group.show_title == title).expect("group exists").group_id.clone()
}

/// Runs a search and a verification for the group of `Show`, and gives the verification id.
fn verified_match(state: &mut TvLibraryState, client: u64) -> String {
    let group_id = group_id_of(state, "Show");
    let (generation, request_id) =
        begin_tv_metadata_search(state, &group_id, "Show", "token", client, observe_unchanged)
            .expect("search begins");
    let candidate = TvMetadataCandidate {
        tmdb_tv_id: 42,
        name: "Show".to_owned(),
        original_name: None,
        first_air_date: Some("2020-01-02".to_owned()),
        poster_path: Some("/poster.jpg".to_owned()),
    };
    let response = finish_tv_metadata_search(
        state,
        generation,
        &request_id,
        "token",
        vec![candidate],
        observe_unchanged,
    )
    .expect("search finishes");
    assert_eq!(response[0], request_id);
    assert_eq!(response[1], "1");
    assert_eq!(response[2..], ["42", "Show", "", "2020-01-02", "/poster.jpg"]);
    let (verify_generation, search) =
        begin_tv_metadata_verification(state, &request_id, 42, "token", client + 1, observe_unchanged)
            .expect("verification begins");
    assert!(verify_generation > generation);
    let association = TvMetadataAssociation {
        folder: search.authority.folder.clone(),
        folder_identity: search.authority.folder_identity.clone(),
        local_show_title: search.authority.local_show_title.clone(),
        anchors: search.authority.anchors.clone(),
        tmdb_tv_id: 42,
        imdb_id: "tt1234567".to_owned(),
        name: "Show".to_owned(),
        original_name: None,
        first_air_date: Some("2020-01-02".to_owned()),
        poster_path: Some("/poster.jpg".to_owned()),
        overview: Some("An exact show.".to_owned()),
        generation: 1,
    };
    let response = finish_tv_metadata_verification(
        state,
        verify_generation,
        &search,
        42,
        "token",
        association,
        observe_unchanged,
    )
    .expect("verification finishes");
    assert_eq!(response.len(), 9);
    assert_eq!(response[1..], ["42", "tt1234567", "Show", "", "2020-01-02", "/poster.jpg", "An exact show.", "1"]);
    response[0].clone()
}

#[test]
fn scan_groups_files_by_show_and_reports_every_file() {
    let state = scanned_state(TvMetadataFile::Missing);
    let scan = state.completed_scan.as_ref().unwrap();
    assert_eq!(scan.metadata_status, TvMetadataStatus::Ready);
    assert_eq!(scan.files, library_files());
    let titles: Vec<&str> = scan.groups.iter().map(|group| group.show_title.as_str()).collect();
    assert_eq!(titles, ["Other", "Show"]);
    assert_eq!(scan.groups[1].member_paths.len(), 2);
    assert!(scan.groups.iter().all(|group| group.group_id.len() == 40));
    assert_ne!(scan.groups[0].group_id, scan.groups[1].group_id);
}

#[test]
fn scan_without_a_folder_is_unavailable_and_a_superseded_scan_is_stale() {
    let mut state = TvLibraryState::new();
    assert_eq!(begin_tv_library_scan(&mut state), Err(TV_FOLDER_UNAVAILABLE));
    state.replace_tv_folder(Some(FOLDER.to_owned()));
    let (folder, generation) = begin_tv_library_scan(&mut state).unwrap();
    assert_eq!(folder, FOLDER);
    let (_, newer) = begin_tv_library_scan(&mut state).unwrap();
    assert_eq!(newer, generation + 1);
    let stale = complete_tv_library_scan(
        &mut state,
        folder.clone(),
        generation,
        IDENTITY.to_owned(),
        library_files(),
        Ok(Vec::new()),
        Vec::new(),
        |_| true,
    );
    assert_eq!(stale, Err(TV_LIBRARY_STALE));
    assert!(state.completed_scan.is_none());
    let response = complete_tv_library_scan(
        &mut state,
        folder,
        newer,
        IDENTITY.to_owned(),
        library_files(),
        Ok(Vec::new()),
        Vec::new(),
        |_| true,
    )
    .unwrap();
    assert_eq!(response[..4], ["tv-library-metadata-v1", "ready", "3", "3"]);
    assert_eq!(response.len(), 4 + 3 * 16);
}

#[test]
fn corrupt_store_marks_attention_and_unreadable_store_marks_unavailable() {
    let corrupt = scanned_state(TvMetadataFile::Contents(b"not a store".to_vec()));
    assert_eq!(corrupt.completed_scan.unwrap().metadata_status, TvMetadataStatus::Attention);
    let unreadable = scanned_state(TvMetadataFile::Unavailable);
    assert_eq!(unreadable.completed_scan.unwrap().metadata_status, TvMetadataStatus::Unavailable);
}

#[test]
fn saved_match_reads_back_from_the_written_store_and_binds_the_group() {
    let mut state = scanned_state(TvMetadataFile::Missing);
    let verification_id = verified_match(&mut state, 1);
    let written = RefCell::new(Vec::new());
    let response = save_tv_metadata_match_with(
        &mut state,
        &verification_id,
        observe_unchanged,
        || TvMetadataFile::Missing,
        |bytes| {
            *written.borrow_mut() = bytes;
            true
        },
    )
    .expect("match is saved");
    assert_eq!(response[0], "42");
    let stored = parse_tv_metadata_associations(&written.borrow()).expect("store reads back");
    assert_eq!(stored.len(), 1);
    assert_eq!(stored[0].tmdb_tv_id, 42);
    assert_eq!(stored[0].imdb_id, "tt1234567");
    assert_eq!(stored[0].local_show_title, "Show");
    assert_eq!(stored[0].anchors.len(), 2);
    assert_eq!(stored[0].generation, 1);
    let scan = state.completed_scan.as_ref().unwrap();
    let group = scan.groups.iter().find(|group| group.show_title == "Show").unwrap();
    assert_eq!(group.association.as_ref().unwrap().tmdb_tv_id, 42);
    assert!(state.metadata_verification.is_none());

    let rescanned = scanned_state(TvMetadataFile::Contents(written.borrow().clone()));
    let scan = rescanned.completed_scan.as_ref().unwrap();
    let group = scan.groups.iter().find(|group| group.show_title == "Show").unwrap();
    assert_eq!(group.association.as_ref().unwrap().imdb_id, "tt1234567");

    let cleared = RefCell::new(Vec::new());
    let mut rescanned = rescanned;
    let show = group_id_of(&rescanned, "Show");
    clear_tv_metadata_match_with(
        &mut rescanned,
        &show,
        observe_unchanged,
        || TvMetadataFile::Contents(written.borrow().clone()),
        |bytes| {
            *cleared.borrow_mut() = bytes;
            true
        },
    )
    .expect("match is cleared");
    assert_eq!(parse_tv_metadata_associations(&cleared.borrow()).unwrap(), Vec::new());
}

#[test]
fn refused_write_keeps_the_group_unbound() {
    let mut state = scanned_state(TvMetadataFile::Missing);
    let verification_id = verified_match(&mut state, 1);
    let result = save_tv_metadata_match_with(
        &mut state,
        &verification_id,
        observe_unchanged,
        || TvMetadataFile::Missing,
        |_| false,
    );
    assert!(result.is_err());
    let scan = state.completed_scan.as_ref().unwrap();
    assert!(scan.groups.iter().all(|group| group.association.is_none()));
}

#[test]
fn folder_change_and_invalidation_prevent_finishing_or_saving() {
    let mut state = scanned_state(TvMetadataFile::Missing);
    let verification_id = verified_match(&mut state, 1);
    invalidate_tv_metadata_context_for_state(&mut state).unwrap();
    assert_eq!(
        save_tv_metadata_match_with(
            &mut state,
            &verification_id,
            observe_unchanged,
            || TvMetadataFile::Missing,
            |_| true,
        ),
        Err(TV_METADATA_CONTEXT_INVALID)
    );

    let mut state = scanned_state(TvMetadataFile::Missing);
    let group_id = group_id_of(&state, "Show");
    let (generation, request_id) =
        begin_tv_metadata_search(&mut state, &group_id, "Show", "token", 5, observe_unchanged).unwrap();
    state.replace_tv_folder(Some("/library/other".to_owned()));
    assert_eq!(
        finish_tv_metadata_search(&mut state, generation, &request_id, "token", Vec::new(), observe_unchanged),
        Err(TV_METADATA_CONTEXT_INVALID)
    );
}

#[test]
fn stale_client_generations_and_bad_queries_are_refused() {
    let mut state = scanned_state(TvMetadataFile::Missing);
    let group_id = group_id_of(&state, "Show");
    assert_eq!(
        begin_tv_metadata_search(&mut state, &group_id, "   ", "token", 1, observe_unchanged),
        Err(TV_METADATA_CONTEXT_INVALID)
    );
    assert_eq!(
        begin_tv_metadata_search(&mut state, &group_id, "Show\u{7}", "token", 1, observe_unchanged),
        Err(TV_METADATA_CONTEXT_INVALID)
    );
    assert_eq!(
        begin_tv_metadata_search(&mut state, &group_id, "Show", " ", 1, observe_unchanged),
        Err(TV_METADATA_CONTEXT_INVALID)
    );
    assert!(begin_tv_metadata_search(&mut state, &group_id, "Show", "token", 3, observe_unchanged).is_ok());
    assert_eq!(
        begin_tv_metadata_search(&mut state, &group_id, "Show", "token", 3, observe_unchanged),
        Err(TV_METADATA_CONTEXT_INVALID)
    );
    assert_eq!(invalidate_tv_metadata_client_context(&mut state, 2), Ok(()));
    assert!(state.metadata_search.is_some());
    assert_eq!(invalidate_tv_metadata_client_context(&mut state, 4), Ok(()));
    assert!(state.metadata_search.is_none());
    assert_eq!(state.metadata_client_generation, 4);
}

#[test]
fn changed_member_makes_the_search_stale() {
    let mut state = scanned_state(TvMetadataFile::Missing);
    let group_id = group_id_of(&state, "Show");
    let changed = |path: String| {
        let mut seen = observe_unchanged(path);
        if let Ok(metadata) = seen.metadata.as_mut() {
            metadata.size += 1;
        }
        seen
    };
    assert_eq!(
        begin_tv_metadata_search(&mut state, &group_id, "Show", "token", 1, changed),
        Err(auto_video::tv_library::TV_METADATA_STALE)
    );
    assert_eq!(state.metadata_client_generation, 1);
}

#[test]
fn search_response_lists_every_candidate() {
    let mut state = scanned_state(TvMetadataFile::Missing);
    let group_id = group_id_of(&state, "Show");
    begin_tv_metadata_search(&mut state, &group_id, "Show", "token", 1, observe_unchanged).unwrap();
    let search = state.metadata_search.as_ref().unwrap();
    assert_eq!(encode_tv_metadata_search(search), vec![search.request_id.clone(), "0".to_owned()]);
}

fn action_observation(path: &str) -> TvFileActionObservation {
    TvFileActionObservation { folder_ready: true, file: observe_unchanged(path.to_owned()) }
}

#[test]
fn file_actions_dispatch_only_the_exact_scanned_file() {
    let state = scanned_state(TvMetadataFile::Missing);
    let files = library_files();
    let path = files[0].path.as_str();
    let dispatched = RefCell::new(Vec::new());
    let result = open_tv_file_with(path, &state, &action_observation(path), |p| {
        dispatched.borrow_mut().push(p.to_owned());
        Ok(())
    });
    assert_eq!(result, Ok(()));
    assert_eq!(*dispatched.borrow(), vec![path.to_owned()]);
    assert_eq!(
        open_tv_file_with(path, &state, &action_observation(path), |_| Err(())),
        Err(TV_FILE_OPEN_FAILED)
    );
    let mut unready = action_observation(path);
    unready.folder_ready = false;
    assert_eq!(open_tv_file_with(path, &state, &unready, |_| Ok(())), Err(TV_FILE_OPEN_UNAVAILABLE));
    let mut missing = action_observation(path);
    missing.file.metadata = Err(auto_video::tv_library::TvIoFailure::NotFound);
    assert_eq!(open_tv_file_with(path, &state, &missing, |_| Ok(())), Err(TV_FILE_OPEN_NOT_FOUND));
    let mut changed = action_observation(path);
    changed.file.file_identity = Some("replaced".to_owned());
    assert_eq!(open_tv_file_with(path, &state, &changed, |_| Ok(())), Err(TV_FILE_OPEN_STALE));
    let text = format!("{FOLDER}/notes.txt");
    let mut unsupported = action_observation(path);
    unsupported.file.canonical = Ok(TvCanonicalPath { path: text.clone(), within_folder: true });
    assert_eq!(open_tv_file_with(&text, &state, &unsupported, |_| Ok(())), Err(TV_FILE_OPEN_UNSUPPORTED));
    let mut outside = action_observation(path);
    outside.file.components = None;
    assert_eq!(reveal_tv_file_with(path, &state, &outside, |_| Ok(())), Err(TV_FILE_REVEAL_OUTSIDE_FOLDER));
}

#[test]
fn trash_removes_only_the_exact_file_after_a_successful_dispatch() {
    let mut state = scanned_state(TvMetadataFile::Missing);
    let files = library_files();
    let path = files[1].path.as_str();
    let generation = state.completed_scan.as_ref().unwrap().generation;
    let unowned = TvDownloadOwnership::Unowned(Some(FOLDER.to_owned()));
    assert_eq!(
        trash_tv_file_with_download_ownership_and_metadata(
            path, generation, TvDownloadOwnership::Owned, &mut state, &action_observation(path),
            |_| Ok(()), || TvMetadataFile::Missing, |_| false, |_| true,
        ),
        Err(TV_FILE_TRASH_OWNED)
    );
    assert_eq!(
        trash_tv_file_with_download_ownership_and_metadata(
            path, generation, TvDownloadOwnership::Unavailable, &mut state, &action_observation(path),
            |_| Ok(()), || TvMetadataFile::Missing, |_| false, |_| true,
        ),
        Err(TV_FILE_TRASH_OWNERSHIP_UNAVAILABLE)
    );
    assert_eq!(
        trash_tv_file_with_download_ownership_and_metadata(
            path, generation, TvDownloadOwnership::Unowned(Some("/elsewhere".to_owned())), &mut state,
            &action_observation(path), |_| Ok(()), || TvMetadataFile::Missing, |_| false, |_| true,
        ),
        Err(TV_FILE_TRASH_UNAVAILABLE)
    );
    assert_eq!(
        trash_tv_file_with_download_ownership_and_metadata(
            path, generation + 1, unowned.clone(), &mut state, &action_observation(path),
            |_| Ok(()), || TvMetadataFile::Missing, |_| false, |_| true,
        ),
        Err(TV_FILE_TRASH_STALE)
    );
    assert_eq!(
        trash_tv_file_with_download_ownership_and_metadata(
            path, generation, unowned.clone(), &mut state, &action_observation(path),
            |_| Err(()), || TvMetadataFile::Missing, |_| false, |_| true,
        ),
        Err(TV_FILE_TRASH_FAILED)
    );
    assert_eq!(state.completed_scan.as_ref().unwrap().files.len(), 3);
    let dispatched = RefCell::new(Vec::new());
    assert_eq!(
        trash_tv_file_with_download_ownership_and_metadata(
            path, generation, unowned, &mut state, &action_observation(path),
            |p| {
                dispatched.borrow_mut().push(p.to_owned());
                Ok(())
            },
            || TvMetadataFile::Missing, |_| false, |_| true,
        ),
        Ok(())
    );
    assert_eq!(*dispatched.borrow(), vec![path.to_owned()]);
    let scan = state.completed_scan.as_ref().unwrap();
    assert_eq!(scan.generation, generation);
    let remaining: Vec<&str> = scan.files.iter().map(|file| file.path.as_str()).collect();
    assert_eq!(remaining, [files[0].path.as_str(), files[2].path.as_str()]);
    let show = scan.groups.iter().find(|group| group.show_title == "Show").unwrap();
    assert_eq!(show.member_paths, vec![files[0].path.clone()]);
}

#[test]
fn tmdb_cover_authority_needs_an_associated_current_group() {
    let mut state = scanned_state(TvMetadataFile::Missing);
    let show = group_id_of(&state, "Show");
    assert_eq!(
        tv_tmdb_cover_authority(&state, &show, &observe_unchanged),
        Err(TV_METADATA_STALE)
    );
    let verification_id = verified_match(&mut state, 1);
    save_tv_metadata_match_with(
        &mut state,
        &verification_id,
        observe_unchanged,
        || TvMetadataFile::Missing,
        |_| true,
    )
    .expect("match is saved");
    let show = group_id_of(&state, "Show");
    let authority = tv_tmdb_cover_authority(&state, &show, &observe_unchanged).expect("cover authority");
    assert_eq!(authority.group_id, show);
    assert_eq!(authority.tmdb_id, 42);
    assert_eq!(authority.poster_path.as_deref(), Some("/poster.jpg"));
    assert_eq!(authority.association_generation, 1);
    assert_eq!(authority.scan_generation, state.completed_scan.as_ref().unwrap().generation);
    assert_eq!(
        tv_tmdb_cover_authority(&state, "missing-group", &observe_unchanged),
        Err(TV_METADATA_STALE)
    );
}

#[test]
fn verified_details_make_the_association_for_the_searched_group() {
    let mut state = scanned_state(TvMetadataFile::Missing);
    let group_id = group_id_of(&state, "Show");
    let (generation, request_id) =
        begin_tv_metadata_search(&mut state, &group_id, "Show", "token", 1, observe_unchanged)
            .expect("search begins");
    let candidate = TvMetadataCandidate {
        tmdb_tv_id: 42,
        name: "Show".to_owned(),
        original_name: None,
        first_air_date: None,
        poster_path: None,
    };
    finish_tv_metadata_search(&mut state, generation, &request_id, "token", vec![candidate], observe_unchanged)
        .expect("search finishes");
    let (_, search) =
        begin_tv_metadata_verification(&mut state, &request_id, 42, "token", 2, observe_unchanged)
            .expect("verification begins");
    let member = |key: &str, value: JsonValue| (key.to_owned(), value);
    let details = Some(JsonValue::Object(vec![
        member("id", JsonValue::Number("42".to_owned())),
        member("name", JsonValue::String("Show".to_owned())),
        member("original_name", JsonValue::Null),
        member("first_air_date", JsonValue::String("2020-01-02".to_owned())),
        member("poster_path", JsonValue::String("/poster.jpg".to_owned())),
        member("overview", JsonValue::String("An exact show.".to_owned())),
    ]));
    let external = Some(JsonValue::Object(vec![
        member("id", JsonValue::Number("42".to_owned())),
        member("imdb_id", JsonValue::String("tt1234567".to_owned())),
    ]));
    let association = verified_tv_association(&search, 42, &details, &external).expect("details verify");
    assert_eq!(association.tmdb_tv_id, 42);
    assert_eq!(association.imdb_id, "tt1234567");
    assert_eq!(association.name, "Show");
    assert_eq!(association.local_show_title, "Show");
    assert_eq!(association.anchors, search.authority.anchors);
    assert_eq!(association.first_air_date.as_deref(), Some("2020-01-02"));
    assert_eq!(association.overview.as_deref(), Some("An exact show."));
    assert_eq!(association.generation, 1);
    assert_eq!(verified_tv_association(&search, 43, &details, &external), Err(TV_METADATA_MALFORMED));
    let bad_imdb = Some(JsonValue::Object(vec![
        member("id", JsonValue::Number("42".to_owned())),
        member("imdb_id", JsonValue::String("nm123".to_owned())),
    ]));
    assert!(verified_tv_association(&search, 42, &details, &bad_imdb).is_err());
    assert!(verified_tv_association(&search, 42, &None, &external).is_err());
}
