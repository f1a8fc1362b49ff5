use std::cell::Cell;

use auto_video::episode::TvLibraryIdentity;
use auto_video::tv_library::{
    begin_tv_library_scan, clear_tv_folder, clear_tv_metadata_match_with, complete_tv_library_scan,
    configured_tv_folder, invalidate_tv_metadata_context_for_state, load_tv_folder_with,
    save_tv_metadata_match_with, scan_tv_library_with_metadata, set_tv_folder, StoredTvFolder,
    TrustedTvFile, TvFileObservation, TvFolderScan, TvLibraryState, TvMetadataStatus,
    TV_FOLDER_STORAGE_FAILED, TV_FOLDER_UNAVAILABLE, TV_LIBRARY_SCAN_FAILED, TV_LIBRARY_STALE,
    TV_METADATA_CONTEXT_INVALID,
};
use auto_video::tv_store::TvMetadataFile;

const FOLDER: &str = "/library/tv";

#[test]
fn a_fresh_state_has_no_folder() {
    let state = TvLibraryState::new();
    assert_eq!(configured_tv_folder(&state), Ok(None));
}

#[test]
fn set_folder_configures_what_was_saved() {
    let mut state = TvLibraryState::new();
    assert_eq!(set_tv_folder(&mut state, None, |_| panic!("nothing to save")), Err(TV_FOLDER_UNAVAILABLE));
    assert_eq!(configured_tv_folder(&state), Ok(None));
    assert_eq!(set_tv_folder(&mut state, Some(FOLDER.to_owned()), |_| false), Err(TV_FOLDER_STORAGE_FAILED));
    assert_eq!(state.generation, 0);
    assert_eq!(configured_tv_folder(&state), Ok(None));
    let saved = Cell::new(String::new());
    let chosen = set_tv_folder(&mut state, Some(FOLDER.to_owned()), |p| {
        saved.set(p.to_owned());
        true
    });
    assert_eq!(chosen, Ok(FOLDER.to_owned()));
    assert_eq!(saved.take(), FOLDER);
    assert_eq!(state.generation, 1);
    assert_eq!(configured_tv_folder(&state), Ok(Some(FOLDER.to_owned())));
}

#[test]
fn load_folder_reports_each_record() {
    let mut state = TvLibraryState::new();
    assert_eq!(load_tv_folder_with(&mut state, StoredTvFolder::Unreadable, |_| true), Err(TV_FOLDER_STORAGE_FAILED));
    assert_eq!(
        load_tv_folder_with(&mut state, StoredTvFolder::Text(String::new()), |_| true),
        Err(TV_FOLDER_STORAGE_FAILED)
    );
    assert_eq!(state.generation, 0);
    assert_eq!(
        load_tv_folder_with(&mut state, StoredTvFolder::Text(FOLDER.to_owned()), |p| p == FOLDER),
        Ok(vec!["ready".to_owned(), FOLDER.to_owned()])
    );
    assert_eq!(configured_tv_folder(&state), Ok(Some(FOLDER.to_owned())));
    assert_eq!(
        load_tv_folder_with(&mut state, StoredTvFolder::Text("/gone".to_owned()), |_| false),
        Ok(vec!["unavailable".to_owned(), "/gone".to_owned()])
    );
    assert_eq!(configured_tv_folder(&state), Ok(Some("/gone".to_owned())));
    assert_eq!(
        load_tv_folder_with(&mut state, StoredTvFolder::Absent, |_| panic!("no folder to check")),
        Ok(vec!["unconfigured".to_owned()])
    );
    assert_eq!(configured_tv_folder(&state), Ok(None));
    assert_eq!(state.generation, 3);
}

#[test]
fn clear_folder_forgets_it_only_when_removed() {
    let mut state = TvLibraryState::new();
    state.replace_tv_folder(Some(FOLDER.to_owned()));
    assert_eq!(clear_tv_folder(&mut state, || false), Err(TV_FOLDER_STORAGE_FAILED));
    assert_eq!(configured_tv_folder(&state), Ok(Some(FOLDER.to_owned())));
    assert_eq!(clear_tv_folder(&mut state, || true), Ok(()));
    assert_eq!(configured_tv_folder(&state), Ok(None));
    assert_eq!(state.generation, 2);
}

fn many_files(count: usize) -> Vec<TrustedTvFile> {
    (0..count)
        .map(|index| TrustedTvFile {
            path: format!("{FOLDER}/Show/Show - S01E{index:05}.mkv"),
            relative_path: format!("Show/Show - S01E{index:05}.mkv"),
            file_identity: format!("file-{index}"),
            fingerprint: format!("fingerprint-{index}"),
            size: 1,
            modified: 0,
            identity: Some(TvLibraryIdentity { show_title: "Show".to_owned(), season: 1, episode: index as u64 }),
        })
        .collect()
}

#[test]
fn a_scan_keeps_at_most_the_first_library_files() {
    let mut state = TvLibraryState::new();
    state.replace_tv_folder(Some(FOLDER.to_owned()));
    let response = scan_tv_library_with_metadata(
        &mut state,
        |_| TvFolderScan::Found("identity".to_owned(), many_files(5003)),
        || TvMetadataFile::Missing,
        |_| false,
        |_| true,
    )
    .unwrap();
    assert_eq!(response[3], "5000");
    let scan = state.completed_scan.as_ref().unwrap();
    assert_eq!(scan.files.len(), 5000);
    assert_eq!(scan.files, many_files(5000));
}

fn never_observed(_: String) -> TvFileObservation {
    panic!("nothing is observed")
}

#[test]
fn a_vanished_or_unwalkable_folder_is_refused_without_touching_the_store() {
    let mut state = TvLibraryState::new();
    state.replace_tv_folder(Some(FOLDER.to_owned()));
    let vanished = scan_tv_library_with_metadata(
        &mut state,
        |_| TvFolderScan::Unavailable,
        || panic!("no store is read"),
        |_| panic!("nothing is probed"),
        |_| panic!("no store is written"),
    );
    assert_eq!(vanished, Err(TV_FOLDER_UNAVAILABLE));
    assert_eq!(state.generation, 2);
    let failed = scan_tv_library_with_metadata(
        &mut state,
        |_| TvFolderScan::Failed,
        || panic!("no store is read"),
        |_| panic!("nothing is probed"),
        |_| panic!("no store is written"),
    );
    assert_eq!(failed, Err(TV_LIBRARY_SCAN_FAILED));
    assert!(state.completed_scan.is_none());
}

#[test]
fn an_unreadable_store_is_left_as_it_was() {
    let mut state = TvLibraryState::new();
    state.replace_tv_folder(Some(FOLDER.to_owned()));
    let response = scan_tv_library_with_metadata(
        &mut state,
        |_| TvFolderScan::Found("identity".to_owned(), many_files(1)),
        || TvMetadataFile::Contents(b"corrupt association data".to_vec()),
        |_| panic!("nothing is probed"),
        |_| panic!("no store is written"),
    )
    .unwrap();
    assert_eq!(response[1], "attention");
    assert_eq!(state.completed_scan.unwrap().metadata_status, TvMetadataStatus::Attention);
}

#[test]
fn a_stale_scan_writes_nothing() {
    let mut state = TvLibraryState::new();
    state.replace_tv_folder(Some(FOLDER.to_owned()));
    let (folder, generation) = begin_tv_library_scan(&mut state).unwrap();
    state.replace_tv_folder(Some(FOLDER.to_owned()));
    let stale = complete_tv_library_scan(
        &mut state,
        folder,
        generation,
        "identity".to_owned(),
        many_files(1),
        Ok(Vec::new()),
        Vec::new(),
        |_| panic!("a stale scan writes nothing"),
    );
    assert_eq!(stale, Err(TV_LIBRARY_STALE));
}

#[test]
fn refused_saves_and_clears_write_nothing() {
    let mut state = TvLibraryState::new();
    state.replace_tv_folder(Some(FOLDER.to_owned()));
    invalidate_tv_metadata_context_for_state(&mut state).unwrap();
    assert_eq!(
        save_tv_metadata_match_with(
            &mut state,
            "verification",
            never_observed,
            || panic!("no store is read"),
            |_| panic!("no store is written"),
        ),
        Err(TV_METADATA_CONTEXT_INVALID)
    );
    assert!(clear_tv_metadata_match_with(
        &mut state,
        "group",
        never_observed,
        || TvMetadataFile::Missing,
        |_| panic!("no store is written"),
    )
    .is_err());
}

#[test]
fn an_unusable_folder_is_not_saved() {
    let mut state = TvLibraryState::new();
    assert_eq!(set_tv_folder(&mut state, None, |_| panic!("nothing is saved")), Err(TV_FOLDER_UNAVAILABLE));
}
