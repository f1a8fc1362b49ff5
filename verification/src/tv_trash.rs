//! Moving a scanned TV file to the trash: the checks that must pass before the file is
//! handed to the trash, and the library state after it left.
use vstd::prelude::*;

use crate::episode::TvLibraryIdentity;
use crate::text::same_text;
use crate::tv_library::{
    absent_anchor_paths, assemble_tv_scan, store_readable, is_assembled_scan, spec_validate_tv_file,
    store_written, validate_tv_file, CompletedTvScan, TrustedTvFile, TvFileActionObservation,
    TvFileValidationError, TvLibraryState,
};
use crate::tv_scan::{needs_probe, texts};
use crate::tv_store::{
    associations_view, read_tv_metadata_associations, spec_read_store, TvAssociationView,
    TvMetadataAssociation, TvMetadataFile, TvMetadataReadError,
};

verus! {

pub const TV_FILE_TRASH_FAILED: &'static str = "tv_file_trash_failed";

pub const TV_FILE_TRASH_NOT_FILE: &'static str = "tv_file_trash_not_file";

pub const TV_FILE_TRASH_NOT_FOUND: &'static str = "tv_file_trash_not_found";

pub const TV_FILE_TRASH_OWNED: &'static str = "tv_file_trash_owned";

pub const TV_FILE_TRASH_OWNERSHIP_UNAVAILABLE: &'static str = "tv_file_trash_ownership_unavailable";

pub const TV_FILE_TRASH_OUTSIDE_FOLDER: &'static str = "tv_file_trash_outside_folder";

pub const TV_FILE_TRASH_STALE: &'static str = "tv_file_trash_stale";

pub const TV_FILE_TRASH_UNAVAILABLE: &'static str = "tv_file_trash_unavailable";

pub const TV_FILE_TRASH_UNSUPPORTED: &'static str = "tv_file_trash_unsupported";

/// What the download library answered about a path in the TV folder: a download owns it,
/// ownership could not be established, or no download owns it (with the download folder
/// configured there, if any).
#[derive(Clone, Debug, PartialEq, Eq)]
pub enum TvDownloadOwnership {
    Owned,
    Unavailable,
    Unowned(Option<String>),
}

/// The error that trashing a file reports for a refusal.
pub open spec fn trash_error(e: TvFileValidationError) -> &'static str {
    match e {
        TvFileValidationError::NotFound => TV_FILE_TRASH_NOT_FOUND,
        TvFileValidationError::Unavailable => TV_FILE_TRASH_UNAVAILABLE,
        TvFileValidationError::NotFile => TV_FILE_TRASH_NOT_FILE,
        TvFileValidationError::Unsupported => TV_FILE_TRASH_UNSUPPORTED,
        TvFileValidationError::OutsideFolder => TV_FILE_TRASH_OUTSIDE_FOLDER,
        TvFileValidationError::Stale => TV_FILE_TRASH_STALE,
        TvFileValidationError::Dispatch => TV_FILE_TRASH_FAILED,
    }
}

/// Whether `path` may go to the trash: no download owns it, the download folder is the
/// configured TV folder and that folder is ready, and the file validates against the
/// completed scan of `scan_generation`.
pub open spec fn spec_trash_check(
    path: Seq<char>,
    scan_generation: u64,
    ownership: TvDownloadOwnership,
    state: TvLibraryState,
    seen: TvFileActionObservation,
) -> Result<(), &'static str> {
    match ownership {
        TvDownloadOwnership::Owned => Err(TV_FILE_TRASH_OWNED),
        TvDownloadOwnership::Unavailable => Err(TV_FILE_TRASH_OWNERSHIP_UNAVAILABLE),
        TvDownloadOwnership::Unowned(None) => Err(TV_FILE_TRASH_UNAVAILABLE),
        TvDownloadOwnership::Unowned(Some(download)) => match state.folder {
            None => Err(TV_FILE_TRASH_UNAVAILABLE),
            Some(folder) => if download@ != folder@ || !seen.folder_ready {
                Err(TV_FILE_TRASH_UNAVAILABLE)
            } else {
                match state.completed_scan {
                    None => Err(TV_FILE_TRASH_STALE),
                    Some(scan) => match spec_validate_tv_file(
                        path,
                        folder@,
                        scan,
                        Some(scan_generation),
                        seen.file,
                    ) {
                        Err(e) => Err(trash_error(e)),
                        Ok(()) => Ok(()),
                    },
                }
            },
        },
    }
}

/// The scanned files other than those at `path`, in scan order.
pub open spec fn files_except(files: Seq<TrustedTvFile>, path: Seq<char>) -> Seq<TrustedTvFile>
    decreases files.len(),
{
    if files.len() == 0 {
        Seq::empty()
    } else {
        let rest = files_except(files.drop_last(), path);
        if files.last().path@ == path {
            rest
        } else {
            rest.push(files.last())
        }
    }
}

/// Whether `stored` is what reading the store `file` gives.
pub open spec fn read_gives(
    file: TvMetadataFile,
    stored: Result<Vec<TvMetadataAssociation>, TvMetadataReadError>,
) -> bool {
    match stored {
        Ok(v) => spec_read_store(file) == Ok::<Seq<TvAssociationView>, TvMetadataReadError>(
            associations_view(v@),
        ),
        Err(e) => spec_read_store(file) == Err::<Seq<TvAssociationView>, TvMetadataReadError>(e),
    }
}

/// Whether `after` is the scan `before` once the file at `path` left it: the same folder,
/// identity and generation, the other files, and show groups and metadata status assembled
/// anew from the store that `file` holds, with the anchor paths in `absent` reported absent.
pub open spec fn scan_after_trash(
    after: CompletedTvScan,
    before: CompletedTvScan,
    path: Seq<char>,
    file: TvMetadataFile,
    stored: Result<Vec<TvMetadataAssociation>, TvMetadataReadError>,
    absent: Seq<String>,
) -> bool {
    let files = files_except(before.files@, path);
    &&& read_gives(file, stored)
    &&& is_assembled_scan(
        after,
        before.folder,
        before.generation,
        before.folder_identity,
        files,
        stored,
        absent,
    )
    &&& forall|p: Seq<char>| #[trigger] texts(absent).contains(p) ==> (stored matches Ok(v)
        && needs_probe(p, before.folder@, before.folder_identity@, files, associations_view(v@)))
}

fn trash_error_exec(e: TvFileValidationError) -> (text: &'static str)
    ensures
        text == trash_error(e),
{
    match e {
        TvFileValidationError::NotFound => TV_FILE_TRASH_NOT_FOUND,
        TvFileValidationError::Unavailable => TV_FILE_TRASH_UNAVAILABLE,
        TvFileValidationError::NotFile => TV_FILE_TRASH_NOT_FILE,
        TvFileValidationError::Unsupported => TV_FILE_TRASH_UNSUPPORTED,
        TvFileValidationError::OutsideFolder => TV_FILE_TRASH_OUTSIDE_FOLDER,
        TvFileValidationError::Stale => TV_FILE_TRASH_STALE,
        TvFileValidationError::Dispatch => TV_FILE_TRASH_FAILED,
    }
}

/// Decides whether `path` may go to the trash.
pub fn check_tv_trash(
    path: &str,
    scan_generation: u64,
    ownership: &TvDownloadOwnership,
    state: &TvLibraryState,
    seen: &TvFileActionObservation,
) -> (result: Result<(), &'static str>)
    ensures
        result == spec_trash_check(path@, scan_generation, *ownership, *state, *seen),
{
    let download = match ownership {
        TvDownloadOwnership::Owned => return Err(TV_FILE_TRASH_OWNED),
        TvDownloadOwnership::Unavailable => return Err(TV_FILE_TRASH_OWNERSHIP_UNAVAILABLE),
        TvDownloadOwnership::Unowned(None) => return Err(TV_FILE_TRASH_UNAVAILABLE),
        TvDownloadOwnership::Unowned(Some(download)) => download,
    };
    let folder = match &state.folder {
        None => return Err(TV_FILE_TRASH_UNAVAILABLE),
        Some(folder) => folder,
    };
    if !same_text(download.as_str(), folder.as_str()) || !seen.folder_ready {
        return Err(TV_FILE_TRASH_UNAVAILABLE);
    }
    let scan = match &state.completed_scan {
        None => return Err(TV_FILE_TRASH_STALE),
        Some(scan) => scan,
    };
    match validate_tv_file(path, folder.as_str(), scan, Some(scan_generation), &seen.file) {
        Err(e) => Err(trash_error_exec(e)),
        Ok(()) => Ok(()),
    }
}

/// A copy of a scanned file.
fn copy_file(file: &TrustedTvFile) -> (copy: TrustedTvFile)
    ensures
        copy == *file,
{
    TrustedTvFile {
        path: file.path.clone(),
        relative_path: file.relative_path.clone(),
        file_identity: file.file_identity.clone(),
        fingerprint: file.fingerprint.clone(),
        size: file.size,
        modified: file.modified,
        identity: match &file.identity {
            Some(identity) => Some(
                TvLibraryIdentity {
                    show_title: identity.show_title.clone(),
                    season: identity.season,
                    episode: identity.episode,
                },
            ),
            None => None,
        },
    }
}

/// The scanned files other than those at `path`.
fn remaining_files(files: &Vec<TrustedTvFile>, path: &str) -> (kept: Vec<TrustedTvFile>)
    ensures
        kept@ == files_except(files@, path@),
{
    let mut kept: Vec<TrustedTvFile> = Vec::new();
    let mut i: usize = 0;
    while i < files.len()
        invariant
            i <= files@.len(),
            kept@ == files_except(files@.subrange(0, i as int), path@),
        decreases files@.len() - i,
    {
        let ghost prefix = files@.subrange(0, i as int + 1);
        assert(prefix.drop_last() =~= files@.subrange(0, i as int));
        assert(prefix.last() == files@[i as int]);
        if !same_text(files[i].path.as_str(), path) {
            kept.push(copy_file(&files[i]));
        }
        i = i + 1;
    }
    assert(files@.subrange(0, files@.len() as int) =~= files@);
    kept
}

/// Whether `dispatch` may succeed for `path`.
pub open spec fn dispatch_succeeded<F: FnOnce(&str) -> Result<(), ()>>(dispatch: F, path: &str) -> bool {
    exists|o: Result<(), ()>| #[trigger] call_ensures(dispatch, (path,), o) && o is Ok
}

/// Moves a scanned TV file to the trash. The file is handed to `dispatch` only when
/// `spec_trash_check` passes; each refusal has its own error and changes nothing, and so does
/// a failed dispatch. After the file left, the completed scan keeps the other files, its show
/// groups are assembled anew from the metadata store (read by `read_store`, anchors probed by
/// `probe_absent`, a changed store written by `write_store`), and the metadata operations in
/// progress are dropped.
pub fn trash_tv_file_with_download_ownership_and_metadata(
    path: &str,
    scan_generation: u64,
    ownership: TvDownloadOwnership,
    library_state: &mut TvLibraryState,
    seen: &TvFileActionObservation,
    dispatch: impl FnOnce(&str) -> Result<(), ()>,
    read_store: impl FnOnce() -> TvMetadataFile,
    probe_absent: impl Fn(&str) -> bool,
    write_store: impl FnOnce(Vec<u8>) -> bool,
) -> (result: Result<(), &'static str>)
    requires
        spec_trash_check(path@, scan_generation, ownership, *old(library_state), *seen) is Ok
            ==> call_requires(dispatch, (path,)),
        spec_trash_check(path@, scan_generation, ownership, *old(library_state), *seen) is Ok
            && dispatch_succeeded(dispatch, path) ==> call_requires(read_store, ()),
        spec_trash_check(path@, scan_generation, ownership, *old(library_state), *seen) is Ok
            && dispatch_succeeded(dispatch, path) ==> forall|p: &str| call_requires(probe_absent, (p,)),
        spec_trash_check(path@, scan_generation, ownership, *old(library_state), *seen) is Ok
            && dispatch_succeeded(dispatch, path) && store_readable(read_store) ==> forall|
            bytes: Vec<u8>,
        | call_requires(write_store, (bytes,)),
    ensures
        spec_trash_check(path@, scan_generation, ownership, *old(library_state), *seen) matches Err(
            e,
        ) ==> result == Err::<(), _>(e) && *final(library_state) == *old(library_state),
        spec_trash_check(path@, scan_generation, ownership, *old(library_state), *seen) is Ok
            ==> exists|outcome: Result<(), ()>|
            call_ensures(dispatch, (path,), outcome) && match outcome {
                Err(_) => result == Err::<(), _>(TV_FILE_TRASH_FAILED) && *final(library_state)
                    == *old(library_state),
                Ok(_) => {
                    &&& result is Ok
                    &&& final(library_state).same_library_folder(*old(library_state))
                    &&& final(library_state).metadata_invalidated_from(*old(library_state))
                    &&& final(library_state).metadata_client_generation == old(
                        library_state,
                    ).metadata_client_generation
                    &&& old(library_state).completed_scan matches Some(before)
                        && final(library_state).completed_scan matches Some(after)
                        && exists|
                        file: TvMetadataFile,
                        stored: Result<Vec<TvMetadataAssociation>, TvMetadataReadError>,
                        absent: Vec<String>,
                    |
                        call_ensures(read_store, (), file) && scan_after_trash(
                            after,
                            before,
                            path@,
                            file,
                            stored,
                            absent@,
                        ) && store_written(after, stored, absent@, write_store)
                },
            },
{
    match check_tv_trash(path, scan_generation, &ownership, library_state, seen) {
        Err(e) => return Err(e),
        Ok(()) => {},
    }
    let ghost before = library_state.completed_scan.unwrap();
    let ghost writer = write_store;
    let outcome = dispatch(path);
    let ghost dispatched = outcome;
    if outcome.is_err() {
        return Err(TV_FILE_TRASH_FAILED);
    }
    assert(dispatched is Ok);
    assert(dispatch_succeeded(dispatch, path));
    assert(spec_trash_check(path@, scan_generation, ownership, *old(library_state), *seen) is Ok);
    let (folder, generation, folder_identity, files) = match &library_state.completed_scan {
        None => return Err(TV_FILE_TRASH_STALE),
        Some(scan) => (
            scan.folder.clone(),
            scan.generation,
            scan.folder_identity.clone(),
            remaining_files(&scan.files, path),
        ),
    };
    let file = read_store();
    let ghost file_copy = file;
    let stored = read_tv_metadata_associations(file);
    assert(stored is Ok ==> store_readable(read_store));
    let absent = absent_anchor_paths(
        folder.as_str(),
        folder_identity.as_str(),
        &files,
        &stored,
        &probe_absent,
    );
    let ghost stored_copy = stored;
    let ghost absent_copy = absent;
    let scan = assemble_tv_scan(
        folder,
        generation,
        folder_identity,
        files,
        stored,
        absent,
        write_store,
    );
    library_state.completed_scan = Some(scan);
    library_state.invalidate_tv_metadata_context();
    proof {
        let after = library_state.completed_scan.unwrap();
        assert(read_gives(file_copy, stored_copy));
        assert(scan_after_trash(after, before, path@, file_copy, stored_copy, absent_copy@));
        assert(store_written(after, stored_copy, absent_copy@, writer));
    }
    Ok(())
}

/// Trashing a file removes exactly that path from the scan: no remaining file has it, every
/// other scanned file remains, and nothing else is added.
pub proof fn law_trash_removes_only_its_path(files: Seq<TrustedTvFile>, path: Seq<char>)
    ensures
        forall|k: int|
            0 <= k < files_except(files, path).len() ==> (#[trigger] files_except(files, path)[k]).path@
                != path && files.contains(files_except(files, path)[k]),
        forall|k: int|
            0 <= k < files.len() && (#[trigger] files[k]).path@ != path ==> files_except(
                files,
                path,
            ).contains(files[k]),
    decreases files.len(),
{
    if files.len() > 0 {
        let rest = files.drop_last();
        law_trash_removes_only_its_path(rest, path);
        let kept = files_except(rest, path);
        let all = files_except(files, path);
        assert forall|k: int| 0 <= k < all.len() implies (#[trigger] all[k]).path@ != path
            && files.contains(all[k]) by {
            if k < kept.len() {
                assert(all[k] == kept[k]);
                let j = choose|j: int| 0 <= j < rest.len() && rest[j] == kept[k];
                assert(files[j] == rest[j]);
            } else {
                assert(all[k] == files.last());
                assert(files[files.len() - 1] == files.last());
            }
        }
        assert forall|k: int| 0 <= k < files.len() && (#[trigger] files[k]).path@ != path implies all.contains(
            files[k],
        ) by {
            if k < rest.len() {
                assert(rest[k] == files[k]);
                let j = choose|j: int| 0 <= j < kept.len() && kept[j] == files[k];
                if files.last().path@ != path {
                    assert(all[j] == kept[j]);
                } else {
                    assert(all[j] == kept[j]);
                }
            } else {
                assert(all[all.len() - 1] == files.last());
            }
        }
    }
}

} // verus!
