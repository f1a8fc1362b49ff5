//! The TV library: its configured folder, the completed scan with its show groups, and the
//! TMDB matching flow bound to that scan.
use vstd::prelude::*;

use crate::episode::TvLibraryIdentity;
use crate::text::{chars_of, same_text};
use crate::library_scan::{is_supported_library_media, spec_supported_media, MAX_LIBRARY_FILES};
use crate::tv_scan::{
    association_fields, encode_tv_metadata_association, any_change, are_show_titles, association_option_view, bound_association, build_tv_show_groups,
    encode_tv_scan, file_paths, group_titles, needs_attention, reconcile_tv_metadata_associations,
    reconciled_associations, scan_response, show_members, spec_group_id, texts, TvReconcileScope,
    tv_metadata_probe_paths, needs_probe, owned,
};
use crate::tv_store::{
    copy_association, spec_association_valid, spec_read_store, validate_tv_metadata_association,
    TV_METADATA_PERSISTENCE_FAILED, copy_anchors, TvAnchorView, read_tv_metadata_associations,
    TvMetadataFile, associations_view, encoded_tv_metadata_associations, optional_view,
    spec_encoded_store, TvAssociationView, TvMetadataAnchor, TvMetadataAssociation,
    TvMetadataReadError, records_distinct, same_group, shared_anchor, lemma_store_round_trip,
    spec_parse_store,
};

verus! {

pub const TV_FOLDER_STORAGE_FAILED: &'static str = "tv_folder_storage_failed";

pub const TV_FOLDER_UNAVAILABLE: &'static str = "tv_folder_unavailable";

pub const TV_LIBRARY_SCAN_FAILED: &'static str = "tv_library_scan_failed";

pub const TV_LIBRARY_STALE: &'static str = "tv_library_stale";

pub const TV_METADATA_CONTEXT_INVALID: &'static str = "tv_metadata_context_invalid";

pub const TV_METADATA_MALFORMED: &'static str = "tv_metadata_malformed_provider";

pub const TV_METADATA_STALE: &'static str = "tv_metadata_stale";

pub const TV_METADATA_UNAVAILABLE: &'static str = "tv_metadata_unavailable";

/// Whether the metadata store could be used by the last scan.
#[derive(Clone, Copy, Debug, PartialEq, Eq)]
pub enum TvMetadataStatus {
    Ready,
    Attention,
    Unavailable,
}

impl TvMetadataStatus {
    pub open spec fn text(self) -> Seq<char> {
        match self {
            TvMetadataStatus::Ready => "ready"@,
            TvMetadataStatus::Attention => "attention"@,
            TvMetadataStatus::Unavailable => "unavailable"@,
        }
    }

    /// The status as the scan response writes it.
    pub fn as_str(&self) -> (text: &'static str)
        ensures
            text@ == self.text(),
    {
        match self {
            TvMetadataStatus::Ready => "ready",
            TvMetadataStatus::Attention => "attention",
            TvMetadataStatus::Unavailable => "unavailable",
        }
    }
}

/// A media file found by a scan, with what identifies its exact contents.
#[derive(Clone, Debug, PartialEq, Eq)]
pub struct TrustedTvFile {
    pub path: String,
    pub relative_path: String,
    pub file_identity: String,
    pub fingerprint: String,
    pub size: u64,
    /// Modification time in nanoseconds relative to the Unix epoch.
    pub modified: i128,
    pub identity: Option<TvLibraryIdentity>,
}

/// The files of one local show, with the association bound to it.
#[derive(Clone, Debug, PartialEq, Eq)]
pub struct TrustedTvShowGroup {
    pub group_id: String,
    pub show_title: String,
    pub member_paths: Vec<String>,
    pub association: Option<TvMetadataAssociation>,
    pub metadata_attention: bool,
}

/// The result of the last scan that completed for the configured folder.
#[derive(Clone, Debug, PartialEq, Eq)]
pub struct CompletedTvScan {
    pub folder: String,
    pub folder_identity: String,
    pub generation: u64,
    pub files: Vec<TrustedTvFile>,
    pub groups: Vec<TrustedTvShowGroup>,
    pub metadata_status: TvMetadataStatus,
}

/// What a metadata operation was started for: one show group of one scan, with its anchors.
#[derive(Clone, Debug, PartialEq, Eq)]
pub struct TvMetadataAuthority {
    pub scan_generation: u64,
    pub folder: String,
    pub folder_identity: String,
    pub group_id: String,
    pub local_show_title: String,
    pub anchors: Vec<TvMetadataAnchor>,
}

/// A show offered by a TMDB search.
#[derive(Clone, Debug, PartialEq, Eq)]
pub struct TvMetadataCandidate {
    pub tmdb_tv_id: u64,
    pub name: String,
    pub original_name: Option<String>,
    pub first_air_date: Option<String>,
    pub poster_path: Option<String>,
}

/// The search in progress for a show group.
#[derive(Clone, Debug, PartialEq, Eq)]
pub struct TvMetadataSearch {
    pub request_id: String,
    pub operation_generation: u64,
    pub authority: TvMetadataAuthority,
    pub query: String,
    pub token_identity: String,
    pub candidates: Vec<TvMetadataCandidate>,
}

/// A verified match waiting to be saved.
#[derive(Clone, Debug, PartialEq, Eq)]
pub struct TvMetadataVerification {
    pub verification_id: String,
    pub operation_generation: u64,
    pub matching_request_id: String,
    pub authority: TvMetadataAuthority,
    pub association: TvMetadataAssociation,
    pub token_identity: String,
}

/// The state of the TV library: the configured folder, a generation that every folder change
/// and scan advances, the last completed scan, and the metadata operations in progress.
pub struct TvLibraryState {
    pub folder: Option<String>,
    pub generation: u64,
    pub completed_scan: Option<CompletedTvScan>,
    pub metadata_client_generation: u64,
    pub metadata_operation_generation: u64,
    pub metadata_search: Option<TvMetadataSearch>,
    pub metadata_verification: Option<TvMetadataVerification>,
}

/// The counter after `x`, wrapping to zero after the largest value.
pub open spec fn next_count(x: u64) -> u64 {
    if x == u64::MAX {
        0
    } else {
        (x + 1) as u64
    }
}

fn advance(x: u64) -> (y: u64)
    ensures
        y == next_count(x),
{
    if x == u64::MAX {
        0
    } else {
        x + 1
    }
}

impl TvLibraryState {
    /// A state with no folder, no scan and no metadata operation.
    pub open spec fn is_initial(self) -> bool {
        &&& self.folder is None
        &&& self.generation == 0
        &&& self.completed_scan is None
        &&& self.metadata_client_generation == 0
        &&& self.metadata_operation_generation == 0
        &&& self.metadata_search is None
        &&& self.metadata_verification is None
    }

    /// `self` is `before` with its metadata operations dropped and the operation generation
    /// advanced, so that no operation begun earlier can finish.
    pub open spec fn metadata_invalidated_from(self, before: Self) -> bool {
        &&& self.metadata_operation_generation == next_count(before.metadata_operation_generation)
        &&& self.metadata_search is None
        &&& self.metadata_verification is None
    }

    /// `self` and `before` agree on the folder and the generation.
    pub open spec fn same_library_folder(self, before: Self) -> bool {
        &&& self.folder == before.folder
        &&& self.generation == before.generation
    }

    /// `self` and `before` agree on the folder, the generation and the completed scan.
    pub open spec fn same_library(self, before: Self) -> bool {
        &&& self.folder == before.folder
        &&& self.generation == before.generation
        &&& self.completed_scan == before.completed_scan
    }

    pub fn new() -> (state: Self)
        ensures
            state.is_initial(),
    {
        TvLibraryState {
            folder: None,
            generation: 0,
            completed_scan: None,
            metadata_client_generation: 0,
            metadata_operation_generation: 0,
            metadata_search: None,
            metadata_verification: None,
        }
    }

    /// Drops the metadata operations in progress.
    pub(crate) fn invalidate_tv_metadata_context(&mut self)
        ensures
            final(self).metadata_invalidated_from(*old(self)),
            final(self).same_library(*old(self)),
            final(self).metadata_client_generation == old(self).metadata_client_generation,
    {
        self.metadata_operation_generation = advance(self.metadata_operation_generation);
        self.metadata_search = None;
        self.metadata_verification = None;
    }

    /// Makes `folder` the configured folder (or none): the generation advances, the completed
    /// scan and the metadata operations are dropped.
    pub fn replace_tv_folder(&mut self, folder: Option<String>)
        ensures
            final(self).folder == folder,
            final(self).generation == next_count(old(self).generation),
            final(self).completed_scan is None,
            final(self).metadata_invalidated_from(*old(self)),
            final(self).metadata_client_generation == old(self).metadata_client_generation,
    {
        self.folder = folder;
        self.generation = advance(self.generation);
        self.completed_scan = None;
        self.invalidate_tv_metadata_context();
    }

    /// Accepts a client generation newer than every one seen so far.
    pub(crate) fn begin_tv_metadata_client_operation(&mut self, client_generation: u64) -> (result: Result<
        (),
        &'static str,
    >)
        ensures
            result is Ok <==> (client_generation != 0 && client_generation
                > old(self).metadata_client_generation),
            result matches Err(e) ==> e == TV_METADATA_CONTEXT_INVALID && *final(self) == *old(self),
            result is Ok ==> final(self).metadata_client_generation == client_generation,
            final(self).same_library(*old(self)),
            final(self).metadata_operation_generation == old(self).metadata_operation_generation,
            final(self).metadata_search == old(self).metadata_search,
            final(self).metadata_verification == old(self).metadata_verification,
    {
        if client_generation == 0 || client_generation <= self.metadata_client_generation {
            return Err(TV_METADATA_CONTEXT_INVALID);
        }
        self.metadata_client_generation = client_generation;
        Ok(())
    }

    /// Starts a new metadata operation and returns its generation, which is never zero.
    pub(crate) fn next_tv_metadata_operation(&mut self) -> (generation: u64)
        ensures
            generation != 0,
            generation == (if next_count(old(self).metadata_operation_generation) == 0 {
                1
            } else {
                next_count(old(self).metadata_operation_generation)
            }),
            final(self).metadata_operation_generation == generation,
            final(self).same_library(*old(self)),
            final(self).metadata_client_generation == old(self).metadata_client_generation,
            final(self).metadata_search == old(self).metadata_search,
            final(self).metadata_verification == old(self).metadata_verification,
    {
        self.metadata_operation_generation = advance(self.metadata_operation_generation);
        if self.metadata_operation_generation == 0 {
            self.metadata_operation_generation = 1;
        }
        self.metadata_operation_generation
    }
}

impl Default for TvLibraryState {
    fn default() -> (state: Self)
        ensures
            state.is_initial(),
    {
        TvLibraryState::new()
    }
}

/// Drops the metadata operations of clients older than `client_generation`; an older client
/// generation changes nothing.
pub fn invalidate_tv_metadata_client_context(
    state: &mut TvLibraryState,
    client_generation: u64,
) -> (result: Result<(), &'static str>)
    ensures
        result is Ok,
        client_generation < old(state).metadata_client_generation ==> *final(state) == *old(
            state,
        ),
        client_generation >= old(state).metadata_client_generation ==> {
            &&& final(state).metadata_client_generation == client_generation
            &&& final(state).metadata_invalidated_from(*old(state))
            &&& final(state).same_library(*old(state))
        },
{
    if client_generation < state.metadata_client_generation {
        return Ok(());
    }
    state.metadata_client_generation = client_generation;
    state.invalidate_tv_metadata_context();
    Ok(())
}

/// Drops the metadata operations in progress.
pub fn invalidate_tv_metadata_context_for_state(state: &mut TvLibraryState) -> (result: Result<
    (),
    &'static str,
>)
    ensures
        result is Ok,
        final(state).metadata_invalidated_from(*old(state)),
        final(state).same_library(*old(state)),
        final(state).metadata_client_generation == old(state).metadata_client_generation,
{
    state.invalidate_tv_metadata_context();
    Ok(())
}

/// What reading the file that remembers the TV folder gave.
pub enum StoredTvFolder {
    /// There is no such file: no folder was chosen.
    Absent,
    /// The file could not be read.
    Unreadable,
    /// The file holds this text.
    Text(String),
}

/// The folder a remembered record configures: none for no record, the record's folder when
/// it holds one; an unreadable or empty record configures nothing.
pub open spec fn loaded_folder(stored: StoredTvFolder) -> Result<Option<Seq<char>>, &'static str> {
    match stored {
        StoredTvFolder::Absent => Ok(None),
        StoredTvFolder::Unreadable => Err(TV_FOLDER_STORAGE_FAILED),
        StoredTvFolder::Text(t) => if t@.len() == 0 {
            Err(TV_FOLDER_STORAGE_FAILED)
        } else {
            Ok(Some(t@))
        },
    }
}

/// Loading what setting a folder saved configures that folder again: `set_tv_folder` hands
/// `save` the folder's text and configures the folder, and `load_tv_folder_with`, given a
/// record holding that text (`record`), configures the same folder.
pub proof fn law_load_reads_back_set_folder(folder: String, record: String)
    requires
        folder@.len() > 0,
        record@ == folder@,
    ensures
        loaded_folder(StoredTvFolder::Text(record)) == Ok::<Option<Seq<char>>, &'static str>(
            Some(folder@),
        ),
{
}

/// Takes the remembered TV folder: an unreadable or empty record fails with
/// `TV_FOLDER_STORAGE_FAILED` and changes nothing; no record leaves no folder configured and
/// answers `unconfigured`; a folder record configures that folder and answers whether it is
/// `ready` (`folder_ready`, asked with the folder, says it is still a canonical directory) or
/// `unavailable`, and the folder. A configuration advances the generation and drops the
/// completed scan and the metadata operations.
pub fn load_tv_folder_with(
    state: &mut TvLibraryState,
    stored: StoredTvFolder,
    folder_ready: impl FnOnce(&str) -> bool,
) -> (result: Result<Vec<String>, &'static str>)
    requires
        stored matches StoredTvFolder::Text(t) ==> (t@.len() > 0 ==> forall|p: &str|
            p@ == t@ ==> call_requires(folder_ready, (p,))),
    ensures
        match stored {
            StoredTvFolder::Unreadable => result == Err::<Vec<String>, &'static str>(TV_FOLDER_STORAGE_FAILED)
                && *final(state) == *old(state),
            StoredTvFolder::Text(t) => t@.len() == 0 ==> result == Err::<Vec<String>, &'static str>(
                TV_FOLDER_STORAGE_FAILED,
            ) && *final(state) == *old(state),
            StoredTvFolder::Absent => final(state).folder is None,
        },
        stored is Absent ==> (result matches Ok(v) && texts(v@) == seq!["unconfigured"@]),
        stored matches StoredTvFolder::Text(t) ==> (t@.len() > 0 ==> {
            &&& final(state).folder == Some(t)
            &&& (result matches Ok(v) && v@.len() == 2 && v@[1] == t && exists|p: &str, ready: bool|
                p@ == t@ && #[trigger] call_ensures(folder_ready, (p,), ready) && v@[0]@ == (if ready {
                    "ready"@
                } else {
                    "unavailable"@
                }))
        }),
        result is Ok ==> {
            &&& final(state).generation == next_count(old(state).generation)
            &&& final(state).completed_scan is None
            &&& final(state).metadata_invalidated_from(*old(state))
            &&& final(state).metadata_client_generation == old(state).metadata_client_generation
        },
        result is Ok <==> loaded_folder(stored) is Ok,
        result is Ok ==> optional_view(final(state).folder) == loaded_folder(stored)->Ok_0,
{
    proof {
        reveal_strlit("unconfigured");
        reveal_strlit("ready");
        reveal_strlit("unavailable");
    }
    match stored {
        StoredTvFolder::Unreadable => Err(TV_FOLDER_STORAGE_FAILED),
        StoredTvFolder::Absent => {
            state.replace_tv_folder(None);
            let mut response: Vec<String> = Vec::new();
            response.push(owned("unconfigured"));
            assert(texts(response@) =~= seq!["unconfigured"@]);
            Ok(response)
        },
        StoredTvFolder::Text(folder) => {
            if chars_of(folder.as_str()).len() == 0 {
                return Err(TV_FOLDER_STORAGE_FAILED);
            }
            let ready = folder_ready(folder.as_str());
            let status = if ready {
                owned("ready")
            } else {
                owned("unavailable")
            };
            let mut response: Vec<String> = Vec::new();
            response.push(status);
            response.push(folder.clone());
            state.replace_tv_folder(Some(folder));
            Ok(response)
        },
    }
}

/// Makes the chosen folder the TV folder: `folder` is the chosen folder made canonical, none
/// when it is not a reachable directory (`TV_FOLDER_UNAVAILABLE`); `save` remembers it, and
/// when that fails the answer is `TV_FOLDER_STORAGE_FAILED`; either failure changes nothing.
/// Otherwise the folder is configured (the generation advances, the completed scan and the
/// metadata operations are dropped) and given back.
pub fn set_tv_folder(
    state: &mut TvLibraryState,
    folder: Option<String>,
    save: impl FnOnce(&str) -> bool,
) -> (result: Result<String, &'static str>)
    requires
        folder matches Some(f) ==> forall|p: &str| p@ == f@ ==> call_requires(save, (p,)),
    ensures
        folder is None ==> result == Err::<String, &'static str>(TV_FOLDER_UNAVAILABLE) && *final(state)
            == *old(state),
        folder matches Some(f) ==> exists|p: &str, saved: bool|
            p@ == f@ && #[trigger] call_ensures(save, (p,), saved) && if saved {
                &&& result == Ok::<String, &'static str>(f)
                &&& final(state).folder == Some(f)
                &&& final(state).generation == next_count(old(state).generation)
                &&& final(state).completed_scan is None
                &&& final(state).metadata_invalidated_from(*old(state))
                &&& final(state).metadata_client_generation == old(state).metadata_client_generation
            } else {
                result == Err::<String, &'static str>(TV_FOLDER_STORAGE_FAILED) && *final(state)
                    == *old(state)
            },
{
    let folder = match folder {
        None => return Err(TV_FOLDER_UNAVAILABLE),
        Some(f) => f,
    };
    let p: &str = folder.as_str();
    let saved = save(p);
    if !saved {
        return Err(TV_FOLDER_STORAGE_FAILED);
    }
    let response = folder.clone();
    state.replace_tv_folder(Some(folder));
    Ok(response)
}

/// Forgets the TV folder: `remove` deletes the file that remembers it (an absent file counts as
/// removed); when that fails the answer is `TV_FOLDER_STORAGE_FAILED` and nothing changes.
/// Otherwise no folder is configured, the generation advances and the completed scan and the
/// metadata operations are dropped.
pub fn clear_tv_folder(state: &mut TvLibraryState, remove: impl FnOnce() -> bool) -> (result: Result<
    (),
    &'static str,
>)
    requires
        call_requires(remove, ()),
    ensures
        exists|removed: bool| #[trigger] call_ensures(remove, (), removed) && if removed {
            &&& result is Ok
            &&& final(state).folder is None
            &&& final(state).generation == next_count(old(state).generation)
            &&& final(state).completed_scan is None
            &&& final(state).metadata_invalidated_from(*old(state))
            &&& final(state).metadata_client_generation == old(state).metadata_client_generation
        } else {
            result == Err::<(), &'static str>(TV_FOLDER_STORAGE_FAILED) && *final(state) == *old(state)
        },
{
    if !remove() {
        return Err(TV_FOLDER_STORAGE_FAILED);
    }
    state.replace_tv_folder(None);
    Ok(())
}

/// The configured folder.
pub fn configured_tv_folder(state: &TvLibraryState) -> (result: Result<Option<String>, &'static str>)
    ensures
        result == Ok::<Option<String>, &'static str>(state.folder),
{
    match &state.folder {
        Some(folder) => Ok(Some(folder.clone())),
        None => Ok(None),
    }
}

pub const TV_FILE_OPEN_FAILED: &'static str = "tv_file_open_failed";

pub const TV_FILE_OPEN_NOT_FILE: &'static str = "tv_file_open_not_file";

pub const TV_FILE_OPEN_NOT_FOUND: &'static str = "tv_file_open_not_found";

pub const TV_FILE_OPEN_OUTSIDE_FOLDER: &'static str = "tv_file_open_outside_folder";

pub const TV_FILE_OPEN_STALE: &'static str = "tv_file_open_stale";

pub const TV_FILE_OPEN_UNAVAILABLE: &'static str = "tv_file_open_unavailable";

pub const TV_FILE_OPEN_UNSUPPORTED: &'static str = "tv_file_open_unsupported";

pub const TV_FILE_REVEAL_FAILED: &'static str = "tv_file_reveal_failed";

pub const TV_FILE_REVEAL_NOT_FILE: &'static str = "tv_file_reveal_not_file";

pub const TV_FILE_REVEAL_NOT_FOUND: &'static str = "tv_file_reveal_not_found";

pub const TV_FILE_REVEAL_OUTSIDE_FOLDER: &'static str = "tv_file_reveal_outside_folder";

pub const TV_FILE_REVEAL_STALE: &'static str = "tv_file_reveal_stale";

pub const TV_FILE_REVEAL_UNAVAILABLE: &'static str = "tv_file_reveal_unavailable";

pub const TV_FILE_REVEAL_UNSUPPORTED: &'static str = "tv_file_reveal_unsupported";

/// Why a file action was refused.
#[derive(Clone, Copy, Debug, PartialEq, Eq)]
pub enum TvFileValidationError {
    NotFound,
    Unavailable,
    NotFile,
    Unsupported,
    OutsideFolder,
    Stale,
    Dispatch,
}

/// How a file-system query failed: the entry is not there, or it could not be queried.
#[derive(Clone, Copy, Debug, PartialEq, Eq)]
pub enum TvIoFailure {
    NotFound,
    Other,
}

/// What `symlink_metadata` reported for one directory or file on the way to a file.
#[derive(Clone, Copy, Debug, PartialEq, Eq)]
pub enum TvEntryKind {
    Present,
    Symlink,
    Failed(TvIoFailure),
}

/// One component of a path below the library folder: a plain name with what was found at
/// the path that ends there, or a component that is not a plain name (`.`, `..`, a root).
#[derive(Clone, Copy, Debug, PartialEq, Eq)]
pub enum TvPathComponent {
    Normal(TvEntryKind),
    Special,
}

/// What `metadata` reported for a requested file.
#[derive(Debug, PartialEq, Eq)]
pub struct TvFileMetadata {
    pub is_file: bool,
    pub size: u64,
    pub fingerprint: String,
    /// Modification time in nanoseconds relative to the Unix epoch.
    pub modified: Result<i128, TvIoFailure>,
}

/// Where `canonicalize` resolved a requested file, and whether that lies in the folder.
#[derive(Clone, Debug, PartialEq, Eq)]
pub struct TvCanonicalPath {
    pub path: String,
    pub within_folder: bool,
}

/// What the file system said about a requested file, gathered before deciding on it.
#[derive(Debug, PartialEq, Eq)]
pub struct TvFileObservation {
    /// The identity of the library folder, when it could be read.
    pub folder_identity: Option<String>,
    /// The components of the path below the folder; none when it is not below the folder.
    pub components: Option<Vec<TvPathComponent>>,
    pub metadata: Result<TvFileMetadata, TvIoFailure>,
    pub canonical: Result<TvCanonicalPath, TvIoFailure>,
    /// The identity of the file, when it could be read.
    pub file_identity: Option<String>,
}

pub open spec fn io_error(failure: TvIoFailure) -> TvFileValidationError {
    match failure {
        TvIoFailure::NotFound => TvFileValidationError::NotFound,
        TvIoFailure::Other => TvFileValidationError::Unavailable,
    }
}

fn io_error_exec(failure: TvIoFailure) -> (e: TvFileValidationError)
    ensures
        e == io_error(failure),
{
    match failure {
        TvIoFailure::NotFound => TvFileValidationError::NotFound,
        TvIoFailure::Other => TvFileValidationError::Unavailable,
    }
}

/// The refusal that the first failing component of a path gives, if any.
pub open spec fn component_failure(components: Seq<TvPathComponent>) -> Option<TvFileValidationError>
    decreases components.len(),
{
    if components.len() == 0 {
        None
    } else {
        match components[0] {
            TvPathComponent::Special => Some(TvFileValidationError::OutsideFolder),
            TvPathComponent::Normal(TvEntryKind::Failed(f)) => Some(io_error(f)),
            TvPathComponent::Normal(TvEntryKind::Symlink) => Some(TvFileValidationError::NotFile),
            TvPathComponent::Normal(TvEntryKind::Present) => component_failure(
                components.drop_first(),
            ),
        }
    }
}

/// The first scanned file at `path`.
pub open spec fn find_file(files: Seq<TrustedTvFile>, path: Seq<char>) -> Option<TrustedTvFile>
    decreases files.len(),
{
    if files.len() == 0 {
        None
    } else if files[0].path@ == path {
        Some(files[0])
    } else {
        find_file(files.drop_first(), path)
    }
}

/// Whether the scanned file still is what the scan saw: same size, identity, fingerprint
/// and modification time, in that order of checks.
pub open spec fn file_unchanged(
    trusted: TrustedTvFile,
    metadata: TvFileMetadata,
    file_identity: Option<String>,
) -> Result<(), TvFileValidationError> {
    if trusted.size != metadata.size || optional_view(file_identity) != Some(trusted.file_identity@)
        || metadata.fingerprint@ != trusted.fingerprint@ {
        Err(TvFileValidationError::Stale)
    } else {
        match metadata.modified {
            Err(f) => Err(io_error(f)),
            Ok(time) => if time != trusted.modified {
                Err(TvFileValidationError::Stale)
            } else {
                Ok(())
            },
        }
    }
}

/// Whether `requested` may be acted on as a file of `scan` under `folder`: the scan is of this
/// folder (and of `generation`, when given); the path lies below the folder through plain,
/// existing, non-link components; it is a supported media file that resolves to itself; and
/// it is the file the scan saw, unchanged.
pub open spec fn spec_validate_tv_file(
    requested: Seq<char>,
    folder: Seq<char>,
    scan: CompletedTvScan,
    generation: Option<u64>,
    seen: TvFileObservation,
) -> Result<(), TvFileValidationError> {
    if scan.folder@ != folder || optional_view(seen.folder_identity) != Some(scan.folder_identity@)
        || (generation matches Some(g) && g != scan.generation) {
        Err(TvFileValidationError::Stale)
    } else {
        match seen.components {
            None => Err(TvFileValidationError::OutsideFolder),
            Some(components) => match component_failure(components@) {
                Some(e) => Err(e),
                None => match seen.metadata {
                    Err(f) => Err(io_error(f)),
                    Ok(metadata) => if !metadata.is_file {
                        Err(TvFileValidationError::NotFile)
                    } else if !spec_supported_media(requested) {
                        Err(TvFileValidationError::Unsupported)
                    } else {
                        match seen.canonical {
                            Err(f) => Err(io_error(f)),
                            Ok(canonical) => if canonical.path@ != requested
                                || !canonical.within_folder {
                                Err(TvFileValidationError::OutsideFolder)
                            } else {
                                match find_file(scan.files@, requested) {
                                    None => Err(TvFileValidationError::Stale),
                                    Some(trusted) => file_unchanged(
                                        trusted,
                                        metadata,
                                        seen.file_identity,
                                    ),
                                }
                            },
                        }
                    },
                },
            },
        }
    }
}

fn optional_text_equals(value: &Option<String>, text: &String) -> (b: bool)
    ensures
        b == (optional_view(*value) == Some(text@)),
{
    match value {
        Some(v) => *v == *text,
        None => false,
    }
}

fn first_component_failure(components: &Vec<TvPathComponent>) -> (failure: Option<
    TvFileValidationError,
>)
    ensures
        failure == component_failure(components@),
{
    let mut i: usize = 0;
    assert(components@.subrange(0, components@.len() as int) =~= components@);
    while i < components.len()
        invariant
            i <= components@.len(),
            component_failure(components@) == component_failure(
                components@.subrange(i as int, components@.len() as int),
            ),
        decreases components@.len() - i,
    {
        let ghost rest = components@.subrange(i as int, components@.len() as int);
        assert(rest.drop_first() =~= components@.subrange(i + 1, components@.len() as int));
        match components[i] {
            TvPathComponent::Special => {
                return Some(TvFileValidationError::OutsideFolder);
            },
            TvPathComponent::Normal(TvEntryKind::Failed(f)) => {
                return Some(io_error_exec(f));
            },
            TvPathComponent::Normal(TvEntryKind::Symlink) => {
                return Some(TvFileValidationError::NotFile);
            },
            TvPathComponent::Normal(TvEntryKind::Present) => {},
        }
        i = i + 1;
    }
    assert(components@.subrange(i as int, components@.len() as int).len() == 0);
    None
}

/// The index of the first scanned file at `path`.
fn find_file_index(files: &Vec<TrustedTvFile>, path: &str) -> (index: Option<usize>)
    ensures
        match index {
            Some(k) => k < files@.len() && find_file(files@, path@) == Some(files@[k as int]),
            None => find_file(files@, path@) is None,
        },
{
    let mut i: usize = 0;
    assert(files@.subrange(0, files@.len() as int) =~= files@);
    while i < files.len()
        invariant
            i <= files@.len(),
            find_file(files@, path@) == find_file(
                files@.subrange(i as int, files@.len() as int),
                path@,
            ),
        decreases files@.len() - i,
    {
        let ghost rest = files@.subrange(i as int, files@.len() as int);
        assert(rest.drop_first() =~= files@.subrange(i + 1, files@.len() as int));
        assert(rest[0] == files@[i as int]);
        if same_text(files[i].path.as_str(), path) {
            return Some(i);
        }
        i = i + 1;
    }
    assert(files@.subrange(i as int, files@.len() as int).len() == 0);
    None
}

/// Decides whether `requested` may be acted on as a file of `scan` under `folder`.
pub fn validate_tv_file(
    requested: &str,
    folder: &str,
    scan: &CompletedTvScan,
    generation: Option<u64>,
    seen: &TvFileObservation,
) -> (result: Result<(), TvFileValidationError>)
    ensures
        result == spec_validate_tv_file(requested@, folder@, *scan, generation, *seen),
{
    let generation_differs = match generation {
        Some(g) => g != scan.generation,
        None => false,
    };
    if !same_text(scan.folder.as_str(), folder) || !optional_text_equals(&seen.folder_identity, &scan.folder_identity)
        || generation_differs {
        return Err(TvFileValidationError::Stale);
    }
    let components = match &seen.components {
        None => return Err(TvFileValidationError::OutsideFolder),
        Some(components) => components,
    };
    match first_component_failure(components) {
        Some(e) => return Err(e),
        None => {},
    }
    let metadata = match &seen.metadata {
        Err(f) => return Err(io_error_exec(*f)),
        Ok(metadata) => metadata,
    };
    if !metadata.is_file {
        return Err(TvFileValidationError::NotFile);
    }
    if !is_supported_library_media(requested) {
        return Err(TvFileValidationError::Unsupported);
    }
    let canonical = match &seen.canonical {
        Err(f) => return Err(io_error_exec(*f)),
        Ok(canonical) => canonical,
    };
    if !same_text(canonical.path.as_str(), requested) || !canonical.within_folder {
        return Err(TvFileValidationError::OutsideFolder);
    }
    let trusted = match find_file_index(&scan.files, requested) {
        None => return Err(TvFileValidationError::Stale),
        Some(k) => &scan.files[k],
    };
    if trusted.size != metadata.size || !optional_text_equals(&seen.file_identity, &trusted.file_identity)
        || metadata.fingerprint != trusted.fingerprint {
        return Err(TvFileValidationError::Stale);
    }
    match metadata.modified {
        Err(f) => Err(io_error_exec(f)),
        Ok(time) => if time != trusted.modified {
            Err(TvFileValidationError::Stale)
        } else {
            Ok(())
        },
    }
}

/// What the file system said before a file action: whether the configured folder still is a
/// directory at its canonical path, and what it said about the requested file.
#[derive(Debug, PartialEq, Eq)]
pub struct TvFileActionObservation {
    pub folder_ready: bool,
    pub file: TvFileObservation,
}

/// Whether a file action on `path` may be dispatched: a folder is configured and ready, a
/// scan completed, and the file validates against that scan.
pub open spec fn spec_tv_file_action(
    path: Seq<char>,
    state: TvLibraryState,
    seen: TvFileActionObservation,
) -> Result<(), TvFileValidationError> {
    match state.folder {
        None => Err(TvFileValidationError::Unavailable),
        Some(folder) => if !seen.folder_ready {
            Err(TvFileValidationError::Unavailable)
        } else {
            match state.completed_scan {
                None => Err(TvFileValidationError::Stale),
                Some(scan) => spec_validate_tv_file(path, folder@, scan, None, seen.file),
            }
        },
    }
}

/// Validates `path` and, only when it validates, hands it to `dispatch`.
fn run_tv_file_action(
    path: &str,
    state: &TvLibraryState,
    seen: &TvFileActionObservation,
    dispatch: impl FnOnce(&str) -> Result<(), ()>,
) -> (result: Result<(), TvFileValidationError>)
    requires
        spec_tv_file_action(path@, *state, *seen) is Ok ==> call_requires(dispatch, (path,)),
    ensures
        spec_tv_file_action(path@, *state, *seen) matches Err(e) ==> result == Err::<(), _>(e),
        spec_tv_file_action(path@, *state, *seen) is Ok ==> exists|outcome: Result<(), ()>|
            call_ensures(dispatch, (path,), outcome) && (outcome is Ok ==> result is Ok) && (
            outcome is Err ==> result == Err::<(), _>(TvFileValidationError::Dispatch)),
{
    let folder = match &state.folder {
        None => return Err(TvFileValidationError::Unavailable),
        Some(folder) => folder,
    };
    if !seen.folder_ready {
        return Err(TvFileValidationError::Unavailable);
    }
    let scan = match &state.completed_scan {
        None => return Err(TvFileValidationError::Stale),
        Some(scan) => scan,
    };
    match validate_tv_file(path, folder.as_str(), scan, None, &seen.file) {
        Err(e) => return Err(e),
        Ok(()) => {},
    }
    let outcome = dispatch(path);
    match outcome {
        Ok(()) => Ok(()),
        Err(()) => Err(TvFileValidationError::Dispatch),
    }
}

/// The error that opening a file reports for a refusal.
pub open spec fn open_error(e: TvFileValidationError) -> &'static str {
    match e {
        TvFileValidationError::NotFound => TV_FILE_OPEN_NOT_FOUND,
        TvFileValidationError::Unavailable => TV_FILE_OPEN_UNAVAILABLE,
        TvFileValidationError::NotFile => TV_FILE_OPEN_NOT_FILE,
        TvFileValidationError::Unsupported => TV_FILE_OPEN_UNSUPPORTED,
        TvFileValidationError::OutsideFolder => TV_FILE_OPEN_OUTSIDE_FOLDER,
        TvFileValidationError::Stale => TV_FILE_OPEN_STALE,
        TvFileValidationError::Dispatch => TV_FILE_OPEN_FAILED,
    }
}

/// The error that revealing a file reports for a refusal.
pub open spec fn reveal_error(e: TvFileValidationError) -> &'static str {
    match e {
        TvFileValidationError::NotFound => TV_FILE_REVEAL_NOT_FOUND,
        TvFileValidationError::Unavailable => TV_FILE_REVEAL_UNAVAILABLE,
        TvFileValidationError::NotFile => TV_FILE_REVEAL_NOT_FILE,
        TvFileValidationError::Unsupported => TV_FILE_REVEAL_UNSUPPORTED,
        TvFileValidationError::OutsideFolder => TV_FILE_REVEAL_OUTSIDE_FOLDER,
        TvFileValidationError::Stale => TV_FILE_REVEAL_STALE,
        TvFileValidationError::Dispatch => TV_FILE_REVEAL_FAILED,
    }
}

/// The reveal error of the same kind as the open error `open`.
pub open spec fn reveal_counterpart(open: &'static str) -> &'static str {
    if open == TV_FILE_OPEN_NOT_FOUND {
        TV_FILE_REVEAL_NOT_FOUND
    } else if open == TV_FILE_OPEN_UNAVAILABLE {
        TV_FILE_REVEAL_UNAVAILABLE
    } else if open == TV_FILE_OPEN_NOT_FILE {
        TV_FILE_REVEAL_NOT_FILE
    } else if open == TV_FILE_OPEN_UNSUPPORTED {
        TV_FILE_REVEAL_UNSUPPORTED
    } else if open == TV_FILE_OPEN_OUTSIDE_FOLDER {
        TV_FILE_REVEAL_OUTSIDE_FOLDER
    } else if open == TV_FILE_OPEN_STALE {
        TV_FILE_REVEAL_STALE
    } else {
        TV_FILE_REVEAL_FAILED
    }
}

/// Revealing a file behaves as opening it does: on every path, state and observation both
/// refuse alike (each open error turned into the reveal error of its kind), both hand the
/// path to their dispatch on the same inputs, and a failed dispatch is each one's own
/// failure.
pub proof fn law_reveal_behaves_like_open(
    path: Seq<char>,
    state: TvLibraryState,
    seen: TvFileActionObservation,
)
    ensures
        spec_tv_file_action(path, state, seen) matches Err(e) ==> reveal_error(e)
            == reveal_counterpart(open_error(e)),
        reveal_counterpart(TV_FILE_OPEN_FAILED) == TV_FILE_REVEAL_FAILED,
{
    reveal_strlit("tv_file_open_failed");
    reveal_strlit("tv_file_open_not_file");
    reveal_strlit("tv_file_open_not_found");
    reveal_strlit("tv_file_open_outside_folder");
    reveal_strlit("tv_file_open_stale");
    reveal_strlit("tv_file_open_unavailable");
    reveal_strlit("tv_file_open_unsupported");
}

/// Opens a scanned TV file: `dispatch` receives exactly `path`, and only when the file
/// validates against the completed scan; each refusal has its own error.
pub fn open_tv_file_with(
    path: &str,
    state: &TvLibraryState,
    seen: &TvFileActionObservation,
    dispatch: impl FnOnce(&str) -> Result<(), ()>,
) -> (result: Result<(), &'static str>)
    requires
        spec_tv_file_action(path@, *state, *seen) is Ok ==> call_requires(dispatch, (path,)),
    ensures
        spec_tv_file_action(path@, *state, *seen) matches Err(e) ==> result == Err::<(), _>(
            open_error(e),
        ),
        spec_tv_file_action(path@, *state, *seen) is Ok ==> exists|outcome: Result<(), ()>|
            call_ensures(dispatch, (path,), outcome) && (outcome is Ok ==> result is Ok) && (
            outcome is Err ==> result == Err::<(), _>(TV_FILE_OPEN_FAILED)),
{
    match run_tv_file_action(path, state, seen, dispatch) {
        Ok(()) => Ok(()),
        Err(e) => Err(
            match e {
                TvFileValidationError::NotFound => TV_FILE_OPEN_NOT_FOUND,
                TvFileValidationError::Unavailable => TV_FILE_OPEN_UNAVAILABLE,
                TvFileValidationError::NotFile => TV_FILE_OPEN_NOT_FILE,
                TvFileValidationError::Unsupported => TV_FILE_OPEN_UNSUPPORTED,
                TvFileValidationError::OutsideFolder => TV_FILE_OPEN_OUTSIDE_FOLDER,
                TvFileValidationError::Stale => TV_FILE_OPEN_STALE,
                TvFileValidationError::Dispatch => TV_FILE_OPEN_FAILED,
            },
        ),
    }
}

/// Reveals a scanned TV file: `dispatch` receives exactly `path`, and only when the file
/// validates against the completed scan; each refusal has its own error.
pub fn reveal_tv_file_with(
    path: &str,
    state: &TvLibraryState,
    seen: &TvFileActionObservation,
    dispatch: impl FnOnce(&str) -> Result<(), ()>,
) -> (result: Result<(), &'static str>)
    requires
        spec_tv_file_action(path@, *state, *seen) is Ok ==> call_requires(dispatch, (path,)),
    ensures
        spec_tv_file_action(path@, *state, *seen) matches Err(e) ==> result == Err::<(), _>(
            reveal_error(e),
        ),
        spec_tv_file_action(path@, *state, *seen) is Ok ==> exists|outcome: Result<(), ()>|
            call_ensures(dispatch, (path,), outcome) && (outcome is Ok ==> result is Ok) && (
            outcome is Err ==> result == Err::<(), _>(TV_FILE_REVEAL_FAILED)),
{
    match run_tv_file_action(path, state, seen, dispatch) {
        Ok(()) => Ok(()),
        Err(e) => Err(
            match e {
                TvFileValidationError::NotFound => TV_FILE_REVEAL_NOT_FOUND,
                TvFileValidationError::Unavailable => TV_FILE_REVEAL_UNAVAILABLE,
                TvFileValidationError::NotFile => TV_FILE_REVEAL_NOT_FILE,
                TvFileValidationError::Unsupported => TV_FILE_REVEAL_UNSUPPORTED,
                TvFileValidationError::OutsideFolder => TV_FILE_REVEAL_OUTSIDE_FOLDER,
                TvFileValidationError::Stale => TV_FILE_REVEAL_STALE,
                TvFileValidationError::Dispatch => TV_FILE_REVEAL_FAILED,
            },
        ),
    }
}

/// Starts a scan of the configured folder: the generation advances, and the completed scan
/// and the metadata operations are dropped. Gives the folder and the scan's generation.
pub fn begin_tv_library_scan(state: &mut TvLibraryState) -> (result: Result<(String, u64), &'static str>)
    ensures
        old(state).folder is None ==> result == Err::<(String, u64), _>(TV_FOLDER_UNAVAILABLE)
            && *final(state) == *old(state),
        old(state).folder matches Some(folder) ==> {
            &&& result matches Ok((f, generation)) && f == folder && generation == next_count(
                old(state).generation,
            )
            &&& final(state).folder == old(state).folder
            &&& final(state).generation == next_count(old(state).generation)
            &&& final(state).completed_scan is None
            &&& final(state).metadata_invalidated_from(*old(state))
            &&& final(state).metadata_client_generation == old(state).metadata_client_generation
        },
{
    let folder = match &state.folder {
        None => return Err(TV_FOLDER_UNAVAILABLE),
        Some(folder) => folder.clone(),
    };
    state.generation = advance(state.generation);
    state.completed_scan = None;
    state.invalidate_tv_metadata_context();
    Ok((folder, state.generation))
}

/// What a store read gave, as views: the associations, or nothing when it failed.
pub open spec fn stored_view(stored: Result<Vec<TvMetadataAssociation>, TvMetadataReadError>) -> Option<
    Seq<TvAssociationView>,
> {
    match stored {
        Ok(v) => Some(associations_view(v@)),
        Err(_) => None,
    }
}

/// The scope of reconciling against groups with these titles.
pub open spec fn scan_scope(
    folder: Seq<char>,
    folder_identity: Seq<char>,
    titles: Seq<Seq<char>>,
    files: Seq<TrustedTvFile>,
    absent: Seq<String>,
) -> TvReconcileScope {
    TvReconcileScope { folder, folder_identity, titles, files, absent: texts(absent) }
}

/// Whether `groups` are the show groups of a scan of `folder`: one per show title of `files`
/// in title order, each with its identifier and members; bound to and flagged by the stored
/// associations when the store could be read, else unbound and unflagged.
pub open spec fn scanned_groups(
    groups: Seq<TrustedTvShowGroup>,
    folder: Seq<char>,
    folder_identity: Seq<char>,
    files: Seq<TrustedTvFile>,
    stored: Option<Seq<TvAssociationView>>,
    absent: Seq<String>,
) -> bool {
    let scope = scan_scope(folder, folder_identity, group_titles(groups), files, absent);
    &&& are_show_titles(group_titles(groups), files)
    &&& forall|k: int|
        0 <= k < groups.len() ==> {
            &&& (#[trigger] groups[k]).group_id@ == spec_group_id(
                folder_identity,
                files,
                groups[k].show_title@,
            )
            &&& texts(groups[k].member_paths@) == file_paths(show_members(files, groups[k].show_title@))
            &&& match stored {
                Some(v) => {
                    &&& groups[k].metadata_attention == needs_attention(v, k, scope)
                    &&& association_option_view(groups[k].association) == bound_association(
                        v,
                        k,
                        None,
                        scope,
                    )
                },
                None => !groups[k].metadata_attention && groups[k].association is None,
            }
        }
}

/// The metadata status of a scan: `attention` for an invalid store, `unavailable` for an
/// unreadable one; for a readable one `ready`, unless reconciliation changed it and the new
/// store could not be encoded or written.
pub open spec fn scan_status_ok(
    status: TvMetadataStatus,
    stored: Result<Vec<TvMetadataAssociation>, TvMetadataReadError>,
    scope: TvReconcileScope,
) -> bool {
    match stored {
        Err(TvMetadataReadError::Invalid) => status == TvMetadataStatus::Attention,
        Err(TvMetadataReadError::Unavailable) => status == TvMetadataStatus::Unavailable,
        Ok(v) => if !any_change(associations_view(v@), scope) {
            status == TvMetadataStatus::Ready
        } else {
            match spec_encoded_store(reconciled_associations(associations_view(v@), scope)) {
                None => status == TvMetadataStatus::Unavailable,
                Some(_) => status == TvMetadataStatus::Ready || status
                    == TvMetadataStatus::Unavailable,
            }
        },
    }
}

/// Whether the library still is where the scan `generation` of `folder` began.
pub open spec fn scan_current(state: TvLibraryState, folder: Seq<char>, generation: u64) -> bool {
    match state.folder {
        Some(f) => state.generation == generation && f@ == folder,
        None => false,
    }
}

/// The store that a scan must write: the reconciled associations, encoded, when the store
/// could be read and reconciliation changed it.
pub open spec fn store_to_write(
    stored: Result<Vec<TvMetadataAssociation>, TvMetadataReadError>,
    scope: TvReconcileScope,
) -> Option<Seq<u8>> {
    match stored {
        Ok(v) => if any_change(associations_view(v@), scope) {
            spec_encoded_store(reconciled_associations(associations_view(v@), scope))
        } else {
            None
        },
        Err(_) => None,
    }
}

/// Whether `scan` is the completed scan of `files`, found in `folder` with `folder_identity`
/// by the scan `generation`: its show groups are built and reconciled with the stored
/// associations, and its metadata status follows from the store.
pub open spec fn is_assembled_scan(
    scan: CompletedTvScan,
    folder: String,
    generation: u64,
    folder_identity: String,
    files: Seq<TrustedTvFile>,
    stored: Result<Vec<TvMetadataAssociation>, TvMetadataReadError>,
    absent: Seq<String>,
) -> bool {
    let scope = scan_scope(folder@, folder_identity@, group_titles(scan.groups@), files, absent);
    &&& scan.folder == folder
    &&& scan.folder_identity == folder_identity
    &&& scan.generation == generation
    &&& scan.files@ == files
    &&& scanned_groups(scan.groups@, folder@, folder_identity@, files, stored_view(stored), absent)
    &&& scan_status_ok(scan.metadata_status, stored, scope)
}

/// Whether the store that `scan` had to write, if any, was handed to `write_store`, and its
/// answer decided between `ready` and `unavailable`.
pub open spec fn store_written(
    scan: CompletedTvScan,
    stored: Result<Vec<TvMetadataAssociation>, TvMetadataReadError>,
    absent: Seq<String>,
    write_store: impl FnOnce(Vec<u8>) -> bool,
) -> bool {
    let scope = scan_scope(
        scan.folder@,
        scan.folder_identity@,
        group_titles(scan.groups@),
        scan.files@,
        absent,
    );
    match store_to_write(stored, scope) {
        Some(bytes) => exists|w: Vec<u8>, ok: bool|
            w@ == bytes && call_ensures(write_store, (w,), ok) && (scan.metadata_status
                == TvMetadataStatus::Ready) == ok,
        None => true,
    }
}

/// Builds the completed scan of `files`: the show groups are built and reconciled with the
/// stored associations, and a changed store is encoded and handed to `write_store`, whose
/// `false` marks the metadata unavailable.
pub(crate) fn assemble_tv_scan(
    folder: String,
    generation: u64,
    folder_identity: String,
    files: Vec<TrustedTvFile>,
    stored: Result<Vec<TvMetadataAssociation>, TvMetadataReadError>,
    absent: Vec<String>,
    write_store: impl FnOnce(Vec<u8>) -> bool,
) -> (scan: CompletedTvScan)
    requires
        stored is Ok ==> forall|bytes: Vec<u8>| call_requires(write_store, (bytes,)),
    ensures
        is_assembled_scan(scan, folder, generation, folder_identity, files@, stored, absent@),
        store_written(scan, stored, absent@, write_store),
{
    let mut groups = build_tv_show_groups(folder_identity.as_str(), &files);
    let ghost fresh = groups@;
    let ghost scope = scan_scope(folder@, folder_identity@, group_titles(fresh), files@, absent@);
    let ghost stored_copy = stored;
    let mut status = TvMetadataStatus::Ready;
    let mut associations: Vec<TvMetadataAssociation> = Vec::new();
    match stored {
        Ok(v) => {
            associations = v;
        },
        Err(TvMetadataReadError::Invalid) => {
            status = TvMetadataStatus::Attention;
        },
        Err(TvMetadataReadError::Unavailable) => {
            status = TvMetadataStatus::Unavailable;
        },
    }
    let ghost read = associations_view(associations@);
    let changed = if matches!(status, TvMetadataStatus::Ready) {
        reconcile_tv_metadata_associations(
            folder.as_str(),
            folder_identity.as_str(),
            &files,
            &absent,
            &mut groups,
            &mut associations,
        )
    } else {
        false
    };
    if changed {
        match encoded_tv_metadata_associations(associations.as_slice()) {
            Ok(bytes) => {
                let ghost written = bytes;
                let ok = write_store(bytes);
                if !ok {
                    status = TvMetadataStatus::Unavailable;
                }
                assert(written@ == spec_encoded_store(reconciled_associations(read, scope)).unwrap());
            },
            Err(_) => {
                status = TvMetadataStatus::Unavailable;
            },
        }
    }
    proof {
        assert(group_titles(groups@) == group_titles(fresh));
        assert forall|k: int| 0 <= k < groups@.len() implies (#[trigger] groups@[k]).group_id@
            == spec_group_id(folder_identity@, files@, groups@[k].show_title@) by {
            assert(groups@[k].show_title == fresh[k].show_title);
        }
    }
    CompletedTvScan { folder, folder_identity, generation, files, groups, metadata_status: status }
}

/// Completes a scan that `begin_tv_library_scan` started, given what was found: the folder's
/// identity and files, what the metadata store gave, and which anchor paths are absent. When
/// the library moved on meanwhile (another scan began or the folder changed) the scan is
/// stale and nothing changes. Otherwise the scan is assembled as `assemble_tv_scan` says,
/// becomes the completed scan, and its response is returned.
pub fn complete_tv_library_scan(
    state: &mut TvLibraryState,
    folder: String,
    generation: u64,
    folder_identity: String,
    files: Vec<TrustedTvFile>,
    stored: Result<Vec<TvMetadataAssociation>, TvMetadataReadError>,
    absent: Vec<String>,
    write_store: impl FnOnce(Vec<u8>) -> bool,
) -> (result: Result<Vec<String>, &'static str>)
    requires
        scan_current(*old(state), folder@, generation) && stored is Ok ==> forall|bytes: Vec<u8>|
            call_requires(write_store, (bytes,)),
    ensures
        !scan_current(*old(state), folder@, generation) ==> result == Err::<Vec<String>, _>(
            TV_LIBRARY_STALE,
        ) && *final(state) == *old(state),
        scan_current(*old(state), folder@, generation) ==> {
            &&& result is Ok
            &&& final(state).folder == old(state).folder
            &&& final(state).generation == old(state).generation
            &&& final(state).metadata_client_generation == old(state).metadata_client_generation
            &&& final(state).metadata_operation_generation == old(
                state,
            ).metadata_operation_generation
            &&& final(state).metadata_search == old(state).metadata_search
            &&& final(state).metadata_verification == old(state).metadata_verification
            &&& final(state).completed_scan matches Some(scan) && {
                &&& is_assembled_scan(scan, folder, generation, folder_identity, files@, stored, absent@)
                &&& store_written(scan, stored, absent@, write_store)
                &&& result matches Ok(response) && texts(response@) == scan_response(scan)
            }
        },
{
    let current = match &state.folder {
        Some(f) => state.generation == generation && *f == folder,
        None => false,
    };
    if !current {
        return Err(TV_LIBRARY_STALE);
    }
    let scan = assemble_tv_scan(folder, generation, folder_identity, files, stored, absent, write_store);
    let response = encode_tv_scan(&scan);
    state.completed_scan = Some(scan);
    Ok(response)
}

/// Whether `probe` answered `answer` when asked about the relative path `path`.
pub open spec fn probe_answered<F: Fn(&str) -> bool>(probe: F, path: Seq<char>, answer: bool) -> bool {
    exists|s: &str| s@ == path && #[trigger] call_ensures(probe, (s,), answer)
}

/// Whether `absent` holds exactly the anchor paths, among those that reconciling `files` with
/// the stored associations needs, that `probe` answered absent; none when the store could not
/// be read.
pub open spec fn absent_reported<F: Fn(&str) -> bool>(
    absent: Seq<String>,
    folder: Seq<char>,
    folder_identity: Seq<char>,
    files: Seq<TrustedTvFile>,
    stored: Result<Vec<TvMetadataAssociation>, TvMetadataReadError>,
    probe: F,
) -> bool {
    &&& stored is Err ==> absent.len() == 0
    &&& forall|p: Seq<char>| #[trigger] texts(absent).contains(p) ==> {
        &&& stored is Ok
        &&& needs_probe(p, folder, folder_identity, files, associations_view(stored->Ok_0@))
        &&& probe_answered(probe, p, true)
    }
    &&& forall|p: Seq<char>|
        (stored is Ok && #[trigger] needs_probe(
            p,
            folder,
            folder_identity,
            files,
            associations_view(stored->Ok_0@),
        )) && !texts(absent).contains(p) ==> probe_answered(probe, p, false)
}

/// Whether `stored` is what reading the store file `file` gives.
pub open spec fn store_read_from(
    stored: Result<Vec<TvMetadataAssociation>, TvMetadataReadError>,
    file: TvMetadataFile,
) -> bool {
    match stored {
        Ok(v) => spec_read_store(file) == Ok::<Seq<TvAssociationView>, TvMetadataReadError>(
            associations_view(v@),
        ),
        Err(e) => spec_read_store(file) == Err::<Seq<TvAssociationView>, TvMetadataReadError>(e),
    }
}

/// The files a scan keeps of those its walk found: at most `MAX_LIBRARY_FILES`, the first ones.
pub open spec fn bounded_files(files: Seq<TrustedTvFile>) -> Seq<TrustedTvFile> {
    if files.len() > MAX_LIBRARY_FILES {
        files.take(MAX_LIBRARY_FILES as int)
    } else {
        files
    }
}

/// The anchor paths that reconciling `files` with the stored associations needs to know
/// about and that `probe_absent` reports absent; none when the store could not be read.
/// Every path that the reconciliation needs is asked about: it is kept when the answer was
/// `true`, and left out when it was `false`.
pub(crate) fn absent_anchor_paths(
    folder: &str,
    folder_identity: &str,
    files: &Vec<TrustedTvFile>,
    stored: &Result<Vec<TvMetadataAssociation>, TvMetadataReadError>,
    probe_absent: &impl Fn(&str) -> bool,
) -> (absent: Vec<String>)
    requires
        stored is Ok ==> forall|p: &str| call_requires(*probe_absent, (p,)),
    ensures
        stored is Err ==> absent@.len() == 0,
        forall|p: Seq<char>| #[trigger] texts(absent@).contains(p) ==> (stored matches Ok(v)
            && needs_probe(p, folder@, folder_identity@, files@, associations_view(v@))),
        forall|p: Seq<char>| #[trigger] texts(absent@).contains(p) ==> probe_answered(
            *probe_absent,
            p,
            true,
        ),
        forall|p: Seq<char>|
            (stored is Ok && #[trigger] needs_probe(
                p,
                folder@,
                folder_identity@,
                files@,
                associations_view(stored->Ok_0@),
            )) && !texts(absent@).contains(p) ==> probe_answered(*probe_absent, p, false),
        absent_reported(absent@, folder@, folder_identity@, files@, *stored, *probe_absent),
{
    let probes = match stored {
        Ok(v) => tv_metadata_probe_paths(folder, folder_identity, files, v),
        Err(_) => Vec::new(),
    };
    let mut absent: Vec<String> = Vec::new();
    let mut i: usize = 0;
    while i < probes.len()
        invariant
            i <= probes@.len(),
            absent@.len() <= i,
            stored is Ok ==> forall|p: &str| call_requires(*probe_absent, (p,)),
            forall|k: int| 0 <= k < absent@.len() ==> texts(probes@).contains(#[trigger] absent@[k]@),
            forall|k: int| 0 <= k < absent@.len() ==> probe_answered(*probe_absent, #[trigger] absent@[k]@, true),
            forall|k: int|
                0 <= k < i ==> texts(absent@).contains(#[trigger] probes@[k]@) || probe_answered(
                    *probe_absent,
                    probes@[k]@,
                    false,
                ),
            stored is Err ==> probes@.len() == 0,
        decreases probes@.len() - i,
    {
        let asked = probes[i].as_str();
        let answer = probe_absent(asked);
        proof {
            assert(probe_answered(*probe_absent, probes@[i as int]@, answer));
        }
        if answer {
            proof {
                assert(texts(probes@)[i as int] == probes@[i as int]@);
            }
            let ghost before = absent@;
            absent.push(probes[i].clone());
            proof {
                assert forall|k: int| 0 <= k < i implies texts(absent@).contains(#[trigger] probes@[k]@)
                    || probe_answered(*probe_absent, probes@[k]@, false) by {
                    if texts(before).contains(probes@[k]@) {
                        let j = choose|j: int| 0 <= j < texts(before).len() && texts(before)[j] == probes@[k]@;
                        assert(texts(absent@)[j] == absent@[j]@);
                    }
                }
                assert(texts(absent@)[absent@.len() - 1] == probes@[i as int]@);
            }
        }
        i = i + 1;
    }
    proof {
        assert forall|p: Seq<char>| #[trigger] texts(absent@).contains(p) implies probe_answered(
            *probe_absent,
            p,
            true,
        ) by {
            let k = choose|k: int| 0 <= k < texts(absent@).len() && texts(absent@)[k] == p;
            assert(texts(absent@)[k] == absent@[k]@);
        }
        assert forall|p: Seq<char>|
            (stored is Ok && #[trigger] needs_probe(
                p,
                folder@,
                folder_identity@,
                files@,
                associations_view(stored->Ok_0@),
            )) && !texts(absent@).contains(p) implies probe_answered(*probe_absent, p, false) by {
            assert(texts(probes@).contains(p));
            let k = choose|k: int| 0 <= k < texts(probes@).len() && texts(probes@)[k] == p;
            assert(texts(probes@)[k] == probes@[k]@);
        }
        assert forall|p: Seq<char>| #[trigger] texts(absent@).contains(p) implies (stored matches Ok(v)
            && needs_probe(p, folder@, folder_identity@, files@, associations_view(v@))) by {
            let k = choose|k: int| 0 <= k < texts(absent@).len() && texts(absent@)[k] == p;
            assert(texts(absent@)[k] == absent@[k]@);
            assert(texts(probes@).contains(absent@[k]@));
        }
    }
    absent
}

/// What looking at the configured folder found: it is no longer a reachable canonical
/// directory, it could not be walked, or its identity and media files.
pub enum TvFolderScan {
    Unavailable,
    Failed,
    Found(String, Vec<TrustedTvFile>),
}

/// Whether `scan_folder`, asked about the configured folder, may find its files.
pub open spec fn folder_found<F: FnOnce(&str) -> TvFolderScan>(scan_folder: F, folder: Option<String>) -> bool {
    folder matches Some(f) && exists|p: &str, id: String, files: Vec<TrustedTvFile>|
        p@ == f@ && #[trigger] call_ensures(scan_folder, (p,), TvFolderScan::Found(id, files))
}

/// Whether `read_store` may give a store that reads.
pub open spec fn store_readable<F: FnOnce() -> TvMetadataFile>(read_store: F) -> bool {
    exists|file: TvMetadataFile| #[trigger] call_ensures(read_store, (), file) && spec_read_store(file) is Ok
}

/// Scans the configured folder and completes the scan, with the file system reached through
/// the callbacks: `scan_folder` lists the folder's media files with its identity,
/// `read_store` reads the metadata store, `probe_absent` says whether a relative path below
/// the folder is absent, and `write_store` replaces the store. The generation advances and the
/// previous scan and metadata operations are dropped before anything is read. A folder that
/// is no longer a canonical directory is `TV_FOLDER_UNAVAILABLE`, one that cannot be walked
/// `TV_LIBRARY_SCAN_FAILED`, and no scan is completed; the store is read only for a folder
/// that was walked, and written only when it read.
pub fn scan_tv_library_with_metadata(
    state: &mut TvLibraryState,
    scan_folder: impl FnOnce(&str) -> TvFolderScan,
    read_store: impl FnOnce() -> TvMetadataFile,
    probe_absent: impl Fn(&str) -> bool,
    write_store: impl FnOnce(Vec<u8>) -> bool,
) -> (result: Result<Vec<String>, &'static str>)
    requires
        old(state).folder matches Some(f) ==> forall|p: &str| p@ == f@ ==> call_requires(scan_folder, (p,)),
        folder_found(scan_folder, old(state).folder) ==> call_requires(read_store, ()),
        folder_found(scan_folder, old(state).folder) ==> forall|p: &str| call_requires(probe_absent, (p,)),
        folder_found(scan_folder, old(state).folder) && store_readable(read_store) ==> forall|bytes: Vec<u8>|
            call_requires(write_store, (bytes,)),
    ensures
        old(state).folder is None ==> result == Err::<Vec<String>, _>(TV_FOLDER_UNAVAILABLE)
            && *final(state) == *old(state),
        old(state).folder matches Some(folder) ==> {
            &&& final(state).folder == old(state).folder
            &&& final(state).generation == next_count(old(state).generation)
            &&& final(state).metadata_invalidated_from(*old(state))
            &&& final(state).metadata_client_generation == old(state).metadata_client_generation
            &&& exists|p: &str, outcome: TvFolderScan|
                p@ == folder@ && call_ensures(scan_folder, (p,), outcome) && match outcome {
                    TvFolderScan::Unavailable => result == Err::<Vec<String>, _>(TV_FOLDER_UNAVAILABLE)
                        && final(state).completed_scan is None,
                    TvFolderScan::Failed => result == Err::<Vec<String>, _>(TV_LIBRARY_SCAN_FAILED)
                        && final(state).completed_scan is None,
                    TvFolderScan::Found(folder_identity, files) => match (final(state).completed_scan, result) {
                        (Some(scan), Ok(response)) => {
                            &&& scan.folder == folder
                            &&& scan.folder_identity == folder_identity
                            &&& scan.files@ == bounded_files(files@)
                            &&& scan.files@.len() <= MAX_LIBRARY_FILES
                            &&& scan.generation == final(state).generation
                            &&& are_show_titles(group_titles(scan.groups@), scan.files@)
                            &&& exists|
                                file: TvMetadataFile,
                                stored: Result<Vec<TvMetadataAssociation>, TvMetadataReadError>,
                                absent: Seq<String>,
                            |
                                #![trigger call_ensures(read_store, (), file), absent_reported(absent, folder@, folder_identity@, scan.files@, stored, probe_absent)]
                                {
                                    &&& call_ensures(read_store, (), file)
                                    &&& store_read_from(stored, file)
                                    &&& absent_reported(absent, folder@, folder_identity@, scan.files@, stored, probe_absent)
                                    &&& is_assembled_scan(
                                        scan,
                                        folder,
                                        final(state).generation,
                                        folder_identity,
                                        scan.files@,
                                        stored,
                                        absent,
                                    )
                                    &&& store_written(scan, stored, absent, write_store)
                                }
                            &&& texts(response@) == scan_response(scan)
                        },
                        _ => false,
                    },
                }
        },
{
    let (folder, generation) = match begin_tv_library_scan(state) {
        Ok(started) => started,
        Err(e) => return Err(e),
    };
    let asked: &str = folder.as_str();
    let outcome = scan_folder(asked);
    let ghost outcome_copy = outcome;
    let (folder_identity, found_files) = match outcome {
        TvFolderScan::Found(folder_identity, files) => (folder_identity, files),
        TvFolderScan::Unavailable => {
            assert(call_ensures(scan_folder, (asked,), outcome_copy));
            return Err(TV_FOLDER_UNAVAILABLE);
        },
        TvFolderScan::Failed => {
            assert(call_ensures(scan_folder, (asked,), outcome_copy));
            return Err(TV_LIBRARY_SCAN_FAILED);
        },
    };
    assert(folder_found(scan_folder, old(state).folder));
    let mut files = found_files;
    if files.len() > MAX_LIBRARY_FILES {
        files.truncate(MAX_LIBRARY_FILES);
    }
    assert(files@ == bounded_files(found_files@));
    let file = read_store();
    let ghost file_copy = file;
    let stored = read_tv_metadata_associations(file);
    assert(stored is Ok ==> store_readable(read_store));
    let absent = absent_anchor_paths(folder.as_str(), folder_identity.as_str(), &files, &stored, &probe_absent);
    let ghost folder_copy = folder;
    let ghost identity_copy = folder_identity;
    let ghost files_copy = files@;
    let ghost stored_copy = stored;
    let ghost absent_copy = absent@;
    let result = complete_tv_library_scan(
        state,
        folder,
        generation,
        folder_identity,
        files,
        stored,
        absent,
        write_store,
    );
    proof {
        assert(store_read_from(stored_copy, file_copy));
        assert(absent_reported(absent_copy, folder_copy@, identity_copy@, files_copy, stored_copy, probe_absent));
    }
    result
}

/// The view of an authority.
pub struct TvAuthorityView {
    pub scan_generation: u64,
    pub folder: Seq<char>,
    pub folder_identity: Seq<char>,
    pub group_id: Seq<char>,
    pub local_show_title: Seq<char>,
    pub anchors: Seq<TvAnchorView>,
}

impl View for TvMetadataAuthority {
    type V = TvAuthorityView;

    open spec fn view(&self) -> TvAuthorityView {
        TvAuthorityView {
            scan_generation: self.scan_generation,
            folder: self.folder@,
            folder_identity: self.folder_identity@,
            group_id: self.group_id@,
            local_show_title: self.local_show_title@,
            anchors: self.anchors@.map_values(|a: TvMetadataAnchor| a@),
        }
    }
}

/// The index of the first group with identifier `group_id`, or the number of groups.
pub open spec fn group_with_id(groups: Seq<TrustedTvShowGroup>, group_id: Seq<char>, i: int) -> int
    decreases groups.len() - i,
{
    if i >= groups.len() {
        groups.len() as int
    } else if groups[i].group_id@ == group_id {
        i
    } else {
        group_with_id(groups, group_id, i + 1)
    }
}

/// The anchor that a scanned file gives, as a view.
pub open spec fn file_anchor(file: TrustedTvFile) -> TvAnchorView {
    TvAnchorView {
        relative_path: file.relative_path@,
        season: file.identity.unwrap().season,
        episode: file.identity.unwrap().episode,
        file_identity: file.file_identity@,
        fingerprint: file.fingerprint@,
        size: file.size,
    }
}

/// Whether member `m` of `group` still stands, given what was observed of it: it validates
/// against the scan and its generation, it is a scanned file, and it still is an episode of
/// the group's show.
pub open spec fn member_stands(
    scan: CompletedTvScan,
    group: TrustedTvShowGroup,
    m: int,
    seen: TvFileObservation,
) -> bool {
    let path = group.member_paths@[m]@;
    &&& spec_validate_tv_file(path, scan.folder@, scan, Some(scan.generation), seen) is Ok
    &&& find_file(scan.files@, path) matches Some(file) && file.identity matches Some(identity)
        && identity.show_title@ == group.show_title@
}

/// What a metadata operation on group `group_id` works for, given what was observed of each
/// member: the completed scan must have a readable store and a group with that identifier
/// that asks for no attention, whose members all still stand; then the group's scan, folder,
/// title and one anchor per member.
pub open spec fn spec_tv_metadata_authority(
    state: TvLibraryState,
    group_id: Seq<char>,
    seen: Seq<TvFileObservation>,
) -> Result<TvAuthorityView, &'static str> {
    match state.completed_scan {
        None => Err(TV_METADATA_STALE),
        Some(scan) => if scan.metadata_status != TvMetadataStatus::Ready {
            Err(TV_METADATA_UNAVAILABLE)
        } else {
            let g = group_with_id(scan.groups@, group_id, 0);
            if g >= scan.groups@.len() || scan.groups@[g].metadata_attention {
                Err(TV_METADATA_STALE)
            } else {
                let group = scan.groups@[g];
                let n = group.member_paths@.len();
                if n == 0 || !(forall|m: int| 0 <= m < n ==> #[trigger] member_stands(scan, group, m, seen[m])) {
                    Err(TV_METADATA_STALE)
                } else {
                    Ok(
                        TvAuthorityView {
                            scan_generation: scan.generation,
                            folder: scan.folder@,
                            folder_identity: scan.folder_identity@,
                            group_id: group.group_id@,
                            local_show_title: group.show_title@,
                            anchors: Seq::new(
                                n,
                                |m: int| file_anchor(find_file(scan.files@, group.member_paths@[m]@).unwrap()),
                            ),
                        },
                    )
                }
            }
        },
    }
}

/// The member paths of the group with identifier `group_id` of the completed scan; none when
/// there is no such group.
pub open spec fn spec_member_paths(state: TvLibraryState, group_id: Seq<char>) -> Seq<String> {
    match state.completed_scan {
        None => Seq::empty(),
        Some(scan) => {
            let g = group_with_id(scan.groups@, group_id, 0);
            if g >= scan.groups@.len() {
                Seq::empty()
            } else {
                scan.groups@[g].member_paths@
            }
        },
    }
}

/// The index of the first group with identifier `group_id`.
fn find_group_with_id(groups: &Vec<TrustedTvShowGroup>, group_id: &str) -> (index: Option<usize>)
    ensures
        match index {
            Some(g) => g < groups@.len() && group_with_id(groups@, group_id@, 0) == g,
            None => group_with_id(groups@, group_id@, 0) == groups@.len(),
        },
{
    let mut i: usize = 0;
    while i < groups.len()
        invariant
            i <= groups@.len(),
            group_with_id(groups@, group_id@, 0) == group_with_id(groups@, group_id@, i as int),
        decreases groups@.len() - i,
    {
        if same_text(groups[i].group_id.as_str(), group_id) {
            return Some(i);
        }
        i = i + 1;
    }
    None
}

/// Whether `seen` is what `observe` gave for each member path of group `group_id`, in order.
pub open spec fn observed_members(
    state: TvLibraryState,
    group_id: Seq<char>,
    observe: impl Fn(String) -> TvFileObservation,
    seen: Seq<TvFileObservation>,
) -> bool {
    let paths = spec_member_paths(state, group_id);
    &&& seen.len() == paths.len()
    &&& forall|m: int| 0 <= m < seen.len() ==> call_ensures(observe, (paths[m],), #[trigger] seen[m])
}

/// Observes every member of the group `group_id` through `observe`, in order.
fn observe_members(
    state: &TvLibraryState,
    group_id: &str,
    observe: &impl Fn(String) -> TvFileObservation,
) -> (seen: Vec<TvFileObservation>)
    requires
        forall|p: String| call_requires(*observe, (p,)),
    ensures
        observed_members(*state, group_id@, *observe, seen@),
{
    let mut seen: Vec<TvFileObservation> = Vec::new();
    let scan = match &state.completed_scan {
        None => return seen,
        Some(scan) => scan,
    };
    let g = match find_group_with_id(&scan.groups, group_id) {
        None => return seen,
        Some(g) => g,
    };
    let paths = &scan.groups[g].member_paths;
    let ghost expected = spec_member_paths(*state, group_id@);
    assert(expected == paths@);
    let mut m: usize = 0;
    while m < paths.len()
        invariant
            forall|p: String| call_requires(*observe, (p,)),
            expected == paths@,
            m <= paths@.len(),
            seen@.len() == m,
            forall|k: int| 0 <= k < m ==> call_ensures(*observe, (expected[k],), #[trigger] seen@[k]),
        decreases paths@.len() - m,
    {
        let observation = observe(paths[m].clone());
        seen.push(observation);
        m = m + 1;
    }
    seen
}

/// What a metadata operation on group `group_id` works for, given what was observed of each
/// member of the group.
fn tv_metadata_authority(
    state: &TvLibraryState,
    group_id: &str,
    seen: &Vec<TvFileObservation>,
) -> (result: Result<TvMetadataAuthority, &'static str>)
    requires
        seen@.len() == spec_member_paths(*state, group_id@).len(),
    ensures
        match result {
            Ok(authority) => spec_tv_metadata_authority(*state, group_id@, seen@) == Ok::<
                TvAuthorityView,
                &'static str,
            >(authority@),
            Err(e) => spec_tv_metadata_authority(*state, group_id@, seen@) == Err::<
                TvAuthorityView,
                &'static str,
            >(e),
        },
{
    let scan = match &state.completed_scan {
        None => return Err(TV_METADATA_STALE),
        Some(scan) => scan,
    };
    if !matches!(scan.metadata_status, TvMetadataStatus::Ready) {
        return Err(TV_METADATA_UNAVAILABLE);
    }
    let g = match find_group_with_id(&scan.groups, group_id) {
        None => return Err(TV_METADATA_STALE),
        Some(g) => g,
    };
    let group = &scan.groups[g];
    if group.metadata_attention {
        return Err(TV_METADATA_STALE);
    }
    let ghost n = group.member_paths@.len();
    let ghost fails = spec_tv_metadata_authority(*state, group_id@, seen@) == Err::<
        TvAuthorityView,
        &'static str,
    >(TV_METADATA_STALE);
    assert(forall|k: int| 0 <= k < n && !member_stands(*scan, *group, k, seen@[k]) ==> fails);
    let ghost expected = Seq::new(
        n,
        |m: int| file_anchor(find_file(scan.files@, group.member_paths@[m]@).unwrap()),
    );
    let mut anchors: Vec<TvMetadataAnchor> = Vec::new();
    let mut m: usize = 0;
    while m < group.member_paths.len()
        invariant
            state.completed_scan == Some(*scan),
            g < scan.groups@.len(),
            group == scan.groups@[g as int],
            fails == (spec_tv_metadata_authority(*state, group_id@, seen@) == Err::<
                TvAuthorityView,
                &'static str,
            >(TV_METADATA_STALE)),
            n == group.member_paths@.len(),
            seen@.len() == n,
            forall|k: int| 0 <= k < n && !member_stands(*scan, *group, k, seen@[k]) ==> fails,
            expected == Seq::new(
                n,
                |m: int| file_anchor(find_file(scan.files@, group.member_paths@[m]@).unwrap()),
            ),
            m <= n,
            forall|k: int| 0 <= k < m ==> #[trigger] member_stands(*scan, *group, k, seen@[k]),
            anchors@.map_values(|a: TvMetadataAnchor| a@) == expected.take(m as int),
        decreases n - m,
    {
        let path = group.member_paths[m].as_str();
        if validate_tv_file(path, scan.folder.as_str(), scan, Some(scan.generation), &seen[m]).is_err() {
            assert(!member_stands(*scan, *group, m as int, seen@[m as int]));
            return Err(TV_METADATA_STALE);
        }
        let f = match find_file_index(&scan.files, path) {
            None => {
                assert(!member_stands(*scan, *group, m as int, seen@[m as int]));
                return Err(TV_METADATA_STALE);
            },
            Some(f) => f,
        };
        let file = &scan.files[f];
        let identity = match &file.identity {
            None => {
                assert(!member_stands(*scan, *group, m as int, seen@[m as int]));
                return Err(TV_METADATA_STALE);
            },
            Some(identity) => identity,
        };
        if identity.show_title != group.show_title {
            assert(!member_stands(*scan, *group, m as int, seen@[m as int]));
            return Err(TV_METADATA_STALE);
        }
        let anchor = TvMetadataAnchor {
            relative_path: file.relative_path.clone(),
            season: identity.season,
            episode: identity.episode,
            file_identity: file.file_identity.clone(),
            fingerprint: file.fingerprint.clone(),
            size: file.size,
        };
        assert(path@ == group.member_paths@[m as int]@);
        assert(find_file(scan.files@, path@) == Some(scan.files@[f as int]));
        assert(anchor@ == file_anchor(scan.files@[f as int]));
        assert(expected[m as int] == anchor@);
        let ghost before = anchors@;
        anchors.push(anchor);
        assert(member_stands(*scan, *group, m as int, seen@[m as int]));
        assert(anchors@.map_values(|a: TvMetadataAnchor| a@) =~= before.map_values(
            |a: TvMetadataAnchor| a@,
        ).push(expected[m as int]));
        assert(expected.take(m + 1) =~= expected.take(m as int).push(expected[m as int]));
        m = m + 1;
    }
    if anchors.len() == 0 {
        return Err(TV_METADATA_STALE);
    }
    assert(expected.take(n as int) =~= expected);
    Ok(
        TvMetadataAuthority {
            scan_generation: scan.generation,
            folder: scan.folder.clone(),
            folder_identity: scan.folder_identity.clone(),
            group_id: group.group_id.clone(),
            local_show_title: group.show_title.clone(),
            anchors,
        },
    )
}

/// Whether two anchors are the same.
fn same_anchor(a: &TvMetadataAnchor, b: &TvMetadataAnchor) -> (same: bool)
    ensures
        same == (a@ == b@),
{
    a.relative_path == b.relative_path && a.season == b.season && a.episode == b.episode
        && a.file_identity == b.file_identity && a.fingerprint == b.fingerprint && a.size == b.size
}

/// Whether two authorities are the same.
fn same_authority(a: &TvMetadataAuthority, b: &TvMetadataAuthority) -> (same: bool)
    ensures
        same == (a@ == b@),
{
    if !(a.scan_generation == b.scan_generation && a.folder == b.folder && a.folder_identity
        == b.folder_identity && a.group_id == b.group_id && a.local_show_title
        == b.local_show_title && a.anchors.len() == b.anchors.len()) {
        assert(a@.anchors.len() == a.anchors@.len() && b@.anchors.len() == b.anchors@.len());
        return false;
    }
    let mut i: usize = 0;
    while i < a.anchors.len()
        invariant
            a.anchors@.len() == b.anchors@.len(),
            i <= a.anchors@.len(),
            forall|k: int| 0 <= k < i ==> a.anchors@[k]@ == b.anchors@[k]@,
        decreases a.anchors@.len() - i,
    {
        if !same_anchor(&a.anchors[i], &b.anchors[i]) {
            assert(a@.anchors[i as int] != b@.anchors[i as int]);
            return false;
        }
        i = i + 1;
    }
    assert(a@.anchors =~= b@.anchors);
    true
}

/// The authority that group `group_id` gives now, observing its members through `observe`;
/// also gives what was observed.
pub(crate) fn current_authority(
    state: &TvLibraryState,
    group_id: &str,
    observe: &impl Fn(String) -> TvFileObservation,
) -> (result: (Result<TvMetadataAuthority, &'static str>, Ghost<Seq<TvFileObservation>>))
    requires
        forall|p: String| call_requires(*observe, (p,)),
    ensures
        observed_members(*state, group_id@, *observe, result.1@),
        match result.0 {
            Ok(authority) => spec_tv_metadata_authority(*state, group_id@, result.1@) == Ok::<
                TvAuthorityView,
                &'static str,
            >(authority@),
            Err(e) => spec_tv_metadata_authority(*state, group_id@, result.1@) == Err::<
                TvAuthorityView,
                &'static str,
            >(e),
        },
{
    let seen = observe_members(state, group_id, observe);
    let authority = tv_metadata_authority(state, group_id, &seen);
    (authority, Ghost(seen@))
}

/// Whether `authority` still is what its group gives, given what was observed of the members:
/// the group's authority, or the error it gives, or `TV_METADATA_STALE` when it differs.
pub open spec fn spec_authority_check(
    state: TvLibraryState,
    authority: TvAuthorityView,
    seen: Seq<TvFileObservation>,
) -> Result<(), &'static str> {
    match spec_tv_metadata_authority(state, authority.group_id, seen) {
        Err(e) => Err(e),
        Ok(current) => if current != authority {
            Err(TV_METADATA_STALE)
        } else {
            Ok(())
        },
    }
}

/// Checks that `authority` still is what its group gives.
pub(crate) fn validate_tv_metadata_authority(
    state: &TvLibraryState,
    authority: &TvMetadataAuthority,
    observe: &impl Fn(String) -> TvFileObservation,
) -> (result: (Result<(), &'static str>, Ghost<Seq<TvFileObservation>>))
    requires
        forall|p: String| call_requires(*observe, (p,)),
    ensures
        observed_members(*state, authority@.group_id, *observe, result.1@),
        result.0 == spec_authority_check(*state, authority@, result.1@),
{
    let (current, seen) = current_authority(state, authority.group_id.as_str(), observe);
    match current {
        Err(e) => (Err(e), seen),
        Ok(current) => if !same_authority(&current, authority) {
            (Err(TV_METADATA_STALE), seen)
        } else {
            (Ok(()), seen)
        },
    }
}

/// Whether an association is of the local show group that `authority` is for.
pub open spec fn of_authority_group(a: TvAssociationView, authority: TvAuthorityView) -> bool {
    a.folder == authority.folder && a.folder_identity == authority.folder_identity
        && a.local_show_title == authority.local_show_title
}

/// The associations of other groups than the one `authority` is for, in order.
pub open spec fn other_associations(
    associations: Seq<TvAssociationView>,
    authority: TvAuthorityView,
) -> Seq<TvAssociationView>
    decreases associations.len(),
{
    if associations.len() == 0 {
        Seq::empty()
    } else {
        let rest = other_associations(associations.drop_last(), authority);
        if of_authority_group(associations.last(), authority) {
            rest
        } else {
            rest.push(associations.last())
        }
    }
}

/// The largest generation of some associations, or zero.
pub open spec fn max_generation(associations: Seq<TvAssociationView>) -> nat
    decreases associations.len(),
{
    if associations.len() == 0 {
        0
    } else {
        let m = max_generation(associations.drop_last());
        if associations.last().generation > m {
            associations.last().generation as nat
        } else {
            m
        }
    }
}

/// The store that saving a verified association gives: the associations of other groups,
/// then the verified association with a generation one above theirs, which must be valid.
pub open spec fn spec_saved_store(
    stored: Seq<TvAssociationView>,
    authority: TvAuthorityView,
    association: TvAssociationView,
) -> Result<Seq<TvAssociationView>, &'static str> {
    let kept = other_associations(stored, authority);
    let generation = max_generation(kept) + 1;
    if generation > u64::MAX {
        Err(TV_METADATA_PERSISTENCE_FAILED)
    } else {
        let saved = TvAssociationView { generation: generation as u64, ..association };
        if !spec_association_valid(saved) {
            Err(TV_METADATA_PERSISTENCE_FAILED)
        } else {
            Ok(kept.push(saved))
        }
    }
}

/// `after` is `before` with group `g` bound to `association` without attention and the
/// metadata marked ready.
pub open spec fn scan_with_group(
    after: CompletedTvScan,
    before: CompletedTvScan,
    g: int,
    association: Option<TvAssociationView>,
) -> bool {
    &&& after.folder == before.folder
    &&& after.folder_identity == before.folder_identity
    &&& after.generation == before.generation
    &&& after.files == before.files
    &&& after.metadata_status == TvMetadataStatus::Ready
    &&& after.groups@.len() == before.groups@.len()
    &&& 0 <= g < before.groups@.len()
    &&& forall|k: int|
        0 <= k < before.groups@.len() && k != g ==> #[trigger] after.groups@[k] == before.groups@[k]
    &&& after.groups@[g].group_id == before.groups@[g].group_id
    &&& after.groups@[g].show_title == before.groups@[g].show_title
    &&& after.groups@[g].member_paths == before.groups@[g].member_paths
    &&& association_option_view(after.groups@[g].association) == association
    &&& !after.groups@[g].metadata_attention
}

/// `after` is `before` once the association of group `group_id` was replaced by
/// `association`: that group of the completed scan is rebound and the metadata operations are
/// dropped.
pub open spec fn state_with_group(
    after: TvLibraryState,
    before: TvLibraryState,
    group_id: Seq<char>,
    association: Option<TvAssociationView>,
) -> bool {
    &&& after.folder == before.folder
    &&& after.generation == before.generation
    &&& after.metadata_client_generation == before.metadata_client_generation
    &&& after.metadata_invalidated_from(before)
    &&& match (after.completed_scan, before.completed_scan) {
        (Some(a), Some(b)) => scan_with_group(a, b, group_with_id(b.groups@, group_id, 0), association),
        _ => false,
    }
}

proof fn lemma_group_with_id_same_ids(
    a: Seq<TrustedTvShowGroup>,
    b: Seq<TrustedTvShowGroup>,
    group_id: Seq<char>,
    i: int,
)
    requires
        a.len() == b.len(),
        forall|k: int| 0 <= k < a.len() ==> #[trigger] a[k].group_id == b[k].group_id,
        0 <= i,
    ensures
        group_with_id(a, group_id, i) == group_with_id(b, group_id, i),
    decreases a.len() - i,
{
    if i < a.len() {
        assert(a[i].group_id == b[i].group_id);
        lemma_group_with_id_same_ids(a, b, group_id, i + 1);
    }
}

/// Rebinds group `group_id` of the completed scan to `association`, and drops the metadata
/// operations.
fn bind_group(state: &mut TvLibraryState, group_id: &str, association: Option<TvMetadataAssociation>) -> (result: Result<
    (),
    &'static str,
>)
    ensures
        result is Ok ==> state_with_group(
            *final(state),
            *old(state),
            group_id@,
            association_option_view(association),
        ),
        result is Err ==> result == Err::<(), _>(TV_METADATA_STALE) && *final(state) == *old(state),
        (old(state).completed_scan matches Some(scan) && group_with_id(scan.groups@, group_id@, 0)
            < scan.groups@.len()) ==> result is Ok,
        result is Ok ==> (final(state).completed_scan matches Some(scan) && group_with_id(
            scan.groups@,
            group_id@,
            0,
        ) < scan.groups@.len() && association_option_view(
            scan.groups@[group_with_id(scan.groups@, group_id@, 0)].association,
        ) == association_option_view(association)),
{
    let mut scan = match state.completed_scan.take() {
        None => return Err(TV_METADATA_STALE),
        Some(scan) => scan,
    };
    let g = match find_group_with_id(&scan.groups, group_id) {
        None => {
            state.completed_scan = Some(scan);
            return Err(TV_METADATA_STALE);
        },
        Some(g) => g,
    };
    let ghost before = scan;
    let mut group = scan.groups.remove(g);
    group.association = association;
    group.metadata_attention = false;
    scan.groups.insert(g, group);
    scan.metadata_status = TvMetadataStatus::Ready;
    state.completed_scan = Some(scan);
    state.invalidate_tv_metadata_context();
    assert(scan_with_group(scan, before, g as int, association_option_view(association)));
    proof {
        assert forall|k: int| 0 <= k < scan.groups@.len() implies #[trigger] scan.groups@[k].group_id
            == before.groups@[k].group_id by {
            if k != g {
                assert(scan.groups@[k] == before.groups@[k]);
            }
        }
        lemma_group_with_id_same_ids(scan.groups@, before.groups@, group_id@, 0);
    }
    Ok(())
}

/// The associations of other groups than the one `authority` is for.
fn retain_other_groups(stored: Vec<TvMetadataAssociation>, authority: &TvMetadataAuthority) -> (kept:
    Vec<TvMetadataAssociation>)
    ensures
        associations_view(kept@) == other_associations(associations_view(stored@), authority@),
{
    let ghost views = associations_view(stored@);
    let mut kept: Vec<TvMetadataAssociation> = Vec::new();
    let mut i: usize = 0;
    while i < stored.len()
        invariant
            views == associations_view(stored@),
            i <= stored@.len(),
            associations_view(kept@) == other_associations(views.take(i as int), authority@),
        decreases stored@.len() - i,
    {
        let a = &stored[i];
        assert(views[i as int] == a@);
        assert(views.take(i + 1).drop_last() =~= views.take(i as int));
        if !(a.folder == authority.folder && a.folder_identity == authority.folder_identity
            && a.local_show_title == authority.local_show_title) {
            let ghost before = kept@;
            kept.push(copy_association(a));
            assert(associations_view(kept@) =~= associations_view(before).push(a@));
        }
        i = i + 1;
    }
    assert(views.take(views.len() as int) =~= views);
    kept
}

/// The largest generation of some associations, or zero.
fn largest_generation(associations: &Vec<TvMetadataAssociation>) -> (m: u64)
    ensures
        m == max_generation(associations_view(associations@)),
{
    let ghost views = associations_view(associations@);
    let mut m: u64 = 0;
    let mut i: usize = 0;
    while i < associations.len()
        invariant
            views == associations_view(associations@),
            i <= associations@.len(),
            m == max_generation(views.take(i as int)),
        decreases associations@.len() - i,
    {
        assert(views[i as int] == associations@[i as int]@);
        assert(views.take(i + 1).drop_last() =~= views.take(i as int));
        if associations[i].generation > m {
            m = associations[i].generation;
        }
        i = i + 1;
    }
    assert(views.take(views.len() as int) =~= views);
    m
}

/// The associations that saving `association` for `authority` stores, with the saved
/// association last.
fn saved_store(
    stored: Vec<TvMetadataAssociation>,
    authority: &TvMetadataAuthority,
    verified: &TvMetadataAssociation,
) -> (result: Result<Vec<TvMetadataAssociation>, &'static str>)
    ensures
        match result {
            Ok(list) => spec_saved_store(associations_view(stored@), authority@, verified@) == Ok::<
                Seq<TvAssociationView>,
                &'static str,
            >(associations_view(list@)),
            Err(e) => spec_saved_store(associations_view(stored@), authority@, verified@) == Err::<
                Seq<TvAssociationView>,
                &'static str,
            >(e),
        },
{
    let mut kept = retain_other_groups(stored, authority);
    let m = largest_generation(&kept);
    if m == u64::MAX {
        return Err(TV_METADATA_PERSISTENCE_FAILED);
    }
    let mut association = copy_association(verified);
    association.generation = m + 1;
    if validate_tv_metadata_association(&association).is_err() {
        return Err(TV_METADATA_PERSISTENCE_FAILED);
    }
    let ghost before = kept@;
    kept.push(association);
    assert(associations_view(kept@) =~= associations_view(before).push(kept@.last()@));
    Ok(kept)
}

/// The error that a failed store read gives when saving or clearing a match.
pub open spec fn read_error(e: TvMetadataReadError) -> &'static str {
    match e {
        TvMetadataReadError::Unavailable => TV_METADATA_UNAVAILABLE,
        TvMetadataReadError::Invalid => TV_METADATA_PERSISTENCE_FAILED,
    }
}

fn read_error_exec(e: TvMetadataReadError) -> (text: &'static str)
    ensures
        text == read_error(e),
{
    match e {
        TvMetadataReadError::Unavailable => TV_METADATA_UNAVAILABLE,
        TvMetadataReadError::Invalid => TV_METADATA_PERSISTENCE_FAILED,
    }
}

/// The verification with identifier `verification_id`, if it is the one in progress.
pub open spec fn pending_verification(state: TvLibraryState, verification_id: Seq<char>) -> Option<
    TvMetadataVerification,
> {
    match state.metadata_verification {
        Some(v) => if v.verification_id@ == verification_id {
            Some(v)
        } else {
            None
        },
        None => None,
    }
}

/// What happens to the state once a new store was handed to `write_store`: a refused write
/// is `TV_METADATA_PERSISTENCE_FAILED` and changes nothing; an accepted one rebinds the group.
pub open spec fn after_write(
    ok: bool,
    result: Result<(), &'static str>,
    after: TvLibraryState,
    before: TvLibraryState,
    group_id: Seq<char>,
    association: Option<TvAssociationView>,
) -> bool {
    if !ok {
        result == Err::<(), &'static str>(TV_METADATA_PERSISTENCE_FAILED) && after == before
    } else {
        result is Ok && state_with_group(after, before, group_id, association)
    }
}

/// Whether `fields` are the response fields of the association that group `group_id` of the
/// completed scan is bound to.
pub open spec fn bound_fields(state: TvLibraryState, group_id: Seq<char>, fields: Seq<Seq<char>>) -> bool {
    match state.completed_scan {
        Some(scan) => match scan.groups@[group_with_id(scan.groups@, group_id, 0)].association {
            Some(a) => fields == association_fields(a@),
            None => false,
        },
        None => false,
    }
}

/// The outcome of saving according to `plan` (the new store's bytes and the saved
/// association, or why there is none) for group `group_id`.
#[verifier::opaque]
pub open spec fn save_from_plan(
    before: TvLibraryState,
    after: TvLibraryState,
    result: Result<Vec<String>, &'static str>,
    plan: Result<(Seq<u8>, TvAssociationView), &'static str>,
    group_id: Seq<char>,
    write_store: impl FnOnce(Vec<u8>) -> bool,
) -> bool {
    match plan {
        Err(e) => result == Err::<Vec<String>, &'static str>(e) && after == before,
        Ok((bytes, saved)) => exists|w: Vec<u8>, ok: bool|
            w@ == bytes && call_ensures(write_store, (w,), ok) && after_write(
                ok,
                match result {
                    Ok(_) => Ok(()),
                    Err(e) => Err(e),
                },
                after,
                before,
                group_id,
                Some(saved),
            ) && (result matches Ok(fields) ==> bound_fields(after, group_id, texts(fields@))),
    }
}

/// The outcome of saving the verified match `verification_id`.
#[verifier::opaque]
pub open spec fn save_outcome(
    before: TvLibraryState,
    after: TvLibraryState,
    result: Result<Vec<String>, &'static str>,
    verification_id: Seq<char>,
    observe: impl Fn(String) -> TvFileObservation,
    read_store: impl FnOnce() -> TvMetadataFile,
    write_store: impl FnOnce(Vec<u8>) -> bool,
) -> bool {
    match pending_verification(before, verification_id) {
        None => result == Err::<Vec<String>, &'static str>(TV_METADATA_CONTEXT_INVALID) && after
            == before,
        Some(v) => exists|seen: Seq<TvFileObservation>|
            observed_members(before, v.authority@.group_id, observe, seen) && match spec_authority_check(
                before,
                v.authority@,
                seen,
            ) {
                Err(e) => result == Err::<Vec<String>, &'static str>(e) && after == before,
                Ok(()) => exists|file: TvMetadataFile|
                    call_ensures(read_store, (), file) && save_from_plan(
                        before,
                        after,
                        result,
                        save_plan(file, v.authority@, v.association@),
                        v.authority@.group_id,
                        write_store,
                    ),
            },
    }
}

/// A copy of an authority.
pub(crate) fn copy_authority(authority: &TvMetadataAuthority) -> (copy: TvMetadataAuthority)
    ensures
        copy@ == authority@,
{
    let copy = TvMetadataAuthority {
        scan_generation: authority.scan_generation,
        folder: authority.folder.clone(),
        folder_identity: authority.folder_identity.clone(),
        group_id: authority.group_id.clone(),
        local_show_title: authority.local_show_title.clone(),
        anchors: copy_anchors(&authority.anchors),
    };
    assert(copy@.anchors =~= authority@.anchors);
    copy
}

/// What saving `association` for `authority` would store, with the store read as `file`: the
/// new store's bytes and the saved association, or why there is none.
#[verifier::opaque]
pub open spec fn save_plan(
    file: TvMetadataFile,
    authority: TvAuthorityView,
    association: TvAssociationView,
) -> Result<(Seq<u8>, TvAssociationView), &'static str> {
    match spec_read_store(file) {
        Err(e) => Err(read_error(e)),
        Ok(stored) => match spec_saved_store(stored, authority, association) {
            Err(e) => Err(e),
            Ok(list) => match spec_encoded_store(list) {
                None => Err(TV_METADATA_PERSISTENCE_FAILED),
                Some(bytes) => Ok((bytes, list.last())),
            },
        },
    }
}

/// Whether saving verification `verification_id` with the store read as `file` writes
/// `bytes`: the verification is pending and the store it plans is those bytes.
pub open spec fn save_writes(
    state: TvLibraryState,
    verification_id: Seq<char>,
    file: TvMetadataFile,
    bytes: Seq<u8>,
) -> bool {
    match pending_verification(state, verification_id) {
        Some(v) => match save_plan(file, v.authority@, v.association@) {
            Ok(planned) => planned.0 == bytes,
            Err(_) => false,
        },
        None => false,
    }
}

/// The store bytes and the saved association that saving `association` for `authority`
/// gives, with the store read as `file`.
fn prepare_saved_store(
    file: TvMetadataFile,
    authority: &TvMetadataAuthority,
    association: &TvMetadataAssociation,
) -> (result: Result<(Vec<u8>, TvMetadataAssociation), &'static str>)
    ensures
        match result {
            Ok((bytes, saved)) => save_plan(file, authority@, association@) == Ok::<
                (Seq<u8>, TvAssociationView),
                &'static str,
            >((bytes@, saved@)),
            Err(e) => save_plan(file, authority@, association@) == Err::<
                (Seq<u8>, TvAssociationView),
                &'static str,
            >(e),
        },
{
    reveal(save_plan);
    let stored = match read_tv_metadata_associations(file) {
        Ok(stored) => stored,
        Err(e) => return Err(read_error_exec(e)),
    };
    let list = match saved_store(stored, authority, association) {
        Ok(list) => list,
        Err(e) => return Err(e),
    };
    let bytes = match encoded_tv_metadata_associations(list.as_slice()) {
        Ok(bytes) => bytes,
        Err(_) => return Err(TV_METADATA_PERSISTENCE_FAILED),
    };
    let saved = copy_association(&list[list.len() - 1]);
    assert(saved@ == associations_view(list@).last());
    Ok((bytes, saved))
}

/// Stores `association` as the match of the group `authority` is for, with the store read as
/// `file`, and binds the group once the store is written.
#[verifier::spinoff_prover]
fn store_saved_match(
    state: &mut TvLibraryState,
    file: TvMetadataFile,
    authority: TvMetadataAuthority,
    association: TvMetadataAssociation,
    write_store: impl FnOnce(Vec<u8>) -> bool,
) -> (result: Result<Vec<String>, &'static str>)
    requires
        forall|bytes: Vec<u8>| save_plan(file, authority@, association@) matches Ok(planned) ==> (bytes@
            == planned.0 ==> #[trigger] call_requires(write_store, (bytes,))),
        old(state).completed_scan matches Some(scan) && group_with_id(
            scan.groups@,
            authority@.group_id,
            0,
        ) < scan.groups@.len(),
    ensures
        save_from_plan(
            *old(state),
            *final(state),
            result,
            save_plan(file, authority@, association@),
            authority@.group_id,
            write_store,
        ),
{
    let ghost start = *state;
    let ghost read = file;
    let ghost plan = save_plan(file, authority@, association@);
    let (bytes, saved) = match prepare_saved_store(file, &authority, &association) {
        Ok(prepared) => prepared,
        Err(e) => {
            assert(save_from_plan(start, *state, Err(e), plan, authority@.group_id, write_store)) by {
                reveal(save_from_plan);
            }
            return Err(e);
        },
    };
    let ghost written = bytes;
    let ghost saved_view = saved@;
    let ok = write_store(bytes);
    if !ok {
        assert(save_from_plan(start, *state, Err(TV_METADATA_PERSISTENCE_FAILED), plan, authority@.group_id, write_store)) by {
            reveal(save_from_plan);
            assert(after_write(ok, Err(TV_METADATA_PERSISTENCE_FAILED), *state, start, authority@.group_id, Some(saved_view)));
        }
        return Err(TV_METADATA_PERSISTENCE_FAILED);
    }
    let fields = encode_tv_metadata_association(&saved);
    let bound = bind_group(state, authority.group_id.as_str(), Some(saved));
    assert(bound is Ok);
    assert(bound_fields(*state, authority@.group_id, texts(fields@)));
    assert(save_from_plan(start, *state, Ok(fields), plan, authority@.group_id, write_store)) by {
        reveal(save_from_plan);
        assert(after_write(ok, Ok(()), *state, start, authority@.group_id, Some(saved_view)));
    }
    Ok(fields)
}

/// Saves the verified match `verification_id`: the verification must be the one in progress
/// and its group must still give the same authority (its members observed through `observe`);
/// the store is read through `read_store`, the group's previous association replaced by the
/// verified one with the next generation, and the new store handed to `write_store`. Only
/// once it is written is the group of the completed scan bound to the saved association; then
/// the metadata operations are dropped. Gives the saved association's fields.
#[verifier::spinoff_prover]
pub fn save_tv_metadata_match_with(
    state: &mut TvLibraryState,
    verification_id: &str,
    observe: impl Fn(String) -> TvFileObservation,
    read_store: impl FnOnce() -> TvMetadataFile,
    write_store: impl FnOnce(Vec<u8>) -> bool,
) -> (result: Result<Vec<String>, &'static str>)
    requires
        pending_verification(*old(state), verification_id@) is Some ==> forall|p: String|
            call_requires(observe, (p,)),
        pending_verification(*old(state), verification_id@) is Some ==> call_requires(read_store, ()),
        forall|bytes: Vec<u8>, file: TvMetadataFile|
            #![trigger call_requires(write_store, (bytes,)), call_ensures(read_store, (), file)]
            call_ensures(read_store, (), file) && save_writes(*old(state), verification_id@, file, bytes@)
                ==> call_requires(write_store, (bytes,)),
    ensures
        save_outcome(
            *old(state),
            *final(state),
            result,
            verification_id@,
            observe,
            read_store,
            write_store,
        ),
{
    let ghost start = *state;
    let verification = match &state.metadata_verification {
        Some(v) => if same_text(v.verification_id.as_str(), verification_id) {
            v
        } else {
            assert(save_outcome(start, *state, Err(TV_METADATA_CONTEXT_INVALID), verification_id@, observe, read_store, write_store)) by {
                reveal(save_outcome);
            }
            return Err(TV_METADATA_CONTEXT_INVALID);
        },
        None => {
            assert(save_outcome(start, *state, Err(TV_METADATA_CONTEXT_INVALID), verification_id@, observe, read_store, write_store)) by {
                reveal(save_outcome);
            }
            return Err(TV_METADATA_CONTEXT_INVALID);
        },
    };
    let ghost v = *verification;
    assert(pending_verification(start, verification_id@) == Some(v));
    let (check, seen) = validate_tv_metadata_authority(state, &verification.authority, &observe);
    if let Err(e) = check {
        assert(save_outcome(start, *state, Err(e), verification_id@, observe, read_store, write_store)) by {
            reveal(save_outcome);
            assert(observed_members(start, v.authority@.group_id, observe, seen@));
        }
        return Err(e);
    }
    let authority = copy_authority(&verification.authority);
    let association = copy_association(&verification.association);
    let file = read_store();
    let ghost read = file;
    assert(save_plan(read, authority@, association@) == save_plan(read, v.authority@, v.association@));
    assert forall|bytes: Vec<u8>| save_writes(start, verification_id@, read, bytes@) implies call_requires(
        write_store,
        (bytes,),
    ) by {}
    let result = store_saved_match(state, file, authority, association, write_store);
    assert(save_outcome(start, *state, result, verification_id@, observe, read_store, write_store)) by {
        reveal(save_outcome);
        assert(observed_members(start, v.authority@.group_id, observe, seen@));
    }
    result
}

/// Whether clearing the match of group `group_id`, its members observed as `seen` and the
/// store read as `file`, writes `bytes`: the group's authority stands and the store it plans
/// is those bytes.
pub open spec fn clear_writes(
    state: TvLibraryState,
    group_id: Seq<char>,
    seen: Seq<TvFileObservation>,
    file: TvMetadataFile,
    bytes: Seq<u8>,
) -> bool {
    match spec_tv_metadata_authority(state, group_id, seen) {
        Ok(authority) => clear_plan(file, authority) == Ok::<Seq<u8>, &'static str>(bytes),
        Err(_) => false,
    }
}

/// What clearing the match of the group `authority` is for would store, with the store read
/// as `file`: the associations of other groups, encoded; `TV_METADATA_STALE` when the store
/// holds no association of that group.
#[verifier::opaque]
pub open spec fn clear_plan(file: TvMetadataFile, authority: TvAuthorityView) -> Result<Seq<u8>, &'static str> {
    match spec_read_store(file) {
        Err(e) => Err(read_error(e)),
        Ok(stored) => {
            let kept = other_associations(stored, authority);
            if kept.len() == stored.len() {
                Err(TV_METADATA_STALE)
            } else {
                match spec_encoded_store(kept) {
                    None => Err(TV_METADATA_PERSISTENCE_FAILED),
                    Some(bytes) => Ok(bytes),
                }
            }
        },
    }
}

/// The outcome of clearing according to `plan` for group `group_id`.
#[verifier::opaque]
pub open spec fn clear_from_plan(
    before: TvLibraryState,
    after: TvLibraryState,
    result: Result<(), &'static str>,
    plan: Result<Seq<u8>, &'static str>,
    group_id: Seq<char>,
    write_store: impl FnOnce(Vec<u8>) -> bool,
) -> bool {
    match plan {
        Err(e) => result == Err::<(), &'static str>(e) && after == before,
        Ok(bytes) => exists|w: Vec<u8>, ok: bool|
            w@ == bytes && call_ensures(write_store, (w,), ok) && after_write(
                ok,
                result,
                after,
                before,
                group_id,
                None,
            ),
    }
}

/// The outcome of clearing the match of group `group_id`.
#[verifier::opaque]
pub open spec fn clear_outcome(
    before: TvLibraryState,
    after: TvLibraryState,
    result: Result<(), &'static str>,
    group_id: Seq<char>,
    observe: impl Fn(String) -> TvFileObservation,
    read_store: impl FnOnce() -> TvMetadataFile,
    write_store: impl FnOnce(Vec<u8>) -> bool,
) -> bool {
    exists|seen: Seq<TvFileObservation>|
        observed_members(before, group_id, observe, seen) && match spec_tv_metadata_authority(
            before,
            group_id,
            seen,
        ) {
            Err(e) => result == Err::<(), &'static str>(e) && after == before,
            Ok(authority) => clear_after_read(
                before,
                after,
                result,
                authority,
                group_id,
                read_store,
                write_store,
            ),
        }
}

/// The outcome of clearing once the group gave `authority`: the store was read through
/// `read_store` and the clearing went according to the plan for what was read.
#[verifier::opaque]
pub open spec fn clear_after_read(
    before: TvLibraryState,
    after: TvLibraryState,
    result: Result<(), &'static str>,
    authority: TvAuthorityView,
    group_id: Seq<char>,
    read_store: impl FnOnce() -> TvMetadataFile,
    write_store: impl FnOnce(Vec<u8>) -> bool,
) -> bool {
    exists|file: TvMetadataFile|
        call_ensures(read_store, (), file) && clear_from_plan(
            before,
            after,
            result,
            clear_plan(file, authority),
            group_id,
            write_store,
        )
}

/// The store bytes that clearing the match of the group `authority` is for gives, with the
/// store read as `file`.
fn prepare_cleared_store(file: TvMetadataFile, authority: &TvMetadataAuthority) -> (result: Result<
    Vec<u8>,
    &'static str,
>)
    ensures
        match result {
            Ok(bytes) => clear_plan(file, authority@) == Ok::<Seq<u8>, &'static str>(bytes@),
            Err(e) => clear_plan(file, authority@) == Err::<Seq<u8>, &'static str>(e),
        },
{
    reveal(clear_plan);
    let stored = match read_tv_metadata_associations(file) {
        Ok(stored) => stored,
        Err(e) => return Err(read_error_exec(e)),
    };
    let count = stored.len();
    let kept = retain_other_groups(stored, authority);
    if kept.len() == count {
        return Err(TV_METADATA_STALE);
    }
    match encoded_tv_metadata_associations(kept.as_slice()) {
        Ok(bytes) => Ok(bytes),
        Err(_) => Err(TV_METADATA_PERSISTENCE_FAILED),
    }
}

/// Clears the match of group `group_id` with the store read as `file`, and unbinds the group
/// once the store is written.
#[verifier::spinoff_prover]
fn store_cleared_match(
    state: &mut TvLibraryState,
    file: TvMetadataFile,
    authority: &TvMetadataAuthority,
    group_id: &str,
    write_store: impl FnOnce(Vec<u8>) -> bool,
) -> (result: Result<(), &'static str>)
    requires
        forall|bytes: Vec<u8>| clear_plan(file, authority@) == Ok::<Seq<u8>, &'static str>(bytes@)
            ==> #[trigger] call_requires(write_store, (bytes,)),
        old(state).completed_scan matches Some(scan) && group_with_id(scan.groups@, group_id@, 0)
            < scan.groups@.len(),
    ensures
        clear_from_plan(
            *old(state),
            *final(state),
            result,
            clear_plan(file, authority@),
            group_id@,
            write_store,
        ),
{
    let ghost start = *state;
    let ghost plan = clear_plan(file, authority@);
    let bytes = match prepare_cleared_store(file, authority) {
        Ok(bytes) => bytes,
        Err(e) => {
            assert(clear_from_plan(start, *state, Err(e), plan, group_id@, write_store)) by {
                reveal(clear_from_plan);
            }
            return Err(e);
        },
    };
    let ghost written = bytes;
    let ok = write_store(bytes);
    if !ok {
        assert(clear_from_plan(start, *state, Err(TV_METADATA_PERSISTENCE_FAILED), plan, group_id@, write_store)) by {
            reveal(clear_from_plan);
            assert(after_write(ok, Err(TV_METADATA_PERSISTENCE_FAILED), *state, start, group_id@, None));
        }
        return Err(TV_METADATA_PERSISTENCE_FAILED);
    }
    let bound = bind_group(state, group_id, None);
    assert(bound is Ok);
    assert(clear_from_plan(start, *state, Ok(()), plan, group_id@, write_store)) by {
        reveal(clear_from_plan);
        assert(after_write(ok, Ok(()), *state, start, group_id@, None));
    }
    Ok(())
}

/// Clears the match of group `group_id`: the group must still give an authority (its members
/// observed through `observe`); the store is read through `read_store`, the group's
/// association removed (`TV_METADATA_STALE` when it has none) and the new store handed to
/// `write_store`. Only once it is written is the group of the completed scan unbound; then
/// the metadata operations are dropped.
#[verifier::spinoff_prover]
pub fn clear_tv_metadata_match_with(
    state: &mut TvLibraryState,
    group_id: &str,
    observe: impl Fn(String) -> TvFileObservation,
    read_store: impl FnOnce() -> TvMetadataFile,
    write_store: impl FnOnce(Vec<u8>) -> bool,
) -> (result: Result<(), &'static str>)
    requires
        forall|p: String| call_requires(observe, (p,)),
        (exists|seen: Seq<TvFileObservation>|
            #[trigger] observed_members(*old(state), group_id@, observe, seen) && spec_tv_metadata_authority(
                *old(state),
                group_id@,
                seen,
            ) is Ok) ==> call_requires(read_store, ()),
        forall|bytes: Vec<u8>, file: TvMetadataFile, seen: Seq<TvFileObservation>|
            #![trigger call_requires(write_store, (bytes,)), call_ensures(read_store, (), file), observed_members(*old(state), group_id@, observe, seen)]
            call_ensures(read_store, (), file) && observed_members(*old(state), group_id@, observe, seen)
                && clear_writes(*old(state), group_id@, seen, file, bytes@) ==> call_requires(write_store, (bytes,)),
    ensures
        clear_outcome(
            *old(state),
            *final(state),
            result,
            group_id@,
            observe,
            read_store,
            write_store,
        ),
{
    let ghost start = *state;
    let (current, seen) = current_authority(state, group_id, &observe);
    let authority = match current {
        Err(e) => {
            assert(clear_outcome(start, *state, Err(e), group_id@, observe, read_store, write_store)) by {
                reveal(clear_outcome);
                assert(observed_members(start, group_id@, observe, seen@));
            }
            return Err(e);
        },
        Ok(authority) => authority,
    };
    assert(observed_members(start, group_id@, observe, seen@));
    let file = read_store();
    let ghost read = file;
    assert(spec_tv_metadata_authority(start, group_id@, seen@) == Ok::<TvAuthorityView, &'static str>(
        authority@,
    ));
    assert forall|bytes: Vec<u8>| clear_writes(start, group_id@, seen@, read, bytes@) implies call_requires(
        write_store,
        (bytes,),
    ) by {}
    let result = store_cleared_match(state, file, &authority, group_id, write_store);
    assert(clear_after_read(start, *state, result, authority@, group_id@, read_store, write_store)) by {
        reveal(clear_after_read);
        assert(call_ensures(read_store, (), read));
    }
    assert(clear_outcome(start, *state, result, group_id@, observe, read_store, write_store)) by {
        reveal(clear_outcome);
        assert(observed_members(start, group_id@, observe, seen@));
        assert(spec_tv_metadata_authority(start, group_id@, seen@) == Ok::<
            TvAuthorityView,
            &'static str,
        >(authority@));
    }
    result
}

/// The associations of other groups are some of the stored ones, in order.
proof fn lemma_other_associations(associations: Seq<TvAssociationView>, authority: TvAuthorityView)
    ensures
        forall|i: int|
            0 <= i < other_associations(associations, authority).len() ==> !of_authority_group(
                #[trigger] other_associations(associations, authority)[i],
                authority,
            ),
        records_distinct(associations) ==> records_distinct(
            other_associations(associations, authority),
        ),
        forall|i: int|
            0 <= i < other_associations(associations, authority).len() ==> (#[trigger] other_associations(
                associations,
                authority,
            )[i]).generation <= max_generation(other_associations(associations, authority)),
    decreases associations.len(),
{
    if associations.len() > 0 {
        let rest = associations.drop_last();
        let last = associations.last();
        lemma_other_associations(rest, authority);
        let kept = other_associations(rest, authority);
        let all = other_associations(associations, authority);
        assert forall|i: int| 0 <= i < all.len() implies (#[trigger] all[i]).generation
            <= max_generation(all) by {
            if !of_authority_group(last, authority) {
                assert(all.drop_last() =~= kept);
                if i < kept.len() {
                    assert(all[i] == kept[i]);
                }
            }
        }
        if records_distinct(associations) {
            assert forall|i: int, j: int| 0 <= i < j < rest.len() implies !same_group(
                #[trigger] rest[i],
                #[trigger] rest[j],
            ) && rest[i].generation != rest[j].generation && !shared_anchor(rest[i], rest[j]) by {
                assert(rest[i] == associations[i] && rest[j] == associations[j]);
            }
            lemma_other_associations_members(rest, authority);
            if !of_authority_group(last, authority) {
                let all = kept.push(last);
                assert forall|i: int, j: int| 0 <= i < j < all.len() implies !same_group(
                    #[trigger] all[i],
                    #[trigger] all[j],
                ) && all[i].generation != all[j].generation && !shared_anchor(all[i], all[j]) by {
                    if j < kept.len() {
                        assert(all[i] == kept[i] && all[j] == kept[j]);
                    } else {
                        let k = choose|k: int| 0 <= k < rest.len() && #[trigger] rest[k] == kept[i];
                        assert(associations[k] == rest[k]);
                        assert(associations[associations.len() - 1] == last);
                    }
                }
            }
        }
    }
}

/// Every association of other groups is one of the stored ones.
proof fn lemma_other_associations_members(associations: Seq<TvAssociationView>, authority: TvAuthorityView)
    ensures
        forall|i: int|
            #![trigger other_associations(associations, authority)[i]]
            0 <= i < other_associations(associations, authority).len() ==> exists|k: int|
                0 <= k < associations.len() && #[trigger] associations[k]
                    == other_associations(associations, authority)[i],
    decreases associations.len(),
{
    if associations.len() > 0 {
        let rest = associations.drop_last();
        lemma_other_associations_members(rest, authority);
        let kept = other_associations(rest, authority);
        assert forall|i: int|
            #![trigger other_associations(associations, authority)[i]]
            0 <= i < other_associations(associations, authority).len() implies exists|k: int|
            0 <= k < associations.len() && #[trigger] associations[k] == other_associations(
                associations,
                authority,
            )[i] by {
            if i < kept.len() {
                let k = choose|k: int| 0 <= k < rest.len() && #[trigger] rest[k] == kept[i];
                assert(associations[k] == rest[k]);
            } else {
                assert(associations[associations.len() - 1] == associations.last());
            }
        }
    }
}

/// What a read gives back of a saved match: when saving a verified association for the
/// group of `authority` (an association of that group) plans a new store, and none of the
/// other groups' associations claims one of its anchor paths, reading the planned store
/// gives back exactly the saved list: the other groups' associations, then the saved one.
pub proof fn law_saved_match_reads_back(
    file: TvMetadataFile,
    authority: TvAuthorityView,
    association: TvAssociationView,
)
    requires
        save_plan(file, authority, association) is Ok,
        of_authority_group(association, authority),
        spec_read_store(file) matches Ok(stored) && forall|k: int|
            0 <= k < other_associations(stored, authority).len() ==> !shared_anchor(
                #[trigger] other_associations(stored, authority)[k],
                association,
            ),
    ensures
        spec_read_store(file) matches Ok(stored) && spec_saved_store(stored, authority, association) matches Ok(
            list,
        ) && spec_parse_store(save_plan(file, authority, association)->Ok_0.0) == Some(list),
{
    reveal(save_plan);
    let stored = spec_read_store(file)->Ok_0;
    let list = spec_saved_store(stored, authority, association)->Ok_0;
    let kept = other_associations(stored, authority);
    lemma_other_associations(stored, authority);
    match file {
        TvMetadataFile::Contents(bytes) => {
            assert(records_distinct(stored));
        },
        _ => {
            assert(stored.len() == 0);
        },
    }
    let saved = list.last();
    assert(list == kept.push(saved));
    assert forall|i: int, j: int| 0 <= i < j < list.len() implies !same_group(
        #[trigger] list[i],
        #[trigger] list[j],
    ) && list[i].generation != list[j].generation && !shared_anchor(list[i], list[j]) by {
        if j < kept.len() {
            assert(list[i] == kept[i] && list[j] == kept[j]);
        } else {
            assert(list[i] == kept[i]);
            assert(list[j] == saved);
            assert(kept[i].generation <= max_generation(kept));
        }
    }
    lemma_store_round_trip(list);
}

/// What a TMDB cover request for a show group rests on: the scan, the group, and the TMDB
/// show, poster and association generation of the group's association.
#[derive(Clone, Debug, PartialEq, Eq)]
pub struct TvTmdbCoverAuthority {
    pub scan_generation: u64,
    pub group_id: String,
    pub tmdb_id: u64,
    pub poster_path: Option<String>,
    pub association_generation: u64,
}

/// The TMDB cover authority of group `group_id`: the group must have a current metadata
/// authority (its members seen as `seen`) and an association.
pub open spec fn spec_tv_tmdb_cover_authority(
    state: TvLibraryState,
    group_id: Seq<char>,
    seen: Seq<TvFileObservation>,
) -> Result<(u64, u64, Option<Seq<char>>, u64), &'static str> {
    match spec_tv_metadata_authority(state, group_id, seen) {
        Err(e) => Err(e),
        Ok(authority) => {
            let scan = state.completed_scan->0;
            let g = group_with_id(scan.groups@, group_id, 0);
            if g < scan.groups@.len() && scan.groups@[g].association is Some {
                let association = scan.groups@[g].association->0;
                Ok(
                    (
                        authority.scan_generation,
                        association.tmdb_tv_id,
                        optional_view(association.poster_path),
                        association.generation,
                    ),
                )
            } else {
                Err(TV_METADATA_STALE)
            }
        },
    }
}

/// The TMDB cover authority of show group `group_id`, its members observed by `observe`.
pub fn tv_tmdb_cover_authority(
    state: &TvLibraryState,
    group_id: &str,
    observe: &impl Fn(String) -> TvFileObservation,
) -> (result: Result<TvTmdbCoverAuthority, &'static str>)
    requires
        forall|p: String| call_requires(*observe, (p,)),
    ensures
        exists|seen: Seq<TvFileObservation>|
            observed_members(*state, group_id@, *observe, seen) && match result {
                Ok(a) => a.group_id@ == group_id@ && spec_tv_tmdb_cover_authority(
                    *state,
                    group_id@,
                    seen,
                ) == Ok::<(u64, u64, Option<Seq<char>>, u64), &'static str>(
                    (a.scan_generation, a.tmdb_id, optional_view(a.poster_path), a.association_generation),
                ),
                Err(e) => spec_tv_tmdb_cover_authority(*state, group_id@, seen) == Err::<
                    (u64, u64, Option<Seq<char>>, u64),
                    &'static str,
                >(e),
            },
{
    let (found, Ghost(seen)) = current_authority(state, group_id, observe);
    let authority = match found {
        Err(e) => return Err(e),
        Ok(authority) => authority,
    };
    let scan = match &state.completed_scan {
        None => return Err(TV_METADATA_STALE),
        Some(scan) => scan,
    };
    let g = match find_group_with_id(&scan.groups, group_id) {
        None => return Err(TV_METADATA_STALE),
        Some(g) => g,
    };
    let association = match &scan.groups[g].association {
        None => return Err(TV_METADATA_STALE),
        Some(association) => association,
    };
    Ok(TvTmdbCoverAuthority {
        scan_generation: authority.scan_generation,
        group_id: crate::tv_scan::owned(group_id),
        tmdb_id: association.tmdb_tv_id,
        poster_path: crate::tv_store::copy_optional_text(&association.poster_path),
        association_generation: association.generation,
    })
}

} // verus!
