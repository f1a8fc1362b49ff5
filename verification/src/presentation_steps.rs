//! The decisions of a cover or metadata request that goes through the presentation cache: what
//! the cache answers, and what a fresh resolution is turned into. The cache file, the currency
//! checks and the providers stay with the caller, which performs each step's action.
use vstd::prelude::*;

use crate::presentation::{
    attach_verified_identity, copy_identity, reconcile_verified_identities,
    spec_reconcile_verified_identities, DisplayProvider, PresentationMetadata,
    VerifiedDisplayIdentity,
};
use crate::presentation_cache::{
    entry_for, first_item_entry, fresh_cover_entry, fresh_identity_entry, identity_to_keep,
    saved_fresh, saved_fresh_at, PresentationCacheEntry, COVER_TTL_SECONDS, METADATA_TTL_SECONDS,
};
use crate::presentation_context::{
    cover_identity_consistent, spec_cover_identity_consistent, CoverProvider, CoverSource,
    LibraryItemAuthority,
};
use crate::presentation_resolve::CoverResolution;
use crate::provider::ProviderRequestError;

verus! {

/// Whether entry `k` is the first for `authority`'s item whose identity is still fresh.
pub open spec fn first_fresh_identity(
    cache: Seq<PresentationCacheEntry>,
    authority: LibraryItemAuthority,
    now: u64,
    k: int,
) -> bool {
    &&& 0 <= k < cache.len()
    &&& entry_for(cache[k], authority)
    &&& saved_fresh(cache[k].identity_saved_at, now, METADATA_TTL_SECONDS)
    &&& forall|j: int|
        0 <= j < k ==> !(entry_for(#[trigger] cache[j], authority) && saved_fresh(
            cache[j].identity_saved_at,
            now,
            METADATA_TTL_SECONDS,
        ))
}

/// Whether entry `k` is the first for `authority`'s item whose cover is still fresh.
pub open spec fn first_fresh_cover(
    cache: Seq<PresentationCacheEntry>,
    authority: LibraryItemAuthority,
    now: u64,
    k: int,
) -> bool {
    &&& 0 <= k < cache.len()
    &&& entry_for(cache[k], authority)
    &&& saved_fresh(cache[k].cover_saved_at, now, COVER_TTL_SECONDS)
    &&& forall|j: int|
        0 <= j < k ==> !(entry_for(#[trigger] cache[j], authority) && saved_fresh(
            cache[j].cover_saved_at,
            now,
            COVER_TTL_SECONDS,
        ))
}

/// The fresh cached identity of `authority`'s item, with the time it was saved: that of the
/// first entry for the item whose identity is fresh, if it holds one.
pub open spec fn spec_cached_identity(
    cache: Seq<PresentationCacheEntry>,
    authority: LibraryItemAuthority,
    now: u64,
) -> Option<(u64, VerifiedDisplayIdentity)> {
    if exists|k: int| first_fresh_identity(cache, authority, now, k) {
        let k = choose|k: int| first_fresh_identity(cache, authority, now, k);
        match cache[k].verified_identity {
            Some(i) => Some((cache[k].identity_saved_at, i)),
            None => None,
        }
    } else {
        None
    }
}

/// What the cache says of a cover request.
pub enum CoverCacheStep {
    /// The cover of entry `k` is fresh: it is answered from the cache, once the request is
    /// still current.
    Cached(usize),
    /// The cover must be resolved; the fresh cached identity, if any, stands in should the
    /// providers be unreachable.
    Resolve(Option<(u64, VerifiedDisplayIdentity)>),
}

proof fn lemma_first_unique_identity(
    cache: Seq<PresentationCacheEntry>,
    authority: LibraryItemAuthority,
    now: u64,
    a: int,
    b: int,
)
    requires
        first_fresh_identity(cache, authority, now, a),
        first_fresh_identity(cache, authority, now, b),
    ensures
        a == b,
{
    if a < b {
        assert(entry_for(cache[a], authority));
    } else if b < a {
        assert(entry_for(cache[b], authority));
    }
}

proof fn lemma_first_unique_cover(
    cache: Seq<PresentationCacheEntry>,
    authority: LibraryItemAuthority,
    now: u64,
    a: int,
    b: int,
)
    requires
        first_fresh_cover(cache, authority, now, a),
        first_fresh_cover(cache, authority, now, b),
    ensures
        a == b,
{
    if a < b {
        assert(entry_for(cache[a], authority));
    } else if b < a {
        assert(entry_for(cache[b], authority));
    }
}

/// The first step of a cover request at `now`: the first entry for the item whose cover was
/// saved less than `COVER_TTL_SECONDS` ago answers it; otherwise it is resolved, with the
/// cached identity that is still fresh.
pub fn cover_cache_step(cache: &Vec<PresentationCacheEntry>, authority: &LibraryItemAuthority, now: u64) -> (step:
    CoverCacheStep)
    ensures
        match step {
            CoverCacheStep::Cached(k) => first_fresh_cover(cache@, *authority, now, k as int),
            CoverCacheStep::Resolve(cached) => !(exists|k: int| first_fresh_cover(cache@, *authority, now, k))
                && cached == spec_cached_identity(cache@, *authority, now),
        },
{
    match fresh_cover_entry(cache, authority, now) {
        Some(k) => return CoverCacheStep::Cached(k),
        None => {},
    }
    assert(!(exists|k: int| first_fresh_cover(cache@, *authority, now, k)));
    match fresh_identity_entry(cache, authority, now) {
        None => {
            assert(!(exists|k: int| first_fresh_identity(cache@, *authority, now, k)));
            CoverCacheStep::Resolve(None)
        },
        Some(k) => {
            proof {
                assert(first_fresh_identity(cache@, *authority, now, k as int));
                let c = choose|c: int| first_fresh_identity(cache@, *authority, now, c);
                lemma_first_unique_identity(cache@, *authority, now, c, k as int);
            }
            match &cache[k].verified_identity {
                Some(i) => CoverCacheStep::Resolve(Some((cache[k].identity_saved_at, copy_identity(i)))),
                None => CoverCacheStep::Resolve(None),
            }
        },
    }
}

/// How a resolved cover is answered.
#[derive(Clone, Copy, Debug, PartialEq, Eq)]
pub enum CoverAnswerState {
    Ready,
    Unavailable,
    Missing,
}

impl CoverAnswerState {
    pub open spec fn text(self) -> Seq<char> {
        match self {
            CoverAnswerState::Ready => "ready"@,
            CoverAnswerState::Unavailable => "unavailable"@,
            CoverAnswerState::Missing => "missing"@,
        }
    }

    pub fn as_str(self) -> (text: &'static str)
        ensures
            text@ == self.text(),
    {
        match self {
            CoverAnswerState::Ready => "ready",
            CoverAnswerState::Unavailable => "unavailable",
            CoverAnswerState::Missing => "missing",
        }
    }
}

/// What a fresh cover resolution is turned into.
pub enum CoverResolutionStep {
    /// The providers disagree about the item: its cache entry is forgotten, a conflict is
    /// kept as its metadata seed, and it is answered unavailable with nothing.
    Conflict,
    /// The cover disagrees with the verified identity: the request fails.
    Inconsistent,
    /// The answer: its state, the cover with its bytes, the verified identity and when it
    /// counts as saved, the metadata to keep as a seed, and whether the cache entry is
    /// updated.
    Answer {
        state: CoverAnswerState,
        cover: Option<(CoverSource, Vec<u8>)>,
        verified: Option<VerifiedDisplayIdentity>,
        identity_saved_at: u64,
        seed: Option<PresentationMetadata>,
        keep: bool,
    },
}

/// The identity a cover source verifies: JavDB's and FANZA's covers name the item exactly,
/// r18.dev's does not.
pub open spec fn spec_identity_from_cover(source: CoverSource) -> Option<VerifiedDisplayIdentity> {
    match source.provider {
        CoverProvider::JavDb => Some(
            VerifiedDisplayIdentity {
                provider: DisplayProvider::JavDb,
                provider_id: source.provider_id,
                display_code: source.display_code,
            },
        ),
        CoverProvider::Fanza => Some(
            VerifiedDisplayIdentity {
                provider: DisplayProvider::Fanza,
                provider_id: source.provider_id,
                display_code: source.display_code,
            },
        ),
        CoverProvider::R18Dev => None,
    }
}

fn identity_from_cover(source: &CoverSource) -> (identity: Option<VerifiedDisplayIdentity>)
    ensures
        identity == spec_identity_from_cover(*source),
{
    match source.provider {
        CoverProvider::JavDb => Some(
            VerifiedDisplayIdentity {
                provider: DisplayProvider::JavDb,
                provider_id: source.provider_id.clone(),
                display_code: source.display_code.clone(),
            },
        ),
        CoverProvider::Fanza => Some(
            VerifiedDisplayIdentity {
                provider: DisplayProvider::Fanza,
                provider_id: source.provider_id.clone(),
                display_code: source.display_code.clone(),
            },
        ),
        CoverProvider::R18Dev => None,
    }
}

/// Metadata resting on `identity` (a verified identity also sets the display code shown).
pub open spec fn spec_attached(m: PresentationMetadata, identity: Option<VerifiedDisplayIdentity>) -> PresentationMetadata {
    PresentationMetadata {
        verified_identity: identity,
        display_code: match identity {
            Some(i) => Some(i.display_code),
            None => m.display_code,
        },
        ..m
    }
}

/// A cover shown under the verified identity: an r18.dev cover takes its display code.
pub open spec fn shown_cover(source: CoverSource, identity: Option<VerifiedDisplayIdentity>) -> CoverSource {
    if source.provider == CoverProvider::R18Dev && identity is Some {
        CoverSource { display_code: identity->0.display_code, ..source }
    } else {
        source
    }
}

/// What resolution `r` of `authority`'s item at `now` is turned into, with `cached` the fresh
/// cached identity and `source_valid` whether the cover source passes its provider's checks:
/// a conflict in the gathered metadata, or between its identity and the one the cover names,
/// is a conflict; the identity kept is the reconciled one (saved now), or, when the providers
/// could not be reached, the cached one; an r18.dev cover takes its display code; a cover that
/// disagrees with it is inconsistent; otherwise the cover is ready, or unavailable (when a
/// lookup failed) or missing, and the cache is updated unless nothing is known.
pub open spec fn spec_cover_resolution_step(
    r: CoverResolution,
    cached: Option<(u64, VerifiedDisplayIdentity)>,
    authority: LibraryItemAuthority,
    now: u64,
    source_valid: bool,
) -> CoverResolutionStep {
    if r.metadata matches Some(m) && m.identity_conflict {
        CoverResolutionStep::Conflict
    } else {
        let from_metadata = match r.metadata {
            Some(m) => m.verified_identity,
            None => None,
        };
        let from_cover = match r.cover {
            Some(c) => spec_identity_from_cover(c.0),
            None => None,
        };
        match spec_reconcile_verified_identities(from_metadata, from_cover) {
            Err(()) => CoverResolutionStep::Conflict,
            Ok(resolved) => {
                let kept = match resolved {
                    Some(i) => (now, Some(i)),
                    None => match cached {
                        Some((saved_at, i)) => if r.transient {
                            (saved_at, Some(i))
                        } else {
                            (0u64, None::<VerifiedDisplayIdentity>)
                        },
                        None => (0u64, None::<VerifiedDisplayIdentity>),
                    },
                };
                let verified = kept.1;
                let cover = match r.cover {
                    Some(c) => Some((shown_cover(c.0, verified), c.1)),
                    None => None,
                };
                if cover matches Some(c) && !spec_cover_identity_consistent(
                    c.0,
                    verified,
                    authority.code@,
                    source_valid,
                ) {
                    CoverResolutionStep::Inconsistent
                } else {
                    let state = if cover is Some {
                        CoverAnswerState::Ready
                    } else if r.transient {
                        CoverAnswerState::Unavailable
                    } else {
                        CoverAnswerState::Missing
                    };
                    CoverResolutionStep::Answer {
                        state,
                        cover,
                        verified,
                        identity_saved_at: kept.0,
                        seed: match r.metadata {
                            Some(m) => Some(spec_attached(m, verified)),
                            None => None,
                        },
                        keep: state != CoverAnswerState::Unavailable || verified is Some,
                    }
                }
            },
        }
    }
}

/// Turns a fresh cover resolution of `authority`'s item at `now` into its answer (see
/// `spec_cover_resolution_step`).
pub fn cover_resolution_step(
    resolution: CoverResolution,
    cached: Option<(u64, VerifiedDisplayIdentity)>,
    authority: &LibraryItemAuthority,
    now: u64,
    source_valid: bool,
) -> (step: CoverResolutionStep)
    ensures
        step == spec_cover_resolution_step(resolution, cached, *authority, now, source_valid),
{
    let ghost r = resolution;
    let CoverResolution { cover, metadata, transient } = resolution;
    let conflict = match &metadata {
        Some(m) => m.identity_conflict,
        None => false,
    };
    if conflict {
        return CoverResolutionStep::Conflict;
    }
    let from_metadata = match &metadata {
        Some(m) => match &m.verified_identity {
            Some(i) => Some(copy_identity(i)),
            None => None,
        },
        None => None,
    };
    let from_cover = match &cover {
        Some((source, _)) => identity_from_cover(source),
        None => None,
    };
    let resolved = match reconcile_verified_identities(from_metadata, from_cover) {
        Err(()) => return CoverResolutionStep::Conflict,
        Ok(resolved) => resolved,
    };
    let (identity_saved_at, verified) = identity_to_keep(resolved, transient, cached, now);
    let cover = match cover {
        Some((mut source, bytes)) => {
            match &verified {
                Some(i) => {
                    if source.provider == CoverProvider::R18Dev {
                        source.display_code = i.display_code.clone();
                    }
                },
                None => {},
            }
            Some((source, bytes))
        },
        None => None,
    };
    let consistent = match &cover {
        Some((source, _)) => cover_identity_consistent(
            source,
            verified.as_ref(),
            authority.code.as_str(),
            source_valid,
        ),
        None => true,
    };
    if !consistent {
        return CoverResolutionStep::Inconsistent;
    }
    let seed = match metadata {
        Some(mut m) => {
            let attached = match &verified {
                Some(i) => Some(copy_identity(i)),
                None => None,
            };
            attach_verified_identity(&mut m, attached);
            Some(m)
        },
        None => None,
    };
    let state = if cover.is_some() {
        CoverAnswerState::Ready
    } else if transient {
        CoverAnswerState::Unavailable
    } else {
        CoverAnswerState::Missing
    };
    let keep = !matches!(state, CoverAnswerState::Unavailable) || verified.is_some();
    CoverResolutionStep::Answer { state, cover, verified, identity_saved_at, seed, keep }
}

/// Whether entry `k` is the first for `authority`'s item.
pub open spec fn first_item(cache: Seq<PresentationCacheEntry>, authority: LibraryItemAuthority, k: int) -> bool {
    0 <= k < cache.len() && entry_for(cache[k], authority) && forall|j: int|
        0 <= j < k ==> !entry_for(#[trigger] cache[j], authority)
}

/// The identity a metadata request starts from: that of the first entry for the item, while
/// it is fresh.
pub open spec fn spec_current_identity(
    cache: Seq<PresentationCacheEntry>,
    authority: LibraryItemAuthority,
    now: u64,
) -> Option<VerifiedDisplayIdentity> {
    if exists|k: int| first_item(cache, authority, k) {
        let k = choose|k: int| first_item(cache, authority, k);
        if saved_fresh(cache[k].identity_saved_at, now, METADATA_TTL_SECONDS) {
            cache[k].verified_identity
        } else {
            None
        }
    } else {
        None
    }
}

/// What the cache says of a metadata request.
pub enum MetadataCacheStep {
    /// The metadata of entry `k` is fresh: it is answered from the cache (`automatic` when it
    /// is ready, else `local-only`), once the request is still current.
    Cached(usize),
    /// The metadata must be resolved, starting from the fresh cached identity, if any.
    Resolve(Option<VerifiedDisplayIdentity>),
}

/// The first step of a metadata request at `now`: the first entry for the item answers it
/// when its metadata was saved less than `METADATA_TTL_SECONDS` ago; otherwise it is resolved
/// from that entry's identity while that is fresh.
pub fn metadata_cache_step(cache: &Vec<PresentationCacheEntry>, authority: &LibraryItemAuthority, now: u64) -> (step:
    MetadataCacheStep)
    ensures
        match step {
            MetadataCacheStep::Cached(k) => first_item(cache@, *authority, k as int) && saved_fresh(
                cache@[k as int].metadata_saved_at,
                now,
                METADATA_TTL_SECONDS,
            ),
            MetadataCacheStep::Resolve(current) => (forall|k: int|
                #[trigger] first_item(cache@, *authority, k) ==> !saved_fresh(
                    cache@[k].metadata_saved_at,
                    now,
                    METADATA_TTL_SECONDS,
                )) && current == spec_current_identity(cache@, *authority, now),
        },
{
    match first_item_entry(cache, authority) {
        None => {
            assert(!(exists|k: int| first_item(cache@, *authority, k)));
            MetadataCacheStep::Resolve(None)
        },
        Some(k) => {
            proof {
                assert(first_item(cache@, *authority, k as int));
                assert forall|c: int| #[trigger] first_item(cache@, *authority, c) implies c == k by {
                    if c < k {
                        assert(entry_for(cache@[c], *authority));
                    } else if c > k {
                        assert(entry_for(cache@[k as int], *authority));
                    }
                }
            }
            if saved_fresh_at(cache[k].metadata_saved_at, now, METADATA_TTL_SECONDS) {
                return MetadataCacheStep::Cached(k);
            }
            if saved_fresh_at(cache[k].identity_saved_at, now, METADATA_TTL_SECONDS) {
                match &cache[k].verified_identity {
                    Some(i) => MetadataCacheStep::Resolve(Some(copy_identity(i))),
                    None => MetadataCacheStep::Resolve(None),
                }
            } else {
                MetadataCacheStep::Resolve(None)
            }
        },
    }
}

/// What a fresh metadata resolution is turned into.
pub enum MetadataResolutionStep {
    /// The providers disagree about the item: its cache entry is forgotten and it is answered
    /// unavailable with a conflict.
    Conflict,
    /// A lookup failed: it is answered unavailable with the current identity.
    Unavailable,
    /// The answer: `automatic` metadata (kept in the cache) or `local-only` metadata, with the
    /// verified identity it rests on.
    Answer { automatic: bool, verified: Option<VerifiedDisplayIdentity>, metadata: PresentationMetadata },
}

/// Metadata that holds nothing but the identity it rests on.
pub open spec fn only_identity(m: PresentationMetadata, identity: Option<VerifiedDisplayIdentity>) -> bool {
    &&& m.verified_identity == identity
    &&& m.display_code == match identity {
        Some(i) => Some(i.display_code),
        None => None,
    }
    &&& !m.identity_conflict
    &&& m.source is None
    &&& m.provider_id is None
    &&& m.title is None
    &&& m.date is None
    &&& m.runtime is None
    &&& m.cast@.len() == 0
}

/// Turns a fresh metadata resolution into its answer, starting from the `current` identity:
/// conflicting metadata, or metadata whose identity does not reconcile with the current one,
/// is a conflict; a failed lookup is unavailable; no metadata is local-only, resting on the
/// current identity; otherwise the metadata is automatic, resting on the reconciled identity.
pub fn metadata_resolution_step(
    resolved: Result<Option<PresentationMetadata>, ProviderRequestError>,
    current: Option<VerifiedDisplayIdentity>,
) -> (step: MetadataResolutionStep)
    ensures
        match resolved {
            Err(_) => step is Unavailable,
            Ok(None) => step matches MetadataResolutionStep::Answer { automatic, verified, metadata }
                && !automatic && verified == current && only_identity(metadata, current),
            Ok(Some(m)) => if m.identity_conflict {
                step is Conflict
            } else {
                match spec_reconcile_verified_identities(current, m.verified_identity) {
                    Err(()) => step is Conflict,
                    Ok(v) => step == MetadataResolutionStep::Answer {
                        automatic: true,
                        verified: v,
                        metadata: spec_attached(m, v),
                    },
                }
            },
        },
{
    match resolved {
        Err(_) => MetadataResolutionStep::Unavailable,
        Ok(None) => {
            let mut metadata = PresentationMetadata::default();
            let attached = match &current {
                Some(i) => Some(copy_identity(i)),
                None => None,
            };
            attach_verified_identity(&mut metadata, attached);
            MetadataResolutionStep::Answer { automatic: false, verified: current, metadata }
        },
        Ok(Some(mut m)) => {
            if m.identity_conflict {
                return MetadataResolutionStep::Conflict;
            }
            let candidate = match &m.verified_identity {
                Some(i) => Some(copy_identity(i)),
                None => None,
            };
            match reconcile_verified_identities(current, candidate) {
                Err(()) => MetadataResolutionStep::Conflict,
                Ok(v) => {
                    let attached = match &v {
                        Some(i) => Some(copy_identity(i)),
                        None => None,
                    };
                    attach_verified_identity(&mut m, attached);
                    MetadataResolutionStep::Answer { automatic: true, verified: v, metadata: m }
                },
            }
        },
    }
}

} // verus!
