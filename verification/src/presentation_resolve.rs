//! How a cover is found for an adult or VR library item: JavDB's exact match first, then
//! FANZA's, then r18.dev's document, each cover checked before it is taken, with the verified
//! identity and metadata gathered on the way.
use vstd::prelude::*;

use crate::presentation::{
    attach_verified_identity, copy_identity, legacy_url, opt_metadata_view, reconcile_verified_identities,
    spec_legacy_url, spec_presentation_cover, spec_reconcile_verified_identities,
    validate_presentation_cover, DisplayProvider, MetadataView,
    PresentationMetadata, VerifiedDisplayIdentity,
};
use crate::presentation_context::{CoverProvider, CoverSource, LibraryItemAuthority};
use crate::provider::ProviderRequestError;

verus! {

/// An exact provider match as plain values: the provider's id and display code for the item,
/// and the URL of its cover, if it lists one.
#[derive(Clone, Debug, PartialEq, Eq)]
pub struct ExactProviderItem {
    pub provider_id: String,
    pub display_code: String,
    pub cover_url: Option<String>,
}

/// What r18.dev's document of an item gives: its metadata, if acceptable, and its exact cover
/// URL (`Ok(None)` when it lists none, `Err` when its image data is malformed).
#[derive(Debug, PartialEq, Eq)]
pub struct LegacyDocument {
    pub metadata: Option<PresentationMetadata>,
    pub cover_url: Result<Option<String>, ()>,
}

/// A cover resolution: the cover found with its bytes, the metadata gathered, and whether a
/// lookup failed in a way that may pass.
pub struct CoverResolution {
    pub cover: Option<(CoverSource, Vec<u8>)>,
    pub metadata: Option<PresentationMetadata>,
    pub transient: bool,
}

/// A cover resolution as plain values.
pub struct CoverResolutionView {
    pub cover: Option<(CoverSource, Seq<u8>)>,
    pub metadata: Option<MetadataView>,
    pub transient: bool,
}

impl View for CoverResolution {
    type V = CoverResolutionView;

    open spec fn view(&self) -> CoverResolutionView {
        CoverResolutionView {
            cover: match self.cover {
                Some((source, bytes)) => Some((source, bytes@)),
                None => None,
            },
            metadata: opt_metadata_view(self.metadata),
            transient: self.transient,
        }
    }
}

/// What each lookup after JavDB's gave, in order.
pub struct CoverTrace {
    pub javdb_image: Result<Vec<u8>, ProviderRequestError>,
    pub fanza: Result<Option<ExactProviderItem>, ProviderRequestError>,
    pub fanza_image: Result<Vec<u8>, ProviderRequestError>,
    pub legacy: Result<LegacyDocument, ProviderRequestError>,
    pub legacy_image: Result<Vec<u8>, ProviderRequestError>,
}

/// Where a resolution stands between lookups: finished, or the identity verified, the
/// metadata gathered and whether a lookup failed transiently so far.
pub struct ResolveState {
    pub done: Option<CoverResolutionView>,
    pub verified: Option<VerifiedDisplayIdentity>,
    pub metadata: Option<MetadataView>,
    pub transient: bool,
}

/// A checked cover image: its bytes and dimensions, when it passes the cover checks.
pub open spec fn checked_image(r: Result<Vec<u8>, ProviderRequestError>) -> Option<(Seq<u8>, nat, nat)> {
    match r {
        Ok(b) => match spec_presentation_cover(b@) {
            Some((w, h)) => Some((b@, w, h)),
            None => None,
        },
        Err(_) => None,
    }
}

/// Metadata with no field set.
pub open spec fn empty_metadata() -> MetadataView {
    MetadataView {
        verified_identity: None,
        identity_conflict: false,
        source: None,
        provider_id: None,
        display_code: None,
        title: None,
        date: None,
        runtime: None,
        cast: Seq::empty(),
    }
}

/// Metadata resting on `identity`, which also sets the display code shown.
pub open spec fn attached(m: Option<MetadataView>, identity: VerifiedDisplayIdentity) -> MetadataView {
    let base = if m is Some {
        m->0
    } else {
        empty_metadata()
    };
    MetadataView {
        verified_identity: Some(identity@),
        display_code: Some(identity.display_code@),
        ..base
    }
}

/// The identity a provider's exact match verifies.
pub open spec fn item_identity(provider: DisplayProvider, item: ExactProviderItem) -> VerifiedDisplayIdentity {
    VerifiedDisplayIdentity {
        provider,
        provider_id: item.provider_id,
        display_code: item.display_code,
    }
}

/// The cover `source` of `provider` for `item`, from `url`, with the checked dimensions.
pub open spec fn found_cover(
    provider: CoverProvider,
    provider_id: String,
    display_code: String,
    url: String,
    image: (Seq<u8>, nat, nat),
) -> (CoverSource, Seq<u8>) {
    (
        CoverSource {
            provider,
            provider_id,
            display_code,
            url,
            width: image.1 as u32,
            height: image.2 as u32,
        },
        image.0,
    )
}

/// After JavDB's exact match (`javdb`, with its metadata): its identity and metadata are
/// held, and its cover is taken when it passes the checks; a listed cover that fails, or a
/// failed lookup, is transient.
pub open spec fn javdb_stage(
    javdb: Result<Option<(ExactProviderItem, PresentationMetadata)>, ProviderRequestError>,
    image: Result<Vec<u8>, ProviderRequestError>,
) -> ResolveState {
    match javdb {
        Err(_) => ResolveState { done: None, verified: None, metadata: None, transient: true },
        Ok(None) => ResolveState { done: None, verified: None, metadata: None, transient: false },
        Ok(Some((item, meta))) => {
            let verified = Some(item_identity(DisplayProvider::JavDb, item));
            if item.cover_url is Some && checked_image(image) is Some {
                ResolveState {
                    done: Some(
                        CoverResolutionView {
                            cover: Some(
                                found_cover(
                                    CoverProvider::JavDb,
                                    item.provider_id,
                                    item.display_code,
                                    item.cover_url->0,
                                    checked_image(image)->0,
                                ),
                            ),
                            metadata: Some(meta@),
                            transient: false,
                        },
                    ),
                    verified,
                    metadata: Some(meta@),
                    transient: false,
                }
            } else {
                ResolveState {
                    done: None,
                    verified,
                    metadata: Some(meta@),
                    transient: item.cover_url is Some,
                }
            }
        },
    }
}

/// After FANZA's exact match: its identity must reconcile with the held one (a conflict ends
/// the resolution with conflicting metadata), the reconciled identity is attached to the
/// metadata, and its cover is taken when it passes the checks.
pub open spec fn fanza_stage(
    s: ResolveState,
    fanza: Result<Option<ExactProviderItem>, ProviderRequestError>,
    image: Result<Vec<u8>, ProviderRequestError>,
) -> ResolveState {
    if s.done is Some {
        s
    } else {
        match fanza {
            Err(_) => ResolveState { transient: true, ..s },
            Ok(None) => s,
            Ok(Some(item)) => {
                let reconciled = spec_reconcile_verified_identities(
                    s.verified,
                    Some(item_identity(DisplayProvider::Fanza, item)),
                );
                if reconciled is Err {
                    ResolveState {
                        done: Some(
                            CoverResolutionView {
                                cover: None,
                                metadata: Some(
                                    MetadataView { identity_conflict: true, ..empty_metadata() },
                                ),
                                transient: true,
                            },
                        ),
                        ..s
                    }
                } else {
                    let verified = reconciled->Ok_0;
                    let metadata = if verified is Some {
                        Some(attached(s.metadata, verified->0))
                    } else {
                        s.metadata
                    };
                    if item.cover_url is Some && checked_image(image) is Some {
                        ResolveState {
                            done: Some(
                                CoverResolutionView {
                                    cover: Some(
                                        found_cover(
                                            CoverProvider::Fanza,
                                            item.provider_id,
                                            item.display_code,
                                            item.cover_url->0,
                                            checked_image(image)->0,
                                        ),
                                    ),
                                    metadata,
                                    transient: s.transient,
                                },
                            ),
                            verified,
                            metadata,
                            transient: s.transient,
                        }
                    } else {
                        ResolveState {
                            done: None,
                            verified,
                            metadata,
                            transient: s.transient || item.cover_url is Some,
                        }
                    }
                }
            },
        }
    }
}

/// After r18.dev's document: its metadata stands in when none is held, and its exact cover is
/// taken when it passes the checks, shown under the verified display code (or the item's).
pub open spec fn legacy_stage(
    s: ResolveState,
    authority: LibraryItemAuthority,
    legacy: Result<LegacyDocument, ProviderRequestError>,
    image: Result<Vec<u8>, ProviderRequestError>,
) -> ResolveState {
    if s.done is Some {
        s
    } else {
        match legacy {
            Err(_) => ResolveState { transient: true, ..s },
            Ok(doc) => {
                let metadata = if s.metadata is None {
                    opt_metadata_view(doc.metadata)
                } else {
                    s.metadata
                };
                match doc.cover_url {
                    Ok(Some(url)) => if checked_image(image) is Some {
                        ResolveState {
                            done: Some(
                                CoverResolutionView {
                                    cover: Some(
                                        found_cover(
                                            CoverProvider::R18Dev,
                                            authority.product_identity,
                                            if s.verified is Some {
                                                s.verified->0.display_code
                                            } else {
                                                authority.code
                                            },
                                            url,
                                            checked_image(image)->0,
                                        ),
                                    ),
                                    metadata,
                                    transient: s.transient,
                                },
                            ),
                            metadata,
                            ..s
                        }
                    } else {
                        ResolveState { metadata, transient: true, ..s }
                    },
                    Ok(None) => ResolveState { metadata, ..s },
                    Err(_) => ResolveState { metadata, transient: true, ..s },
                }
            },
        }
    }
}

/// The resolution: the cover found, or none with the verified identity attached to the
/// metadata gathered.
pub open spec fn spec_resolve_cover(
    authority: LibraryItemAuthority,
    javdb: Result<Option<(ExactProviderItem, PresentationMetadata)>, ProviderRequestError>,
    t: CoverTrace,
) -> CoverResolutionView {
    let s = legacy_stage(
        fanza_stage(javdb_stage(javdb, t.javdb_image), t.fanza, t.fanza_image),
        authority,
        t.legacy,
        t.legacy_image,
    );
    if s.done is Some {
        s.done->0
    } else {
        CoverResolutionView {
            cover: None,
            metadata: if s.verified is Some {
                Some(attached(s.metadata, s.verified->0))
            } else {
                s.metadata
            },
            transient: s.transient,
        }
    }
}

/// Whether JavDB's cover image is fetched: its exact match lists a cover.
pub open spec fn javdb_image_asked(
    javdb: Result<Option<(ExactProviderItem, PresentationMetadata)>, ProviderRequestError>,
) -> bool {
    match javdb {
        Ok(Some((item, _))) => item.cover_url is Some,
        _ => false,
    }
}

/// The cover URL JavDB's exact match lists.
pub open spec fn javdb_cover_url(
    javdb: Result<Option<(ExactProviderItem, PresentationMetadata)>, ProviderRequestError>,
) -> Seq<char> {
    match javdb {
        Ok(Some((item, _))) => match item.cover_url {
            Some(url) => url@,
            None => Seq::empty(),
        },
        _ => Seq::empty(),
    }
}

/// Whether FANZA's cover image is fetched: FANZA was asked, its exact match reconciles with
/// the held identity and lists a cover.
pub open spec fn fanza_image_asked(s: ResolveState, fanza: Result<Option<ExactProviderItem>, ProviderRequestError>) -> bool {
    s.done is None && match fanza {
        Ok(Some(item)) => spec_reconcile_verified_identities(
            s.verified,
            Some(item_identity(DisplayProvider::Fanza, item)),
        ) is Ok && item.cover_url is Some,
        _ => false,
    }
}

/// The cover URL FANZA's exact match lists.
pub open spec fn fanza_cover_url(fanza: Result<Option<ExactProviderItem>, ProviderRequestError>) -> Seq<char> {
    match fanza {
        Ok(Some(item)) => match item.cover_url {
            Some(url) => url@,
            None => Seq::empty(),
        },
        _ => Seq::empty(),
    }
}

/// Whether r18.dev's cover image is fetched: its document was read and lists an exact cover.
pub open spec fn legacy_image_asked(s: ResolveState, legacy: Result<LegacyDocument, ProviderRequestError>) -> bool {
    s.done is None && match legacy {
        Ok(doc) => doc.cover_url matches Ok(Some(_)),
        _ => false,
    }
}

/// The cover URL r18.dev's document lists.
pub open spec fn legacy_cover_url(legacy: Result<LegacyDocument, ProviderRequestError>) -> Seq<char> {
    match legacy {
        Ok(doc) => match doc.cover_url {
            Ok(Some(url)) => url@,
            _ => Seq::empty(),
        },
        _ => Seq::empty(),
    }
}

/// Whether JavDB's cover image, if it was fetched, gave what trace `t` records.
pub open spec fn answered_javdb<I: FnOnce(&str) -> Result<Vec<u8>, ProviderRequestError>>(
    javdb: Result<Option<(ExactProviderItem, PresentationMetadata)>, ProviderRequestError>,
    javdb_image: I,
    t: CoverTrace,
) -> bool {
    javdb_image_asked(javdb) ==> exists|url: &str|
        url@ == javdb_cover_url(javdb) && call_ensures(javdb_image, (url,), t.javdb_image)
}

/// Whether the lookups up to FANZA's, if they were made, gave what trace `t` records.
pub open spec fn answered_fanza<
    I: FnOnce(&str) -> Result<Vec<u8>, ProviderRequestError>,
    F: FnOnce() -> Result<Option<ExactProviderItem>, ProviderRequestError>,
>(
    javdb: Result<Option<(ExactProviderItem, PresentationMetadata)>, ProviderRequestError>,
    javdb_image: I,
    fanza: F,
    t: CoverTrace,
) -> bool {
    &&& answered_javdb(javdb, javdb_image, t)
    &&& javdb_stage(javdb, t.javdb_image).done is None ==> call_ensures(fanza, (), t.fanza)
}

/// Whether the lookups up to FANZA's cover image, if they were made, gave what trace `t`
/// records.
pub open spec fn answered_fanza_image<
    I: FnOnce(&str) -> Result<Vec<u8>, ProviderRequestError>,
    F: FnOnce() -> Result<Option<ExactProviderItem>, ProviderRequestError>,
    G: FnOnce(&str) -> Result<Vec<u8>, ProviderRequestError>,
>(
    javdb: Result<Option<(ExactProviderItem, PresentationMetadata)>, ProviderRequestError>,
    javdb_image: I,
    fanza: F,
    fanza_image: G,
    t: CoverTrace,
) -> bool {
    &&& answered_fanza(javdb, javdb_image, fanza, t)
    &&& fanza_image_asked(javdb_stage(javdb, t.javdb_image), t.fanza) ==> exists|url: &str|
        url@ == fanza_cover_url(t.fanza) && call_ensures(fanza_image, (url,), t.fanza_image)
}

/// Whether the lookups up to r18.dev's document, if they were made, gave what trace `t`
/// records.
pub open spec fn answered_legacy<
    I: FnOnce(&str) -> Result<Vec<u8>, ProviderRequestError>,
    F: FnOnce() -> Result<Option<ExactProviderItem>, ProviderRequestError>,
    G: FnOnce(&str) -> Result<Vec<u8>, ProviderRequestError>,
    L: FnOnce(&str) -> Result<LegacyDocument, ProviderRequestError>,
>(
    authority: LibraryItemAuthority,
    javdb: Result<Option<(ExactProviderItem, PresentationMetadata)>, ProviderRequestError>,
    javdb_image: I,
    fanza: F,
    fanza_image: G,
    legacy: L,
    t: CoverTrace,
) -> bool {
    &&& answered_fanza_image(javdb, javdb_image, fanza, fanza_image, t)
    &&& fanza_stage(javdb_stage(javdb, t.javdb_image), t.fanza, t.fanza_image).done is None ==> exists|
        url: &str,
    | url@ == spec_legacy_url(authority.product_identity@) && call_ensures(legacy, (url,), t.legacy)
}

/// A checked image with its bytes and dimensions.
fn check_image(r: Result<Vec<u8>, ProviderRequestError>) -> (checked: Option<(Vec<u8>, u32, u32)>)
    ensures
        match checked {
            Some((b, w, h)) => checked_image(r) == Some((b@, w as nat, h as nat)),
            None => checked_image(r) is None,
        },
{
    match r {
        Ok(b) => match validate_presentation_cover(b) {
            Ok((kept, w, h)) => Some((kept, w, h)),
            Err(_) => None,
        },
        Err(_) => None,
    }
}

fn identity_of(provider: DisplayProvider, item: &ExactProviderItem) -> (identity: VerifiedDisplayIdentity)
    ensures
        identity == item_identity(provider, *item),
{
    VerifiedDisplayIdentity {
        provider,
        provider_id: item.provider_id.clone(),
        display_code: item.display_code.clone(),
    }
}

fn attach_to(metadata: Option<PresentationMetadata>, identity: VerifiedDisplayIdentity) -> (m: PresentationMetadata)
    ensures
        m@ == attached(opt_metadata_view(metadata), identity),
{
    let mut m = match metadata {
        Some(m) => m,
        None => PresentationMetadata::default(),
    };
    let ghost before = m@;
    attach_verified_identity(&mut m, Some(identity));
    assert(opt_metadata_view(metadata) is None ==> before =~= empty_metadata());
    assert(m@ =~= attached(opt_metadata_view(metadata), identity));
    m
}

/// Finds the cover of `authority`'s item: JavDB's exact match (`javdb`, with its metadata)
/// first, its listed cover fetched by `javdb_image`; then FANZA's exact match (`fanza`), whose
/// identity must agree with JavDB's, its cover fetched by `fanza_image`; then r18.dev's
/// document (`legacy`, read from the item's r18.dev URL), its exact cover fetched by
/// `legacy_image`. The first cover that passes the cover checks is taken; each later lookup is
/// made only when no cover was taken before it.
pub fn resolve_cover_from(
    authority: &LibraryItemAuthority,
    javdb: Result<Option<(ExactProviderItem, PresentationMetadata)>, ProviderRequestError>,
    javdb_image: impl FnOnce(&str) -> Result<Vec<u8>, ProviderRequestError>,
    fanza: impl FnOnce() -> Result<Option<ExactProviderItem>, ProviderRequestError>,
    fanza_image: impl FnOnce(&str) -> Result<Vec<u8>, ProviderRequestError>,
    legacy: impl FnOnce(&str) -> Result<LegacyDocument, ProviderRequestError>,
    legacy_image: impl FnOnce(&str) -> Result<Vec<u8>, ProviderRequestError>,
) -> (resolution: CoverResolution)
    requires
        javdb_image_asked(javdb) ==> forall|url: &str| url@ == javdb_cover_url(javdb) ==> call_requires(
            javdb_image,
            (url,),
        ),
        forall|t: CoverTrace|
            #[trigger] answered_javdb(javdb, javdb_image, t) && javdb_stage(javdb, t.javdb_image).done is None
                ==> call_requires(fanza, ()),
        forall|t: CoverTrace, url: &str|
            #![trigger answered_fanza(javdb, javdb_image, fanza, t), call_requires(fanza_image, (url,))]
            answered_fanza(javdb, javdb_image, fanza, t) && fanza_image_asked(
                javdb_stage(javdb, t.javdb_image),
                t.fanza,
            ) && url@ == fanza_cover_url(t.fanza) ==> call_requires(fanza_image, (url,)),
        forall|t: CoverTrace, url: &str|
            #![trigger answered_fanza_image(javdb, javdb_image, fanza, fanza_image, t), call_requires(legacy, (url,))]
            answered_fanza_image(javdb, javdb_image, fanza, fanza_image, t) && fanza_stage(
                javdb_stage(javdb, t.javdb_image),
                t.fanza,
                t.fanza_image,
            ).done is None && url@ == spec_legacy_url(authority.product_identity@) ==> call_requires(
                legacy,
                (url,),
            ),
        forall|t: CoverTrace, url: &str|
            #![trigger answered_legacy(*authority, javdb, javdb_image, fanza, fanza_image, legacy, t), call_requires(legacy_image, (url,))]
            answered_legacy(*authority, javdb, javdb_image, fanza, fanza_image, legacy, t)
                && legacy_image_asked(
                fanza_stage(javdb_stage(javdb, t.javdb_image), t.fanza, t.fanza_image),
                t.legacy,
            ) && url@ == legacy_cover_url(t.legacy) ==> call_requires(legacy_image, (url,)),
    ensures
        exists|t: CoverTrace|
            {
                let s1 = javdb_stage(javdb, t.javdb_image);
                let s2 = fanza_stage(s1, t.fanza, t.fanza_image);
                &&& javdb_image_asked(javdb) ==> exists|url: &str|
                    url@ == javdb_cover_url(javdb) && call_ensures(javdb_image, (url,), t.javdb_image)
                &&& s1.done is None ==> call_ensures(fanza, (), t.fanza)
                &&& fanza_image_asked(s1, t.fanza) ==> exists|url: &str|
                    url@ == fanza_cover_url(t.fanza) && call_ensures(fanza_image, (url,), t.fanza_image)
                &&& s2.done is None ==> exists|url: &str|
                    url@ == spec_legacy_url(authority.product_identity@) && call_ensures(
                        legacy,
                        (url,),
                        t.legacy,
                    )
                &&& legacy_image_asked(s2, t.legacy) ==> exists|url: &str|
                    url@ == legacy_cover_url(t.legacy) && call_ensures(
                        legacy_image,
                        (url,),
                        t.legacy_image,
                    )
                &&& resolution@ == #[trigger] spec_resolve_cover(*authority, javdb, t)
            },
{
    let ghost mut t = CoverTrace {
        javdb_image: Err(ProviderRequestError::Network),
        fanza: Err(ProviderRequestError::Network),
        fanza_image: Err(ProviderRequestError::Network),
        legacy: Err(ProviderRequestError::Network),
        legacy_image: Err(ProviderRequestError::Network),
    };
    let mut transient = false;
    let mut metadata: Option<PresentationMetadata> = None;
    let mut verified: Option<VerifiedDisplayIdentity> = None;
    let ghost javdb_in = javdb;
    match javdb {
        Ok(Some((item, meta))) => {
            verified = Some(identity_of(DisplayProvider::JavDb, &item));
            metadata = Some(meta);
            match item.cover_url {
                Some(url) => {
                    let fetched = javdb_image(url.as_str());
                    proof {
                        t.javdb_image = fetched;
                    }
                    match check_image(fetched) {
                        Some((bytes, width, height)) => {
                            let source = CoverSource {
                                provider: CoverProvider::JavDb,
                                provider_id: item.provider_id,
                                display_code: item.display_code,
                                url,
                                width,
                                height,
                            };
                            let resolution = CoverResolution {
                                cover: Some((source, bytes)),
                                metadata,
                                transient,
                            };
                            assert(resolution@ == spec_resolve_cover(*authority, javdb_in, t));
                            return resolution;
                        },
                        None => {
                            transient = true;
                        },
                    }
                },
                None => {},
            }
        },
        Ok(None) => {},
        Err(_) => {
            transient = true;
        },
    }
    let ghost s1 = javdb_stage(javdb_in, t.javdb_image);
    assert(s1 == ResolveState {
        done: None,
        verified,
        metadata: opt_metadata_view(metadata),
        transient,
    });
    assert(answered_javdb(javdb_in, javdb_image, t));
    let fanza_result = fanza();
    proof {
        t.fanza = fanza_result;
    }
    match fanza_result {
        Ok(Some(item)) => {
            let candidate = identity_of(DisplayProvider::Fanza, &item);
            match reconcile_verified_identities(verified, Some(candidate)) {
                Err(()) => {
                    let mut conflict = PresentationMetadata::default();
                    conflict.identity_conflict = true;
                    assert(conflict@ =~= MetadataView { identity_conflict: true, ..empty_metadata() });
                    let resolution = CoverResolution {
                        cover: None,
                        metadata: Some(conflict),
                        transient: true,
                    };
                    assert(resolution@ == spec_resolve_cover(*authority, javdb_in, t));
                    return resolution;
                },
                Ok(identity) => {
                    verified = identity;
                },
            }
            match &verified {
                Some(identity) => {
                    metadata = Some(attach_to(metadata, copy_identity(identity)));
                },
                None => {},
            }
            match item.cover_url {
                Some(url) => {
                    assert(answered_fanza(javdb_in, javdb_image, fanza, t));
                    let fetched = fanza_image(url.as_str());
                    proof {
                        t.fanza_image = fetched;
                    }
                    match check_image(fetched) {
                        Some((bytes, width, height)) => {
                            let source = CoverSource {
                                provider: CoverProvider::Fanza,
                                provider_id: item.provider_id,
                                display_code: item.display_code,
                                url,
                                width,
                                height,
                            };
                            let resolution = CoverResolution {
                                cover: Some((source, bytes)),
                                metadata,
                                transient,
                            };
                            assert(resolution@ == spec_resolve_cover(*authority, javdb_in, t));
                            return resolution;
                        },
                        None => {
                            transient = true;
                        },
                    }
                },
                None => {},
            }
        },
        Ok(None) => {},
        Err(_) => {
            transient = true;
        },
    }
    let ghost s2 = fanza_stage(s1, t.fanza, t.fanza_image);
    assert(s2 == ResolveState {
        done: None,
        verified,
        metadata: opt_metadata_view(metadata),
        transient,
    });
    assert(answered_fanza_image(javdb_in, javdb_image, fanza, fanza_image, t));
    let address = legacy_url(authority.product_identity.as_str());
    let document = legacy(address.as_str());
    proof {
        t.legacy = document;
    }
    match document {
        Ok(doc) => {
            if metadata.is_none() {
                metadata = doc.metadata;
            }
            match doc.cover_url {
                Ok(Some(url)) => {
                    assert(answered_legacy(*authority, javdb_in, javdb_image, fanza, fanza_image, legacy, t));
                    let fetched = legacy_image(url.as_str());
                    proof {
                        t.legacy_image = fetched;
                    }
                    match check_image(fetched) {
                        Some((bytes, width, height)) => {
                            let display_code = match &verified {
                                Some(identity) => identity.display_code.clone(),
                                None => authority.code.clone(),
                            };
                            let source = CoverSource {
                                provider: CoverProvider::R18Dev,
                                provider_id: authority.product_identity.clone(),
                                display_code,
                                url,
                                width,
                                height,
                            };
                            let resolution = CoverResolution {
                                cover: Some((source, bytes)),
                                metadata,
                                transient,
                            };
                            assert(resolution@ == spec_resolve_cover(*authority, javdb_in, t));
                            return resolution;
                        },
                        None => {
                            transient = true;
                        },
                    }
                },
                Ok(None) => {},
                Err(()) => {
                    transient = true;
                },
            }
        },
        Err(_) => {
            transient = true;
        },
    }
    match verified {
        Some(identity) => {
            metadata = Some(attach_to(metadata, identity));
        },
        None => {},
    }
    let resolution = CoverResolution { cover: None, metadata, transient };
    assert(resolution@ == spec_resolve_cover(*authority, javdb_in, t));
    resolution
}

} // verus!
