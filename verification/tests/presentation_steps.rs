use auto_video::presentation::{DisplayProvider, LibraryPresentationCategory, PresentationMetadata, VerifiedDisplayIdentity};
use auto_video::presentation_cache::{CachedCover, PresentationCacheEntry, COVER_TTL_SECONDS, METADATA_TTL_SECONDS};
use auto_video::presentation_context::{CoverProvider, CoverSource, LibraryItemAuthority};
use auto_video::presentation_resolve::CoverResolution;
use auto_video::presentation_steps::{
    cover_cache_step, cover_resolution_step, metadata_cache_step, metadata_resolution_step,
    CoverAnswerState, CoverCacheStep, CoverResolutionStep, MetadataCacheStep, MetadataResolutionStep,
};
use auto_video::provider::ProviderRequestError;

fn authority() -> LibraryItemAuthority {
    LibraryItemAuthority {
        category: LibraryPresentationCategory::Vr,
        identity: "a".repeat(40),
        code: "MDVR-419".to_owned(),
        product_identity: "MDVR-419".to_owned(),
    }
}

fn javdb(id: &str) -> VerifiedDisplayIdentity {
    VerifiedDisplayIdentity { provider: DisplayProvider::JavDb, provider_id: id.to_owned(), display_code: "MDVR-419".to_owned() }
}

fn entry(identity_saved_at: u64, cover_saved_at: u64, metadata_saved_at: u64) -> PresentationCacheEntry {
    PresentationCacheEntry {
        identity: "a".repeat(40),
        category: LibraryPresentationCategory::Vr,
        code: "MDVR-419".to_owned(),
        identity_saved_at,
        verified_identity: Some(javdb("abc")),
        cover_saved_at,
        cover: Some(CachedCover {
            provider: CoverProvider::JavDb,
            provider_id: "abc".to_owned(),
            display_code: "MDVR-419".to_owned(),
            url: "https://c0.jdbstatic.com/covers/ab/abc.jpg".to_owned(),
            ratio: "0.75".to_owned(),
        }),
        metadata_saved_at,
        metadata_ready: true,
        metadata: PresentationMetadata::default(),
    }
}

fn source(provider: CoverProvider, id: &str, code: &str) -> CoverSource {
    CoverSource {
        provider,
        provider_id: id.to_owned(),
        display_code: code.to_owned(),
        url: "https://example.com/c.jpg".to_owned(),
        width: 600,
        height: 800,
    }
}

#[test]
fn the_cache_answers_fresh_covers_and_keeps_fresh_identities() {
    let cache = vec![entry(100, 100, 100)];
    assert!(matches!(cover_cache_step(&cache, &authority(), 100 + COVER_TTL_SECONDS), CoverCacheStep::Cached(0)));
    match cover_cache_step(&cache, &authority(), 101 + COVER_TTL_SECONDS) {
        CoverCacheStep::Resolve(Some((saved, identity))) => {
            assert_eq!(saved, 100);
            assert_eq!(identity, javdb("abc"));
        }
        _ => panic!("an expired cover is resolved with the fresh identity"),
    }
    assert!(matches!(
        cover_cache_step(&cache, &authority(), 101 + METADATA_TTL_SECONDS),
        CoverCacheStep::Resolve(None)
    ));
    assert!(matches!(metadata_cache_step(&cache, &authority(), 100 + METADATA_TTL_SECONDS), MetadataCacheStep::Cached(0)));
    assert!(matches!(
        metadata_cache_step(&vec![entry(100, 100, 0)], &authority(), 200),
        MetadataCacheStep::Resolve(Some(_))
    ));
    assert!(matches!(metadata_cache_step(&Vec::new(), &authority(), 200), MetadataCacheStep::Resolve(None)));
}

#[test]
fn cover_resolutions_become_answers() {
    let ready = cover_resolution_step(
        CoverResolution { cover: Some((source(CoverProvider::JavDb, "abc", "MDVR-419"), vec![1])), metadata: None, transient: false },
        None,
        &authority(),
        50,
        true,
    );
    match ready {
        CoverResolutionStep::Answer { state, verified, identity_saved_at, keep, .. } => {
            assert_eq!(state, CoverAnswerState::Ready);
            assert_eq!(verified, Some(javdb("abc")));
            assert_eq!(identity_saved_at, 50);
            assert!(keep);
        }
        _ => panic!("a JavDB cover is ready"),
    }
    let mut conflicting = PresentationMetadata::default();
    conflicting.verified_identity = Some(javdb("other"));
    assert!(matches!(
        cover_resolution_step(
            CoverResolution { cover: Some((source(CoverProvider::JavDb, "abc", "MDVR-419"), vec![1])), metadata: Some(conflicting), transient: false },
            None,
            &authority(),
            50,
            true,
        ),
        CoverResolutionStep::Conflict
    ));
    match cover_resolution_step(CoverResolution { cover: None, metadata: None, transient: true }, Some((7, javdb("abc"))), &authority(), 50, true) {
        CoverResolutionStep::Answer { state, verified, identity_saved_at, keep, .. } => {
            assert_eq!(state, CoverAnswerState::Unavailable);
            assert_eq!(verified, Some(javdb("abc")));
            assert_eq!(identity_saved_at, 7);
            assert!(keep);
        }
        _ => panic!("an unreachable provider keeps the cached identity"),
    }
    match cover_resolution_step(CoverResolution { cover: None, metadata: None, transient: true }, None, &authority(), 50, true) {
        CoverResolutionStep::Answer { state, keep, .. } => {
            assert_eq!(state, CoverAnswerState::Unavailable);
            assert!(!keep);
        }
        _ => panic!("nothing known is not kept"),
    }
    let mut verified_metadata = PresentationMetadata::default();
    verified_metadata.verified_identity = Some(javdb("abc"));
    match cover_resolution_step(
        CoverResolution {
            cover: Some((source(CoverProvider::R18Dev, "mdvr419", "mdvr419"), vec![1])),
            metadata: Some(verified_metadata),
            transient: false,
        },
        None,
        &authority(),
        50,
        true,
    ) {
        CoverResolutionStep::Answer { state, cover, verified, seed, .. } => {
            assert_eq!(state, CoverAnswerState::Ready);
            assert_eq!(verified, Some(javdb("abc")));
            assert_eq!(cover.unwrap().0.display_code, "MDVR-419");
            assert_eq!(seed.unwrap().display_code.as_deref(), Some("MDVR-419"));
        }
        _ => panic!("an r18.dev cover shows the verified display code"),
    }
    assert!(matches!(
        cover_resolution_step(
            CoverResolution { cover: Some((source(CoverProvider::R18Dev, "x", "OTHER-1"), vec![1])), metadata: None, transient: false },
            None,
            &authority(),
            50,
            true,
        ),
        CoverResolutionStep::Inconsistent
    ));
}

#[test]
fn metadata_resolutions_become_answers() {
    assert!(matches!(metadata_resolution_step(Err(ProviderRequestError::Network), None), MetadataResolutionStep::Unavailable));
    match metadata_resolution_step(Ok(None), Some(javdb("abc"))) {
        MetadataResolutionStep::Answer { automatic, verified, metadata } => {
            assert!(!automatic);
            assert_eq!(verified, Some(javdb("abc")));
            assert_eq!(metadata.display_code.as_deref(), Some("MDVR-419"));
        }
        _ => panic!("no metadata is local-only"),
    }
    let mut found = PresentationMetadata::default();
    found.title = Some("Title".to_owned());
    found.verified_identity = Some(javdb("abc"));
    assert!(matches!(
        metadata_resolution_step(Ok(Some(found.clone())), Some(javdb("other"))),
        MetadataResolutionStep::Conflict
    ));
    match metadata_resolution_step(Ok(Some(found)), None) {
        MetadataResolutionStep::Answer { automatic, verified, .. } => {
            assert!(automatic);
            assert_eq!(verified, Some(javdb("abc")));
        }
        _ => panic!("found metadata is automatic"),
    }
}
