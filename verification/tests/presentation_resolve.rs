use auto_video::presentation::{
    DisplayProvider, LibraryPresentationCategory, PresentationMetadata, PRESENTATION_COVER_MIN_BYTES,
};
use auto_video::presentation_context::{CoverProvider, LibraryItemAuthority};
use auto_video::presentation_resolve::{resolve_cover_from, ExactProviderItem, LegacyDocument};
use auto_video::provider::ProviderRequestError;

fn jpeg(width: u16, height: u16) -> Vec<u8> {
    let mut bytes = vec![0xff, 0xd8, 0xff, 0xc0, 0, 17, 8];
    bytes.extend(height.to_be_bytes());
    bytes.extend(width.to_be_bytes());
    bytes.resize(PRESENTATION_COVER_MIN_BYTES, 0);
    bytes
}

fn authority() -> LibraryItemAuthority {
    LibraryItemAuthority {
        category: LibraryPresentationCategory::Adult,
        identity: "a".repeat(40),
        code: "CAWB-1".to_owned(),
        product_identity: "cawb00001".to_owned(),
    }
}

fn item(id: &str, display: &str, cover: Option<&str>) -> ExactProviderItem {
    ExactProviderItem {
        provider_id: id.to_owned(),
        display_code: display.to_owned(),
        cover_url: cover.map(str::to_owned),
    }
}

fn javdb_metadata() -> PresentationMetadata {
    let mut metadata = PresentationMetadata::default();
    metadata.source = Some("JavDB".to_owned());
    metadata.provider_id = Some("abc".to_owned());
    metadata.display_code = Some("CAWB-001".to_owned());
    metadata.title = Some("Title".to_owned());
    metadata
}

#[test]
fn javdb_cover_is_taken_first_and_nothing_else_is_asked() {
    let resolution = resolve_cover_from(
        &authority(),
        Ok(Some((item("abc", "CAWB-001", Some("https://javdb/cover.jpg")), javdb_metadata()))),
        |url| {
            assert_eq!(url, "https://javdb/cover.jpg");
            Ok(jpeg(800, 538))
        },
        || panic!("FANZA must not run after JavDB succeeds"),
        |_| panic!("no FANZA image"),
        |_| panic!("legacy must not run"),
        |_| panic!("no legacy image"),
    );
    let (source, bytes) = resolution.cover.expect("JavDB cover");
    assert_eq!(source.provider, CoverProvider::JavDb);
    assert_eq!(source.provider_id, "abc");
    assert_eq!(source.display_code, "CAWB-001");
    assert_eq!((source.width, source.height), (800, 538));
    assert_eq!(bytes, jpeg(800, 538));
    assert_eq!(resolution.metadata.unwrap().title.as_deref(), Some("Title"));
    assert!(!resolution.transient);
}

#[test]
fn failed_javdb_image_falls_through_to_fanza_keeping_javdb_identity() {
    let resolution = resolve_cover_from(
        &authority(),
        Ok(Some((item("abc", "CAWB-001", Some("https://javdb/cover.jpg")), javdb_metadata()))),
        |_| Err(ProviderRequestError::Network),
        || Ok(Some(item("cawb00001", "CAWB-001", Some("https://fanza/cover.jpg")))),
        |url| {
            assert_eq!(url, "https://fanza/cover.jpg");
            Ok(jpeg(600, 800))
        },
        |_| panic!("legacy must not run after FANZA succeeds"),
        |_| panic!("no legacy image"),
    );
    let (source, _) = resolution.cover.expect("FANZA cover");
    assert_eq!(source.provider, CoverProvider::Fanza);
    assert_eq!(source.provider_id, "cawb00001");
    let metadata = resolution.metadata.unwrap();
    let identity = metadata.verified_identity.unwrap();
    assert_eq!(identity.provider, DisplayProvider::JavDb);
    assert_eq!(identity.provider_id, "abc");
    assert_eq!(metadata.display_code.as_deref(), Some("CAWB-001"));
    assert!(resolution.transient);
}

#[test]
fn disagreeing_providers_are_a_conflict() {
    let resolution = resolve_cover_from(
        &authority(),
        Ok(Some((item("abc", "CAWB-001", None), javdb_metadata()))),
        |_| panic!("no JavDB cover is listed"),
        || Ok(Some(item("cawb00002", "CAWB-002", Some("https://fanza/cover.jpg")))),
        |_| panic!("a conflict fetches nothing"),
        |_| panic!("a conflict ends the resolution"),
        |_| panic!("no legacy image"),
    );
    assert!(resolution.cover.is_none());
    assert!(resolution.metadata.unwrap().identity_conflict);
    assert!(resolution.transient);
}

#[test]
fn legacy_cover_shows_the_verified_display_code_or_the_item_code() {
    let legacy_cover = |code: &str, fanza: Option<ExactProviderItem>| {
        let code = code.to_owned();
        resolve_cover_from(
            &LibraryItemAuthority { code, ..authority() },
            Ok(None),
            |_| panic!("no JavDB match"),
            move || Ok(fanza),
            |_| panic!("no FANZA cover"),
            |url| {
                assert_eq!(url, "https://r18.dev/videos/vod/movies/detail/-/dvd_id=cawb00001/json");
                Ok(LegacyDocument {
                    metadata: None,
                    cover_url: Ok(Some("https://pics.dmm.co.jp/cawb00001pl.jpg".to_owned())),
                })
            },
            |_| Ok(jpeg(800, 538)),
        )
    };
    let unverified = legacy_cover("CAWB-1", None);
    let (source, _) = unverified.cover.unwrap();
    assert_eq!(source.provider, CoverProvider::R18Dev);
    assert_eq!(source.provider_id, "cawb00001");
    assert_eq!(source.display_code, "CAWB-1");
    assert!(unverified.metadata.is_none());
    let verified = legacy_cover("CAWB-1", Some(item("cawb00001", "CAWB-001", None)));
    assert_eq!(verified.cover.unwrap().0.display_code, "CAWB-001");
    assert_eq!(verified.metadata.unwrap().display_code.as_deref(), Some("CAWB-001"));
}

#[test]
fn no_cover_keeps_the_identity_and_reports_transient_failures() {
    let resolution = resolve_cover_from(
        &authority(),
        Err(ProviderRequestError::SourceUnavailable),
        |_| panic!("no JavDB match"),
        || Ok(Some(item("cawb00001", "CAWB-001", Some("https://fanza/cover.jpg")))),
        |_| Ok(vec![0; 16]),
        |_| {
            Ok(LegacyDocument {
                metadata: None,
                cover_url: Err(()),
            })
        },
        |_| panic!("a malformed legacy cover is not fetched"),
    );
    assert!(resolution.cover.is_none());
    let metadata = resolution.metadata.unwrap();
    assert_eq!(metadata.verified_identity.unwrap().provider, DisplayProvider::Fanza);
    assert_eq!(metadata.display_code.as_deref(), Some("CAWB-001"));
    assert!(resolution.transient);

    let quiet = resolve_cover_from(
        &authority(),
        Ok(None),
        |_| panic!("no JavDB match"),
        || Ok(None),
        |_| panic!("no FANZA match"),
        |_| Ok(LegacyDocument { metadata: None, cover_url: Ok(None) }),
        |_| panic!("no legacy cover"),
    );
    assert!(quiet.cover.is_none());
    assert!(quiet.metadata.is_none());
    assert!(!quiet.transient);
}
