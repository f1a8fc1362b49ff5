use auto_video::presentation::{
    attach_verified_identity, cover_image_dimensions, html_title, javdatabase_url, legacy_url,
    metadata_identity_consistent, parse_http_response, reconcile_verified_identities,
    resolve_metadata_from, valid_date,
    valid_legacy_cover_url, validate_presentation_cover, DisplayProvider,
    LibraryPresentationCategory, PresentationMetadata, VerifiedDisplayIdentity,
    PRESENTATION_COVER_MIN_BYTES,
};
use auto_video::provider::ProviderRequestError;

fn jpeg(width: u16, height: u16) -> Vec<u8> {
    let mut bytes = vec![0xff, 0xd8, 0xff, 0xc0, 0, 17, 8];
    bytes.extend(height.to_be_bytes());
    bytes.extend(width.to_be_bytes());
    bytes.resize(PRESENTATION_COVER_MIN_BYTES, 0);
    bytes
}

fn identity(provider: DisplayProvider, provider_id: &str, display_code: &str) -> VerifiedDisplayIdentity {
    VerifiedDisplayIdentity {
        provider,
        provider_id: provider_id.to_owned(),
        display_code: display_code.to_owned(),
    }
}

fn validate_cover(bytes: Vec<u8>) -> Result<(Vec<u8>, u32, u32), ProviderRequestError> {
    validate_presentation_cover(bytes)
}

#[test]
fn cover_validation_rejects_placeholder_undersized_and_non_raster_bytes() {
    assert!(validate_cover(jpeg(590, 800)).is_err());
    assert!(validate_cover(vec![0xff, 0xd8, 0xff]).is_err());
    assert!(validate_cover(vec![1; PRESENTATION_COVER_MIN_BYTES]).is_err());
}

#[test]
fn valid_cover_keeps_bytes_and_reports_dimensions() {
    let bytes = jpeg(600, 800);
    let (kept, width, height) = validate_cover(bytes.clone()).unwrap();
    assert_eq!(kept, bytes);
    assert_eq!((width, height), (600, 800));
    assert_eq!(validate_cover(jpeg(1600, 900)).unwrap().1, 1600);
    assert!(validate_cover(jpeg(3201, 800)).is_err());
    assert!(validate_cover(jpeg(3200, 800)).is_ok());
    assert!(validate_cover(jpeg(0, 800)).is_err());
}

#[test]
fn image_dimensions_walk_jpeg_segments_and_read_png_and_webp() {
    let mut walked = vec![0xff, 0xd8, 0xff, 0xe0, 0, 4, 0, 0, 0xff, 0xc2, 0, 17, 8, 1, 0x2c, 2, 0x58];
    walked.resize(40, 0);
    assert_eq!(cover_image_dimensions(&walked), Some((600, 300)));
    let mut huffman = vec![0xff, 0xd8, 0xff, 0xc4, 0, 2, 0xff, 0xc0, 0, 17, 8, 0, 10, 0, 20];
    huffman.resize(40, 0);
    assert_eq!(cover_image_dimensions(&huffman), Some((20, 10)));
    let mut broken = vec![0xff, 0xd8, 0xff, 0xe0, 0, 1];
    broken.resize(40, 0);
    assert_eq!(cover_image_dimensions(&broken), None);

    let mut png = vec![0x89, b'P', b'N', b'G', 0x0d, 0x0a, 0x1a, 0x0a];
    png.resize(16, 0);
    png.extend(640u32.to_be_bytes());
    png.extend(480u32.to_be_bytes());
    assert_eq!(cover_image_dimensions(&png), Some((640, 480)));

    let mut vp8x = b"RIFF\0\0\0\0WEBPVP8X".to_vec();
    vp8x.resize(24, 0);
    vp8x.extend([0x1f, 0x03, 0x00, 0xdf, 0x01, 0x00]);
    assert_eq!(cover_image_dimensions(&vp8x), Some((800, 480)));

    let mut vp8 = b"RIFF\0\0\0\0WEBPVP8 ".to_vec();
    vp8.resize(26, 0);
    vp8.extend([0x20, 0x43, 0xe0, 0x01]);
    assert_eq!(cover_image_dimensions(&vp8), Some((800, 480)));

    let mut vp8l = b"RIFF\0\0\0\0WEBPVP8L".to_vec();
    vp8l.resize(21, 0);
    let bits: u32 = 799 | (479 << 14);
    vp8l.extend(bits.to_le_bytes());
    assert_eq!(cover_image_dimensions(&vp8l), Some((800, 480)));

    assert_eq!(cover_image_dimensions(&[0xff, 0xd8, 0xff, 0xc0]), None);
    assert_eq!(cover_image_dimensions(&[0u8; 64]), None);
}

#[test]
fn presentation_category_reads_and_writes_its_name() {
    assert_eq!(LibraryPresentationCategory::parse("adult"), Some(LibraryPresentationCategory::Adult));
    assert_eq!(LibraryPresentationCategory::parse("vr"), Some(LibraryPresentationCategory::Vr));
    assert_eq!(LibraryPresentationCategory::parse("VR"), None);
    assert_eq!(LibraryPresentationCategory::Vr.value(), "vr");
    assert_eq!(LibraryPresentationCategory::Adult.value(), "adult");
}

#[test]
fn release_dates_need_the_iso_shape() {
    assert!(valid_date("2024-01-31"));
    assert!(valid_date("2024-99-99"));
    assert!(!valid_date("2024/01/31"));
    assert!(!valid_date("24-01-31"));
    assert!(!valid_date("2024-01-3a"));
    assert!(!valid_date("２０２４-01-31"));
}

#[test]
fn html_title_is_found_without_regard_to_tag_case() {
    assert_eq!(
        html_title("<html><TITLE>  Movie - Cast - JAV Database \n</Title></html>").as_deref(),
        Some("Movie - Cast - JAV Database")
    );
    assert_eq!(html_title("<title>作品</title>").as_deref(), Some("作品"));
    assert_eq!(html_title("<title>open only"), None);
    assert_eq!(html_title("no title"), None);
    assert_eq!(html_title("</title><title></title>").as_deref(), Some(""));
}

#[test]
fn provider_urls_are_built_from_the_code() {
    assert_eq!(javdatabase_url("ADLT-123"), "https://www.javdatabase.com/movies/adlt-123/");
    assert_eq!(
        legacy_url("adlt00123"),
        "https://r18.dev/videos/vod/movies/detail/-/dvd_id=adlt00123/json"
    );
}

#[test]
fn legacy_cover_urls_must_be_plain_dmm_images() {
    assert!(valid_legacy_cover_url("https://pics.dmm.co.jp/digital/video/adlt00123/adlt00123pl.jpg"));
    assert!(!valid_legacy_cover_url("https://pics.dmm.co.jp/"));
    assert!(!valid_legacy_cover_url("http://pics.dmm.co.jp/a.jpg"));
    assert!(!valid_legacy_cover_url("https://pics.dmm.co.jp/a.jpg?x=1"));
    assert!(!valid_legacy_cover_url("https://pics.dmm.co.jp/a b.jpg"));
    assert!(!valid_legacy_cover_url("https://pics.dmm.co.jp/a\\b.jpg"));
    assert!(!valid_legacy_cover_url("https://pics.dmm.co.jp/user@host"));
    assert!(!valid_legacy_cover_url("https://pics.dmm.co.jp.evil/a.jpg"));
}

#[test]
fn verified_identities_reconcile_toward_javdb() {
    let javdb = identity(DisplayProvider::JavDb, "abc", "CAWB-001");
    let fanza = identity(DisplayProvider::Fanza, "cawb00001", "CAWB-001");
    assert_eq!(reconcile_verified_identities(None, None), Ok(None));
    assert_eq!(reconcile_verified_identities(Some(fanza.clone()), None), Ok(Some(fanza.clone())));
    assert_eq!(reconcile_verified_identities(None, Some(javdb.clone())), Ok(Some(javdb.clone())));
    assert_eq!(
        reconcile_verified_identities(Some(fanza.clone()), Some(javdb.clone())),
        Ok(Some(javdb.clone()))
    );
    assert_eq!(
        reconcile_verified_identities(Some(javdb.clone()), Some(fanza.clone())),
        Ok(Some(javdb.clone()))
    );
    assert_eq!(
        reconcile_verified_identities(Some(javdb.clone()), Some(javdb.clone())),
        Ok(Some(javdb.clone()))
    );
    let other_javdb = identity(DisplayProvider::JavDb, "xyz", "CAWB-001");
    assert_eq!(reconcile_verified_identities(Some(javdb.clone()), Some(other_javdb)), Err(()));
    let other_code = identity(DisplayProvider::Fanza, "cawb00001", "CAWB-002");
    assert_eq!(reconcile_verified_identities(Some(javdb), Some(other_code)), Err(()));
}

#[test]
fn metadata_must_agree_with_the_verified_identity() {
    let javdb = identity(DisplayProvider::JavDb, "abc", "CAWB-001");
    let mut metadata = PresentationMetadata::default();
    metadata.source = Some("JavDB + r18.dev".to_owned());
    metadata.provider_id = Some("abc".to_owned());
    metadata.display_code = Some("CAWB-001".to_owned());
    assert!(metadata_identity_consistent(&metadata, Some(&javdb), "CAWB-1"));
    assert!(!metadata_identity_consistent(&metadata, None, "CAWB-001"));
    metadata.provider_id = Some("other".to_owned());
    assert!(!metadata_identity_consistent(&metadata, Some(&javdb), "CAWB-1"));

    let mut legacy = PresentationMetadata::default();
    legacy.source = Some("r18.dev".to_owned());
    legacy.display_code = Some("CAWB-1".to_owned());
    assert!(metadata_identity_consistent(&legacy, None, "CAWB-1"));
    assert!(!metadata_identity_consistent(&legacy, Some(&javdb), "CAWB-1"));
    legacy.identity_conflict = true;
    assert!(!metadata_identity_consistent(&legacy, None, "CAWB-1"));

    let mut held = PresentationMetadata::default();
    held.verified_identity = Some(javdb.clone());
    held.display_code = Some("CAWB-001".to_owned());
    assert!(metadata_identity_consistent(&held, Some(&javdb), "CAWB-1"));
    assert!(!metadata_identity_consistent(&held, None, "CAWB-001"));
}

#[test]
fn attaching_an_identity_sets_the_display_code() {
    let mut metadata = PresentationMetadata::default();
    metadata.title = Some("Title".to_owned());
    metadata.display_code = Some("CAWB-1".to_owned());
    attach_verified_identity(&mut metadata, Some(identity(DisplayProvider::Fanza, "id", "CAWB-001")));
    assert_eq!(metadata.display_code.as_deref(), Some("CAWB-001"));
    assert_eq!(metadata.verified_identity.as_ref().map(|i| i.provider_id.as_str()), Some("id"));
    assert_eq!(metadata.title.as_deref(), Some("Title"));
    attach_verified_identity(&mut metadata, None);
    assert!(metadata.verified_identity.is_none());
    assert_eq!(metadata.display_code.as_deref(), Some("CAWB-001"));
}

#[test]
fn metadata_readiness_needs_provider_fields_and_content() {
    let mut metadata = PresentationMetadata::default();
    assert!(!metadata.is_ready());
    metadata.source = Some("r18.dev".to_owned());
    metadata.provider_id = Some("adlt00123".to_owned());
    metadata.display_code = Some("ADLT-123".to_owned());
    assert!(metadata.has_provider_fields());
    assert!(!metadata.is_ready());
    metadata.cast.push("Alice".to_owned());
    assert!(metadata.has_descriptive_fields());
    assert!(metadata.is_ready());
    metadata.cast.clear();
    metadata.verified_identity = Some(identity(DisplayProvider::JavDb, "a", "ADLT-123"));
    assert!(metadata.is_ready());
}

#[test]
fn http_responses_are_split_at_the_last_status_marker() {
    let ok = b"body\nAUTO_VIDEO_HTTP_STATUS:\nAUTO_VIDEO_HTTP_STATUS: 204 \n";
    assert_eq!(
        parse_http_response(ok, 1024),
        Ok(b"body\nAUTO_VIDEO_HTTP_STATUS:".to_vec())
    );
    assert_eq!(
        parse_http_response(b"body\nAUTO_VIDEO_HTTP_STATUS:200", 4),
        Ok(b"body".to_vec())
    );
    assert_eq!(
        parse_http_response(b"body\nAUTO_VIDEO_HTTP_STATUS:200", 3),
        Err(ProviderRequestError::Provider)
    );
    assert_eq!(
        parse_http_response(b"\nAUTO_VIDEO_HTTP_STATUS:200", 3),
        Err(ProviderRequestError::Provider)
    );
    for gone in ["404", "410", "451"] {
        let output = format!("x\nAUTO_VIDEO_HTTP_STATUS:{gone}");
        assert_eq!(
            parse_http_response(output.as_bytes(), 10),
            Err(ProviderRequestError::SourceUnavailable)
        );
    }
    assert_eq!(
        parse_http_response(b"x\nAUTO_VIDEO_HTTP_STATUS:000", 10),
        Err(ProviderRequestError::Network)
    );
    assert_eq!(
        parse_http_response(b"x\nAUTO_VIDEO_HTTP_STATUS:302", 10),
        Err(ProviderRequestError::Provider)
    );
    assert_eq!(parse_http_response(b"no marker", 10), Err(ProviderRequestError::Provider));
    assert_eq!(
        parse_http_response(b"x\nAUTO_VIDEO_HTTP_STATUS:abc", 10),
        Err(ProviderRequestError::Provider)
    );
}

fn ready(source: &str, title: Option<&str>, cast: &[&str]) -> PresentationMetadata {
    let mut metadata = PresentationMetadata::default();
    metadata.source = Some(source.to_owned());
    metadata.provider_id = Some("id".to_owned());
    metadata.display_code = Some("ADLT-123".to_owned());
    metadata.title = title.map(str::to_owned);
    metadata.cast = cast.iter().map(|c| c.to_string()).collect();
    metadata
}

#[test]
fn metadata_merges_javdb_with_legacy_and_looks_up_a_missing_cast() {
    let mut legacy = ready("r18.dev", Some("Legacy title"), &["Legacy cast"]);
    legacy.date = Some("2024-01-31".to_owned());
    let merged = resolve_metadata_from(
        "ADLT-123",
        "adlt00123",
        Ok(Some(ready("JavDB", Some("JavDB title"), &[]))),
        Ok(Some(legacy.clone())),
        || panic!("the legacy cast fills the cast"),
    )
    .unwrap()
    .unwrap();
    assert_eq!(merged.source.as_deref(), Some("JavDB + r18.dev"));
    assert_eq!(merged.title.as_deref(), Some("JavDB title"));
    assert_eq!(merged.date.as_deref(), Some("2024-01-31"));
    assert_eq!(merged.cast, vec!["Legacy cast".to_owned()]);

    let with_cast = resolve_metadata_from(
        "ADLT-123",
        "adlt00123",
        Ok(Some(ready("JavDB", Some("JavDB title"), &[]))),
        Err(ProviderRequestError::SourceUnavailable),
        || Ok(Some("Alice Example".to_owned())),
    )
    .unwrap()
    .unwrap();
    assert_eq!(with_cast.source.as_deref(), Some("JavDB + JavDatabase"));
    assert_eq!(with_cast.cast, vec!["Alice Example".to_owned()]);

    let cast_only = resolve_metadata_from(
        "ADLT-123",
        "adlt00123",
        Ok(None),
        Ok(None),
        || Ok(Some("Alice Example".to_owned())),
    )
    .unwrap()
    .unwrap();
    assert_eq!(cast_only.source.as_deref(), Some("JavDatabase"));
    assert_eq!(cast_only.provider_id.as_deref(), Some("adlt00123"));
    assert_eq!(cast_only.display_code.as_deref(), Some("ADLT-123"));
    assert_eq!(cast_only.cast, vec!["Alice Example".to_owned()]);
    assert!(cast_only.title.is_none());
}

#[test]
fn metadata_failures_are_transient_unless_the_source_is_gone() {
    assert_eq!(
        resolve_metadata_from("ADLT-123", "adlt00123", Ok(None), Ok(None), || Ok(None)),
        Ok(None)
    );
    assert_eq!(
        resolve_metadata_from(
            "ADLT-123",
            "adlt00123",
            Err(ProviderRequestError::SourceUnavailable),
            Err(ProviderRequestError::SourceUnavailable),
            || Err(ProviderRequestError::SourceUnavailable)
        ),
        Ok(None)
    );
    assert_eq!(
        resolve_metadata_from(
            "ADLT-123",
            "adlt00123",
            Err(ProviderRequestError::Network),
            Ok(None),
            || Ok(None)
        ),
        Err(ProviderRequestError::Network)
    );
    assert_eq!(
        resolve_metadata_from("ADLT-123", "adlt00123", Ok(None), Ok(None), || Err(
            ProviderRequestError::Provider
        )),
        Err(ProviderRequestError::Network)
    );
    let unready = ready("JavDB", None, &[]);
    let legacy = ready("r18.dev", Some("Legacy"), &["Cast"]);
    let resolved = resolve_metadata_from(
        "ADLT-123",
        "adlt00123",
        Ok(Some(unready)),
        Ok(Some(legacy.clone())),
        || panic!("cast is held"),
    );
    assert_eq!(resolved, Ok(Some(legacy)));
    let transient_but_found = resolve_metadata_from(
        "ADLT-123",
        "adlt00123",
        Err(ProviderRequestError::Network),
        Ok(Some(ready("r18.dev", Some("Legacy"), &["Cast"]))),
        || panic!("cast is held"),
    );
    assert!(matches!(transient_but_found, Ok(Some(_))));
}

#[test]
fn metadata_response_lists_identity_fields_and_cast() {
    let mut metadata = PresentationMetadata::default();
    metadata.source = Some("JavDB".to_owned());
    metadata.title = Some("Title".to_owned());
    metadata.cast = vec!["Alice".to_owned(), "Bob".to_owned()];
    let identity = identity(DisplayProvider::JavDb, "abc", "ADLT-123");
    let response = auto_video::presentation::metadata_response(
        LibraryPresentationCategory::Adult,
        "automatic",
        &metadata,
        Some(&identity),
        false,
    );
    assert_eq!(
        response,
        vec![
            "library-metadata-v3", "adult", "automatic", "current", "JavDB", "abc", "ADLT-123",
            "JavDB", "", "", "Title", "", "", "2", "Alice", "Bob",
        ]
    );
    let conflict = auto_video::presentation::metadata_response(
        LibraryPresentationCategory::Vr,
        "unavailable",
        &PresentationMetadata::default(),
        None,
        true,
    );
    assert_eq!(
        conflict,
        vec!["library-metadata-v3", "vr", "unavailable", "conflict", "", "", "", "", "", "", "", "", "", "0"]
    );
}
