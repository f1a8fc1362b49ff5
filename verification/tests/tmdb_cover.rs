use std::cell::RefCell;

use auto_video::provider::ProviderRequestError;
use auto_video::tmdb_cover::{
    authority_id, cache_file_name_of, cancel_request, confirm_cover, fetch_cover, finish_cover,
    image_dimensions, invalidate_cover, missing_response, parse_transport_response,
    pending_fields, prepare_cover, request_is_current, tmdb_poster_url, valid_library_item_id,
    validate_cover, CoverBytes, TmdbCoverCategory, TmdbCoverContext, TmdbCoverRequest,
    TmdbCoverSurface, COVER_MAX_BYTES, MAX_CURRENT_REQUESTS, TMDB_COVER_FAILED, TMDB_COVER_STALE,
};

fn request(category: TmdbCoverCategory, surface: TmdbCoverSurface) -> TmdbCoverRequest {
    TmdbCoverRequest {
        category,
        surface,
        tmdb_id: 701,
        poster_path: Some("/exact-poster.jpg".to_owned()),
        context_generation: 4,
        request_generation: 9,
        library_item_id: if surface == TmdbCoverSurface::Library { Some("a".repeat(40)) } else { None },
        association_generation: if surface == TmdbCoverSurface::Library { Some(3) } else { None },
        scan_generation: if surface == TmdbCoverSurface::Library { Some(4) } else { None },
    }
}

fn jpeg() -> Vec<u8> {
    let mut bytes = vec![0xff, 0xd8, 0xff, 0xc0, 0, 17, 8];
    bytes.extend(750_u16.to_be_bytes());
    bytes.extend(500_u16.to_be_bytes());
    bytes.resize(6_000, 0);
    bytes
}

#[test]
fn raster_and_transport_validation_rejects_unsafe_or_unbounded_results() {
    assert!(tmdb_poster_url("/poster.webp").is_some());
    for path in [
        "poster.jpg",
        "//evil.example/a.jpg",
        "/../a.jpg",
        "/a.jpg?token=secret",
        "/a\\b.jpg",
        "/a.jpg ",
        "/a.svg",
    ] {
        assert!(tmdb_poster_url(path).is_none(), "{path}");
    }
    assert_eq!(validate_cover(b"<html>no</html>".to_vec()), Err(ProviderRequestError::Provider));
    let mut invalid_dimensions = jpeg();
    invalid_dimensions[5] = 0;
    invalid_dimensions[6] = 0;
    assert_eq!(validate_cover(invalid_dimensions), Err(ProviderRequestError::Provider));
    assert_eq!(validate_cover(vec![0; COVER_MAX_BYTES + 1]), Err(ProviderRequestError::Provider));
    assert_eq!(
        parse_transport_response(b"redirect\nAUTO_VIDEO_HTTP_STATUS:302", true),
        Err(ProviderRequestError::Provider)
    );
    assert_eq!(
        parse_transport_response(b"body\nAUTO_VIDEO_HTTP_STATUS:200", false),
        Err(ProviderRequestError::Network)
    );
}

#[test]
fn poster_urls_are_the_image_base_and_the_exact_path() {
    assert_eq!(
        tmdb_poster_url("/abc-DEF_1.JPEG").as_deref(),
        Some("https://image.tmdb.org/t/p/w500/abc-DEF_1.JPEG")
    );
    assert!(tmdb_poster_url("/a.png").is_some());
    assert!(tmdb_poster_url("/").is_none());
    assert!(tmdb_poster_url("/a..b.jpg").is_none());
    assert!(tmdb_poster_url("/é.jpg").is_none());
}

#[test]
fn reads_jpeg_png_and_webp_dimensions() {
    assert_eq!(image_dimensions(&jpeg()), Some((500, 750)));
    let mut png = b"\x89PNG\r\n\x1a\n".to_vec();
    png.extend([0, 0, 0, 13, b'I', b'H', b'D', b'R']);
    png.extend(300_u32.to_be_bytes());
    png.extend(450_u32.to_be_bytes());
    assert_eq!(image_dimensions(&png), Some((300, 450)));
    let mut extended = b"RIFF\0\0\0\0WEBPVP8X".to_vec();
    extended.resize(24, 0);
    extended.extend([0x2b, 0x01, 0x00, 0xc1, 0x01, 0x00]);
    assert_eq!(image_dimensions(&extended), Some((300, 450)));
    let mut lossless = b"RIFF\0\0\0\0WEBPVP8L".to_vec();
    lossless.resize(21, 0);
    let bits: u32 = 299 | (449 << 14);
    lossless.extend(bits.to_le_bytes());
    assert_eq!(image_dimensions(&lossless), Some((300, 450)));
    assert_eq!(image_dimensions(b"GIF89a"), None);
    let (bytes, width, height) = validate_cover(jpeg()).unwrap();
    assert_eq!((bytes.len(), width, height), (6_000, 500, 750));
    let mut wide = jpeg();
    wide[9] = 0x0b;
    wide[10] = 0xb9;
    assert_eq!(validate_cover(wide), Err(ProviderRequestError::Provider));
}

#[test]
fn transport_takes_the_body_before_the_last_status_marker() {
    assert_eq!(
        parse_transport_response(b"a\nAUTO_VIDEO_HTTP_STATUS:200b\nAUTO_VIDEO_HTTP_STATUS:200", true),
        Ok(b"a\nAUTO_VIDEO_HTTP_STATUS:200b".to_vec())
    );
    assert_eq!(
        parse_transport_response(b"gone\nAUTO_VIDEO_HTTP_STATUS:404", true),
        Err(ProviderRequestError::SourceUnavailable)
    );
    assert_eq!(
        parse_transport_response(b"body\nAUTO_VIDEO_HTTP_STATUS: 200", true),
        Err(ProviderRequestError::Provider)
    );
    assert_eq!(parse_transport_response(b"no marker", true), Err(ProviderRequestError::Provider));
    assert_eq!(
        parse_transport_response(b"x\nAUTO_VIDEO_HTTP_STATUS:+200", true),
        Ok(b"x".to_vec())
    );
}

#[test]
fn requests_validate_their_surface_fields() {
    assert!(request(TmdbCoverCategory::Movie, TmdbCoverSurface::Discover).validate());
    assert!(request(TmdbCoverCategory::Tv, TmdbCoverSurface::Library).validate());
    let mut missing_item = request(TmdbCoverCategory::Tv, TmdbCoverSurface::Library);
    missing_item.library_item_id = None;
    assert!(!missing_item.validate());
    let mut discover_with_item = request(TmdbCoverCategory::Movie, TmdbCoverSurface::Discover);
    discover_with_item.scan_generation = Some(1);
    assert!(!discover_with_item.validate());
    let mut zero = request(TmdbCoverCategory::Movie, TmdbCoverSurface::Discover);
    zero.tmdb_id = 0;
    assert!(!zero.validate());
    assert!(valid_library_item_id(&"0f".repeat(20)));
    assert!(!valid_library_item_id(&"0F".repeat(20)));
    assert_eq!(TmdbCoverCategory::parse("tv"), Some(TmdbCoverCategory::Tv));
    assert_eq!(TmdbCoverSurface::parse("Library"), None);
}

#[test]
fn current_requests_fetch_their_cover_until_superseded_or_cancelled() {
    let mut context = TmdbCoverContext::new();
    let first = request(TmdbCoverCategory::Movie, TmdbCoverSurface::Discover);
    let url = prepare_cover(&mut context, &first).unwrap().unwrap();
    assert_eq!(url, "https://image.tmdb.org/t/p/w500/exact-poster.jpg");
    let (id, width, height) =
        finish_cover(&mut context, &first, url.clone(), CoverBytes::Fetched(Ok(jpeg())), true).unwrap();
    assert_eq!(id, authority_id(&first, &url));
    assert!(id.starts_with("tmdb-cover-"));
    assert_eq!((width, height), (500, 750));
    assert_eq!(fetch_cover(&context, &first, &id), Ok(jpeg()));
    assert_eq!(fetch_cover(&context, &first, "tmdb-cover-other"), Err(TMDB_COVER_STALE));
    let fields = pending_fields(&first, &id);
    assert_eq!(fields[..5], ["tmdb-card-cover-v1", "pending", "movie", "discover", "701"]);
    assert_eq!(fields[11], id);

    let mut newer = first.clone();
    newer.request_generation = 10;
    prepare_cover(&mut context, &newer).unwrap();
    assert!(!request_is_current(&context, &first));
    assert_eq!(fetch_cover(&context, &first, &id), Err(TMDB_COVER_STALE));
    assert_eq!(fetch_cover(&context, &newer, &id), Err(TMDB_COVER_STALE));
    cancel_request(&mut context, &newer);
    assert!(!request_is_current(&context, &newer));
    assert_eq!(
        finish_cover(&mut context, &newer, url, CoverBytes::Fetched(Ok(jpeg())), true),
        Err(TMDB_COVER_STALE)
    );
}

#[test]
fn failed_fetches_and_unwanted_covers_are_not_kept() {
    let mut context = TmdbCoverContext::new();
    let r = request(TmdbCoverCategory::Tv, TmdbCoverSurface::Library);
    let url = prepare_cover(&mut context, &r).unwrap().unwrap();
    assert_eq!(
        finish_cover(&mut context, &r, url.clone(), CoverBytes::Fetched(Err(ProviderRequestError::Network)), true),
        Err(TMDB_COVER_FAILED)
    );
    assert_eq!(
        finish_cover(&mut context, &r, url.clone(), CoverBytes::Fetched(Ok(b"tiny".to_vec())), true),
        Err(TMDB_COVER_FAILED)
    );
    assert_eq!(
        finish_cover(&mut context, &r, url, CoverBytes::Fetched(Ok(jpeg())), false),
        Err(TMDB_COVER_STALE)
    );
    assert!(context.authorities.is_empty());
    let mut no_poster = r.clone();
    no_poster.poster_path = None;
    assert_eq!(prepare_cover(&mut context, &no_poster), Ok(None));
    let missing = missing_response(&no_poster);
    assert_eq!(missing[1], "missing");
    assert_eq!(missing[12], "0.6666666666666666");
    assert_eq!(missing.len(), 14);
    let mut malformed = r.clone();
    malformed.poster_path = Some("poster.jpg".to_owned());
    assert_eq!(prepare_cover(&mut context, &malformed), Err(TMDB_COVER_STALE));
}

#[test]
fn confirmation_writes_once_and_invalidation_removes_the_cache_file() {
    let mut context = TmdbCoverContext::new();
    let r = request(TmdbCoverCategory::Movie, TmdbCoverSurface::Library);
    let url = prepare_cover(&mut context, &r).unwrap().unwrap();
    let (id, _, _) = finish_cover(&mut context, &r, url, CoverBytes::Fetched(Ok(jpeg())), true).unwrap();
    let writes = RefCell::new(Vec::new());
    assert_eq!(
        confirm_cover(&mut context, &r, &id, |a, names| {
            writes.borrow_mut().push((a.authority_id.clone(), names));
            true
        }),
        Ok(())
    );
    assert_eq!(confirm_cover(&mut context, &r, &id, |_, _| panic!("already cached")), Ok(()));
    assert_eq!(writes.borrow().len(), 1);
    assert_eq!(writes.borrow()[0].1, vec![cache_file_name_of(&r)]);
    let name = cache_file_name_of(&r);
    assert!(name.starts_with("tmdb-cover-") && name.ends_with(".bin") && name.len() == 55);
    let removed = RefCell::new(Vec::new());
    assert_eq!(
        invalidate_cover(&mut context, &r, |file| {
            removed.borrow_mut().push(file);
            true
        }),
        Ok(())
    );
    assert_eq!(*removed.borrow(), vec![name]);
    assert_eq!(fetch_cover(&context, &r, &id), Err(TMDB_COVER_STALE));
    assert_eq!(invalidate_cover(&mut context, &r, |_| false), Err(TMDB_COVER_FAILED));
}

#[test]
fn current_requests_stay_bounded() {
    let mut context = TmdbCoverContext::new();
    for id in 1..=(MAX_CURRENT_REQUESTS as u64 + 1) {
        let mut r = request(TmdbCoverCategory::Movie, TmdbCoverSurface::Discover);
        r.tmdb_id = id;
        prepare_cover(&mut context, &r).unwrap();
    }
    assert_eq!(context.requests.len(), MAX_CURRENT_REQUESTS);
    let mut first = request(TmdbCoverCategory::Movie, TmdbCoverSurface::Discover);
    first.tmdb_id = 1;
    assert!(!request_is_current(&context, &first));
    let mut last = first.clone();
    last.tmdb_id = MAX_CURRENT_REQUESTS as u64 + 1;
    assert!(request_is_current(&context, &last));
}
