use auto_video::presentation::{
    DisplayProvider, LibraryPresentationCategory, PresentationMetadata, VerifiedDisplayIdentity,
    LIBRARY_PRESENTATION_FAILED, LIBRARY_PRESENTATION_STALE, PRESENTATION_COVER_MIN_BYTES,
};
use auto_video::presentation_context::{
    begin_cover_request, cancel_cover_request, cover_authority_id, cover_identity_consistent,
    cover_request_is_current, cover_response, fetch_cover_with, fetch_current_cover_source,
    invalidate_cover_with,
    retain_metadata_seed, CoverProvider, CoverSource, LibraryItemAuthority,
    LibraryPresentationContext, MAX_RETAINED_COVER_REQUESTS,
};
use auto_video::provider::ProviderRequestError;

fn jpeg(width: u16, height: u16) -> Vec<u8> {
    let mut bytes = vec![0xff, 0xd8, 0xff, 0xc0, 0, 17, 8];
    bytes.extend(height.to_be_bytes());
    bytes.extend(width.to_be_bytes());
    bytes.resize(PRESENTATION_COVER_MIN_BYTES, 0);
    bytes
}

fn ratio(width: u32, height: u32) -> String {
    (f64::from(width) / f64::from(height)).to_string()
}

fn authority(category: LibraryPresentationCategory) -> LibraryItemAuthority {
    let code = if category == LibraryPresentationCategory::Vr { "MDVR-419" } else { "ADLT-123" };
    LibraryItemAuthority {
        category,
        identity: "a".repeat(40),
        code: code.to_owned(),
        product_identity: code.to_owned(),
    }
}

fn cover(provider_id: &str) -> CoverSource {
    CoverSource {
        provider: CoverProvider::JavDb,
        provider_id: provider_id.to_owned(),
        display_code: "MDVR-419".to_owned(),
        url: format!("https://tp.cmastd.com/{provider_id}.jpg"),
        width: 600,
        height: 800,
    }
}

fn verified_javdb(provider_id: &str, display_code: &str) -> VerifiedDisplayIdentity {
    VerifiedDisplayIdentity {
        provider: DisplayProvider::JavDb,
        provider_id: provider_id.to_owned(),
        display_code: display_code.to_owned(),
    }
}

fn respond(
    context: &mut LibraryPresentationContext,
    authority: &LibraryItemAuthority,
    generation: u64,
    provider_id: &str,
) -> Result<Vec<String>, &'static str> {
    cover_response(
        context,
        authority,
        generation,
        "ready",
        Some(cover(provider_id)),
        Some(jpeg(600, 800)),
        Some(verified_javdb(provider_id, &authority.code)),
        true,
        true,
        ratio,
    )
}

#[test]
fn current_cover_requests_remain_bounded_without_evicting_live_authority() {
    let mut context = LibraryPresentationContext::new();
    for generation in 1..=MAX_RETAINED_COVER_REQUESTS as u64 + 3 {
        let code = format!("ADLT-{generation}");
        let result =
            begin_cover_request(&mut context, LibraryPresentationCategory::Adult, &code, generation);
        if generation <= MAX_RETAINED_COVER_REQUESTS as u64 {
            result.expect("capacity must retain current requests");
        } else {
            assert_eq!(result, Err(LIBRARY_PRESENTATION_FAILED));
        }
    }
    assert_eq!(context.requests.len(), MAX_RETAINED_COVER_REQUESTS);
    assert!(cover_request_is_current(&context, LibraryPresentationCategory::Adult, "ADLT-1", 1));
    assert!(!cover_request_is_current(
        &context,
        LibraryPresentationCategory::Adult,
        "ADLT-131",
        131
    ));
}

#[test]
fn a_closed_request_makes_room_for_a_new_code() {
    let mut context = LibraryPresentationContext::new();
    for generation in 1..=MAX_RETAINED_COVER_REQUESTS as u64 {
        let code = format!("ADLT-{generation}");
        begin_cover_request(&mut context, LibraryPresentationCategory::Adult, &code, generation)
            .unwrap();
    }
    cancel_cover_request(&mut context, LibraryPresentationCategory::Adult, "ADLT-7", 7);
    cancel_cover_request(&mut context, LibraryPresentationCategory::Adult, "ADLT-3", 3);
    begin_cover_request(&mut context, LibraryPresentationCategory::Adult, "ADLT-999", 999).unwrap();
    assert_eq!(context.requests.len(), MAX_RETAINED_COVER_REQUESTS);
    assert!(context.requests.iter().all(|r| r.code != "ADLT-3"));
    assert!(context.requests.iter().any(|r| r.code == "ADLT-7"));
    assert!(cover_request_is_current(&context, LibraryPresentationCategory::Adult, "ADLT-999", 999));
}

#[test]
fn requests_need_a_newer_generation() {
    let mut context = LibraryPresentationContext::new();
    let vr = LibraryPresentationCategory::Vr;
    assert_eq!(begin_cover_request(&mut context, vr, "MDVR-419", 0), Err(LIBRARY_PRESENTATION_STALE));
    begin_cover_request(&mut context, vr, "MDVR-419", 5).unwrap();
    assert_eq!(begin_cover_request(&mut context, vr, "MDVR-419", 5), Err(LIBRARY_PRESENTATION_STALE));
    assert_eq!(begin_cover_request(&mut context, vr, "MDVR-419", 4), Err(LIBRARY_PRESENTATION_STALE));
    begin_cover_request(&mut context, vr, "MDVR-419", 6).unwrap();
    assert!(!cover_request_is_current(&context, vr, "MDVR-419", 5));
    assert!(cover_request_is_current(&context, vr, "MDVR-419", 6));
    assert!(cover_request_is_current(&context, vr, "OTHER-1", 0));
}

#[test]
fn obsolete_responses_keep_nothing_and_obsolete_cancellation_is_harmless() {
    let mut context = LibraryPresentationContext::new();
    let authority = authority(LibraryPresentationCategory::Vr);
    begin_cover_request(&mut context, authority.category, &authority.code, 1).unwrap();
    begin_cover_request(&mut context, authority.category, &authority.code, 2).unwrap();
    assert_eq!(respond(&mut context, &authority, 1, "obsolete"), Err(LIBRARY_PRESENTATION_STALE));
    assert!(context.covers.is_empty());
    let current = respond(&mut context, &authority, 2, "current").expect("latest request must keep its cover");
    assert_eq!(current.len(), 11);
    assert_eq!(current[0], "library-cover-v3");
    assert_eq!(current[1], "vr");
    assert_eq!(current[2], "ready");
    assert_eq!(current[3], "JavDB");
    assert_eq!(current[4], "current");
    assert_eq!(current[5], "MDVR-419");
    assert!(current[6].starts_with("library-cover-"));
    assert_eq!(current[6].len(), "library-cover-".len() + 40);
    assert_eq!(current[6], cover_authority_id(&authority.identity, "https://tp.cmastd.com/current.jpg", 2));
    assert_eq!(current[7], "0.75");
    assert_eq!(current[8], "JavDB");
    assert_eq!(current[9], "current");
    assert_eq!(current[10], "MDVR-419");
    assert_eq!(context.identity_seeds.len(), 1);
    cancel_cover_request(&mut context, authority.category, &authority.code, 1);
    assert!(cover_request_is_current(&context, authority.category, &authority.code, 2));
    assert!(context.covers.iter().any(|c| c.id == current[6]));
    cancel_cover_request(&mut context, authority.category, &authority.code, 2);
    assert!(!cover_request_is_current(&context, authority.category, &authority.code, 2));
    assert!(context.covers.is_empty());
    assert!(context.identity_seeds.is_empty());
}

#[test]
fn cover_authority_is_released_on_cancellation_and_consumed_on_fetch() {
    let mut context = LibraryPresentationContext::new();
    let authority = authority(LibraryPresentationCategory::Vr);
    begin_cover_request(&mut context, authority.category, &authority.code, 1).unwrap();
    let fields = cover_response(
        &mut context,
        &authority,
        1,
        "ready",
        Some(cover("item")),
        None,
        Some(verified_javdb("item", "MDVR-419")),
        true,
        true,
        ratio,
    )
    .unwrap();
    let id = fields[6].clone();
    assert_eq!(context.covers.len(), 1);
    assert_eq!(
        fetch_cover_with(&mut context, &authority, &id, |_| Err(ProviderRequestError::Network)),
        Err(LIBRARY_PRESENTATION_FAILED)
    );
    assert!(context.covers.is_empty());
    assert_eq!(
        fetch_cover_with(&mut context, &authority, &id, |_| panic!("a consumed cover must not be fetched")),
        Err(LIBRARY_PRESENTATION_STALE)
    );

    let fields = respond(&mut context, &authority, 1, "item").unwrap();
    assert_eq!(
        fetch_cover_with(&mut context, &authority, &fields[6], |_| panic!("bytes in hand are used")),
        Ok(jpeg(600, 800))
    );
    let fields = cover_response(
        &mut context,
        &authority,
        1,
        "ready",
        Some(cover("item")),
        None,
        Some(verified_javdb("item", "MDVR-419")),
        true,
        true,
        ratio,
    )
    .unwrap();
    let other = authority_with_identity("b");
    assert_eq!(
        fetch_cover_with(&mut context, &other, &fields[6], |_| panic!("other items cannot fetch")),
        Err(LIBRARY_PRESENTATION_STALE)
    );
    assert_eq!(
        fetch_cover_with(&mut context, &authority, &fields[6], |source| {
            assert_eq!(source.url, "https://tp.cmastd.com/item.jpg");
            Ok(jpeg(1600, 900))
        }),
        Ok(jpeg(1600, 900))
    );
    cover_response(
        &mut context,
        &authority,
        1,
        "ready",
        Some(cover("item")),
        None,
        None,
        true,
        true,
        ratio,
    )
    .expect_err("a JavDB cover needs a verified JavDB identity");
}

fn authority_with_identity(letter: &str) -> LibraryItemAuthority {
    LibraryItemAuthority { identity: letter.repeat(40), ..authority(LibraryPresentationCategory::Vr) }
}

#[test]
fn cover_responses_check_their_contract_before_touching_state() {
    let mut context = LibraryPresentationContext::new();
    let authority = authority(LibraryPresentationCategory::Vr);
    begin_cover_request(&mut context, authority.category, &authority.code, 1).unwrap();
    let identity = Some(verified_javdb("item", "MDVR-419"));
    assert_eq!(
        cover_response(&mut context, &authority, 1, "ready", Some(cover("item")), None, identity.clone(), false, true, ratio),
        Err(LIBRARY_PRESENTATION_FAILED)
    );
    assert_eq!(
        cover_response(&mut context, &authority, 1, "ready", Some(cover("item")), None, identity.clone(), true, false, ratio),
        Err(LIBRARY_PRESENTATION_FAILED)
    );
    assert_eq!(
        cover_response(&mut context, &authority, 1, "missing", Some(cover("item")), None, identity.clone(), true, true, ratio),
        Err(LIBRARY_PRESENTATION_FAILED)
    );
    assert_eq!(
        cover_response(&mut context, &authority, 1, "pending", None, None, None, true, true, ratio),
        Err(LIBRARY_PRESENTATION_FAILED)
    );
    assert!(context.covers.is_empty());
    assert!(context.identity_seeds.is_empty());
    let missing = cover_response(&mut context, &authority, 1, "missing", None, None, None, true, true, ratio).unwrap();
    assert_eq!(missing, vec!["library-cover-v3", "vr", "missing", "", "", "", "", "0.72", "", "", ""]);
    let unavailable =
        cover_response(&mut context, &authority, 1, "unavailable", None, None, identity, true, true, ratio).unwrap();
    assert_eq!(unavailable[2], "unavailable");
    assert_eq!(unavailable[7], "0.72");
    assert_eq!(unavailable[8], "JavDB");
    assert_eq!(context.identity_seeds.len(), 1);
    assert_eq!(
        cover_response(&mut context, &authority, 9, "missing", None, None, Some(verified_javdb("x", "MDVR-419")), true, true, ratio),
        Err(LIBRARY_PRESENTATION_STALE)
    );
}

#[test]
fn cover_identity_rules_follow_the_provider() {
    let javdb = verified_javdb("item", "MDVR-419");
    let fanza = VerifiedDisplayIdentity {
        provider: DisplayProvider::Fanza,
        provider_id: "mdvr00419".to_owned(),
        display_code: "MDVR-419".to_owned(),
    };
    let javdb_cover = cover("item");
    assert!(cover_identity_consistent(&javdb_cover, Some(&javdb), "MDVR-419", true));
    assert!(!cover_identity_consistent(&javdb_cover, Some(&javdb), "MDVR-419", false));
    assert!(!cover_identity_consistent(&javdb_cover, Some(&fanza), "MDVR-419", true));
    let fanza_cover = CoverSource { provider: CoverProvider::Fanza, provider_id: "mdvr00419".to_owned(), ..cover("x") };
    assert!(cover_identity_consistent(&fanza_cover, Some(&fanza), "MDVR-419", true));
    assert!(cover_identity_consistent(&fanza_cover, Some(&javdb), "MDVR-419", true));
    assert!(!cover_identity_consistent(&fanza_cover, None, "MDVR-419", true));
    let legacy_cover = CoverSource { provider: CoverProvider::R18Dev, ..cover("x") };
    assert!(cover_identity_consistent(&legacy_cover, None, "MDVR-419", true));
    assert!(!cover_identity_consistent(&legacy_cover, None, "MDVR-420", true));
    assert!(cover_identity_consistent(&legacy_cover, Some(&fanza), "MDVR-420", true));
}

#[test]
fn invalidated_cover_records_its_failed_source() {
    let mut context = LibraryPresentationContext::new();
    let authority = authority(LibraryPresentationCategory::Vr);
    begin_cover_request(&mut context, authority.category, &authority.code, 1).unwrap();
    let fields = respond(&mut context, &authority, 1, "item").unwrap();
    let url = "https://tp.cmastd.com/item.jpg".to_owned();
    assert_eq!(
        invalidate_cover_with(&mut context, &authority, 2, &fields[6], Some(url.clone()), || panic!("stale")),
        Err(LIBRARY_PRESENTATION_STALE)
    );
    assert_eq!(context.covers.len(), 1);
    assert_eq!(
        invalidate_cover_with(&mut context, &authority, 1, &fields[6], None, || panic!("no ready entry")),
        Err(LIBRARY_PRESENTATION_STALE)
    );
    assert!(context.covers.is_empty());
    assert!(context.identity_seeds.is_empty());
    let fields = respond(&mut context, &authority, 1, "item").unwrap();
    assert_eq!(
        invalidate_cover_with(&mut context, &authority, 1, &fields[6], Some("https://other".to_owned()), || panic!("wrong id")),
        Err(LIBRARY_PRESENTATION_STALE)
    );
    assert!(context.failed_sources.is_empty());
    let fields = respond(&mut context, &authority, 1, "item").unwrap();
    assert_eq!(
        invalidate_cover_with(&mut context, &authority, 1, &fields[6], Some(url.clone()), || false),
        Err(LIBRARY_PRESENTATION_FAILED)
    );
    assert!(context.failed_sources.is_empty());
    let fields = respond(&mut context, &authority, 1, "item").unwrap();
    assert_eq!(invalidate_cover_with(&mut context, &authority, 1, &fields[6], Some(url.clone()), || true), Ok(()));
    assert_eq!(context.failed_sources.len(), 1);
    assert_eq!(context.failed_sources[0].urls, vec![url.clone()]);
    assert_eq!(context.failed_sources[0].item_identity, authority.identity);
    respond(&mut context, &authority, 1, "item").unwrap();
    assert!(context.failed_sources.is_empty());
}

#[test]
fn metadata_seeds_are_retired_with_their_request() {
    let mut context = LibraryPresentationContext::new();
    let authority = authority(LibraryPresentationCategory::Adult);
    begin_cover_request(&mut context, authority.category, &authority.code, 1).unwrap();
    let mut metadata = PresentationMetadata::default();
    metadata.title = Some("Title".to_owned());
    retain_metadata_seed(&mut context, &authority, 1, metadata.clone());
    retain_metadata_seed(&mut context, &authority, 1, metadata.clone());
    assert_eq!(context.metadata_seeds.len(), 1);
    assert_eq!(context.metadata_seeds[0].sequence, 2);
    assert_eq!(context.metadata_seeds[0].value.title.as_deref(), Some("Title"));
    cancel_cover_request(&mut context, authority.category, &authority.code, 1);
    assert!(context.metadata_seeds.is_empty());
    begin_cover_request(&mut context, authority.category, &authority.code, 2).unwrap();
    retain_metadata_seed(&mut context, &authority, 2, metadata);
    begin_cover_request(&mut context, authority.category, &authority.code, 3).unwrap();
    assert!(context.metadata_seeds.is_empty());
}

#[test]
fn failed_cover_sources_are_not_fetched_again() {
    let failed = vec!["https://a/failed.jpg".to_owned()];
    assert_eq!(
        fetch_current_cover_source(&failed, "https://a/failed.jpg", |_| panic!("a failed source is not fetched")),
        Err(ProviderRequestError::Provider)
    );
    assert_eq!(
        fetch_current_cover_source(&failed, "https://a/other.jpg", |url| {
            assert_eq!(url, "https://a/other.jpg");
            Ok(vec![1, 2, 3])
        }),
        Ok(vec![1, 2, 3])
    );
}

#[test]
fn kept_covers_stand_alone_and_few_keep_bytes() {
    let mut context = LibraryPresentationContext::new();
    let base = authority(LibraryPresentationCategory::Vr);
    let mut authorities = Vec::new();
    for index in 0..6u64 {
        let item = LibraryItemAuthority { code: format!("MDVR-{}", 400 + index), ..base.clone() };
        begin_cover_request(&mut context, item.category, &item.code, index + 1).unwrap();
        let mut source = cover("item");
        source.display_code = item.code.clone();
        cover_response(
            &mut context,
            &item,
            index + 1,
            "ready",
            Some(source),
            Some(jpeg(600, 800)),
            Some(verified_javdb("item", &item.code)),
            true,
            true,
            ratio,
        )
        .unwrap();
        authorities.push(item);
    }
    let last = &authorities[5];
    let mut source = cover("again");
    source.display_code = last.code.clone();
    let again = cover_response(
        &mut context,
        last,
        6,
        "ready",
        Some(source),
        None,
        Some(verified_javdb("again", &last.code)),
        true,
        true,
        ratio,
    )
    .unwrap();
    assert_eq!(context.covers.iter().filter(|c| c.code == authorities[5].code).count(), 1);
    assert!(context.covers.iter().any(|c| c.id == again[6]));
    assert_eq!(context.covers.len(), 6);
    assert!(context.covers.iter().filter(|c| c.bytes.is_some()).count() <= 4);
}
