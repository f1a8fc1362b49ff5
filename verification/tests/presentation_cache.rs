use auto_video::hex::encode_hex_text;
use auto_video::presentation::{
    DisplayProvider, LibraryPresentationCategory, PresentationMetadata, VerifiedDisplayIdentity,
};
use auto_video::presentation_cache::{
    cache_entry_valid, encode_presentation_cache, fresh_cover_entry, fresh_identity_entry,
    first_item_entry, identity_to_keep, merge_cache_entry, metadata_cache_update, saved_fresh_at, parse_presentation_cache, read_presentation_cache,
    remove_cache_entry, resolved_cache_entry, CachedCover, OutsideEntryChecks,
    PresentationCacheEntry, COVER_TTL_SECONDS, METADATA_TTL_SECONDS,
};
use auto_video::presentation_context::{CoverProvider, LibraryItemAuthority};

fn identity(letter: char) -> String {
    std::iter::repeat(letter).take(40).collect()
}

fn entry(letter: char) -> PresentationCacheEntry {
    PresentationCacheEntry {
        identity: identity(letter),
        category: LibraryPresentationCategory::Vr,
        code: "MDVR-419".to_owned(),
        identity_saved_at: 10,
        verified_identity: Some(VerifiedDisplayIdentity {
            provider: DisplayProvider::JavDb,
            provider_id: "abc".to_owned(),
            display_code: "MDVR-419".to_owned(),
        }),
        cover_saved_at: 11,
        cover: Some(CachedCover {
            provider: CoverProvider::JavDb,
            provider_id: "abc".to_owned(),
            display_code: "MDVR-419".to_owned(),
            url: "https://c0.jdbstatic.com/covers/ab/abc.jpg".to_owned(),
            ratio: "0.75".to_owned(),
        }),
        metadata_saved_at: 12,
        metadata_ready: true,
        metadata: PresentationMetadata {
            source: Some("JavDB".to_owned()),
            provider_id: Some("abc".to_owned()),
            display_code: Some("MDVR-419".to_owned()),
            title: Some("タイトル".to_owned()),
            cast: vec!["Actor One".to_owned(), "Actor Two".to_owned()],
            ..PresentationMetadata::default()
        },
    }
}

fn all_pass(_: &PresentationCacheEntry) -> OutsideEntryChecks {
    OutsideEntryChecks { code_displayed: true, identity_verified: true, source_valid: true }
}

#[test]
fn written_cache_reads_back() {
    let entries = vec![entry('a'), entry('b')];
    let text = encode_presentation_cache(&entries);
    let lines: Vec<&str> = text.lines().collect();
    assert_eq!(lines[0], "library-presentation-v3");
    assert_eq!(lines.len(), 3);
    let fields: Vec<&str> = lines[1].split('\t').collect();
    assert_eq!(fields.len(), 23);
    assert_eq!(fields[1], "vr");
    assert_eq!(fields[2], encode_hex_text("MDVR-419"));
    assert_eq!(fields[4], "JavDB");
    assert_eq!(fields[8], "ready");
    assert_eq!(fields[13], "0.75");
    assert_eq!(fields[15], "ready");
    assert_eq!(fields[22], format!("{},{}", encode_hex_text("Actor One"), encode_hex_text("Actor Two")));
    let read = parse_presentation_cache(&text).unwrap();
    assert_eq!(read.len(), 2);
    assert_eq!(read[1].identity, identity('b'));
    assert_eq!(read[0].metadata.title.as_deref(), Some("タイトル"));
    assert_eq!(read[0].metadata.cast, vec!["Actor One".to_owned(), "Actor Two".to_owned()]);
    assert_eq!(read[0].cover.as_ref().unwrap().ratio, "0.75");
    assert_eq!(encode_presentation_cache(&read), text);
    assert!(read_presentation_cache(&text, all_pass).is_ok());
}

#[test]
fn missing_cover_is_written_with_the_default_ratio() {
    let mut missing = entry('c');
    missing.cover = None;
    missing.metadata_ready = false;
    missing.metadata = PresentationMetadata::default();
    let text = encode_presentation_cache(&vec![missing]);
    let fields: Vec<&str> = text.lines().nth(1).unwrap().split('\t').collect();
    assert_eq!(fields[8], "missing");
    assert_eq!(&fields[9..13], ["", "", "", ""]);
    assert_eq!(fields[13], "0.72");
    assert_eq!(fields[15], "missing");
    let read = parse_presentation_cache(&text).unwrap();
    assert!(read[0].cover.is_none());
    assert!(cache_entry_valid(&read[0], &all_pass(&read[0])));
}

#[test]
fn malformed_caches_are_refused() {
    let text = encode_presentation_cache(&vec![entry('a')]);
    assert_eq!(parse_presentation_cache(""), Err(()));
    assert_eq!(parse_presentation_cache(&text.replacen("v3", "v2", 1)), Err(()));
    let doubled = format!("{text}{}", text.lines().nth(1).unwrap());
    assert_eq!(parse_presentation_cache(&doubled), Err(()));
    let short = text.replacen("\tready\t", "\t", 1);
    assert_eq!(parse_presentation_cache(&short), Err(()));
    let bad_state = text.replacen("\tready\tJavDB", "\tpending\tJavDB", 1);
    assert_eq!(parse_presentation_cache(&bad_state), Err(()));
    assert_eq!(parse_presentation_cache("library-presentation-v3\r\n").map(|e| e.len()), Ok(0));
    assert_eq!(parse_presentation_cache("library-presentation-v3").map(|e| e.len()), Ok(0));
}

#[test]
fn invalid_entries_refuse_the_whole_cache() {
    let text = encode_presentation_cache(&vec![entry('a'), entry('b')]);
    assert_eq!(
        read_presentation_cache(&text, |e| OutsideEntryChecks {
            code_displayed: true,
            identity_verified: e.identity != identity('b'),
            source_valid: true,
        }),
        Err(())
    );
    let mut unsaved = entry('d');
    unsaved.identity_saved_at = 0;
    assert!(!cache_entry_valid(&unsaved, &all_pass(&unsaved)));
    let mut short = entry('e');
    short.identity = "abc".to_owned();
    assert!(!cache_entry_valid(&short, &all_pass(&short)));
    let mut stray = entry('f');
    stray.metadata_ready = false;
    assert!(!cache_entry_valid(&stray, &all_pass(&stray)));
}

fn authority_of(letter: char) -> LibraryItemAuthority {
    LibraryItemAuthority {
        category: LibraryPresentationCategory::Vr,
        identity: identity(letter),
        code: "MDVR-419".to_owned(),
        product_identity: "MDVR-419".to_owned(),
    }
}

#[test]
fn merging_replaces_the_item_and_orders_by_identity() {
    let mut old_b = entry('b');
    old_b.cover_saved_at = 1;
    let merged = merge_cache_entry(vec![entry('c'), old_b, entry('a')], entry('b'));
    let identities: Vec<String> = merged.iter().map(|e| e.identity.clone()).collect();
    assert_eq!(identities, vec![identity('a'), identity('b'), identity('c')]);
    assert_eq!(merged[1].cover_saved_at, 11);
    let kept = remove_cache_entry(merged, &identity('b'));
    let identities: Vec<String> = kept.iter().map(|e| e.identity.clone()).collect();
    assert_eq!(identities, vec![identity('a'), identity('c')]);
}

#[test]
fn cached_covers_and_identities_expire() {
    let cache = vec![entry('a')];
    let a = authority_of('a');
    assert_eq!(fresh_cover_entry(&cache, &a, 11), Some(0));
    assert_eq!(fresh_cover_entry(&cache, &a, 11 + COVER_TTL_SECONDS), Some(0));
    assert_eq!(fresh_cover_entry(&cache, &a, 12 + COVER_TTL_SECONDS), None);
    assert_eq!(fresh_cover_entry(&cache, &a, 10), None);
    assert_eq!(fresh_identity_entry(&cache, &a, 10 + METADATA_TTL_SECONDS), Some(0));
    assert_eq!(fresh_identity_entry(&cache, &a, 11 + METADATA_TTL_SECONDS), None);
    let other_code = LibraryItemAuthority { code: "MDVR-420".to_owned(), ..a.clone() };
    assert_eq!(fresh_cover_entry(&cache, &other_code, 11), None);
    assert_eq!(fresh_identity_entry(&cache, &authority_of('b'), 11), None);
}

#[test]
fn resolutions_keep_identities_and_update_entries() {
    let verified = VerifiedDisplayIdentity {
        provider: DisplayProvider::Fanza,
        provider_id: "mdvr00419".to_owned(),
        display_code: "MDVR-419".to_owned(),
    };
    let cached = Some((5, verified.clone()));
    assert_eq!(identity_to_keep(Some(verified.clone()), false, None, 9), (9, Some(verified.clone())));
    assert_eq!(identity_to_keep(None, true, cached.clone(), 9), (5, Some(verified.clone())));
    assert_eq!(identity_to_keep(None, false, cached, 9), (0, None));
    assert_eq!(identity_to_keep(None, true, None, 9), (0, None));

    let updated = resolved_cache_entry(vec![entry('b'), entry('a')], &authority_of('a'), 99, 99, Some(verified.clone()), None);
    assert_eq!(updated.identity, identity('a'));
    assert_eq!(updated.cover_saved_at, 11);
    assert_eq!(updated.metadata_saved_at, 12);
    assert_eq!(updated.verified_identity, Some(verified.clone()));
    let fresh = resolved_cache_entry(Vec::new(), &authority_of('z'), 99, 0, None, Some(None));
    assert_eq!(fresh.cover_saved_at, 99);
    assert!(fresh.cover.is_none());
    assert!(!fresh.metadata_ready);
    assert_eq!(fresh.metadata_saved_at, 0);
}

#[test]
fn metadata_updates_keep_the_cover_consistent() {
    let a = authority_of('a');
    let cache = vec![entry('b'), entry('a')];
    assert_eq!(first_item_entry(&cache, &a), Some(1));
    assert_eq!(first_item_entry(&cache, &authority_of('c')), None);
    assert!(saved_fresh_at(12, 12 + METADATA_TTL_SECONDS, METADATA_TTL_SECONDS));
    assert!(!saved_fresh_at(0, 5, METADATA_TTL_SECONDS));

    let same = cache[1].verified_identity.clone();
    let mut metadata = PresentationMetadata::default();
    metadata.title = Some("New title".to_owned());
    let updated = metadata_cache_update(cache.clone(), &a, 500, same.clone(), same.clone(), metadata.clone(), true)
        .expect("the cached JavDB cover agrees with the identity");
    assert_eq!(updated.identity_saved_at, 10);
    assert_eq!(updated.metadata_saved_at, 500);
    assert!(updated.metadata_ready);
    assert_eq!(updated.metadata.title.as_deref(), Some("New title"));
    assert_eq!(updated.cover_saved_at, 11);

    let fanza = Some(VerifiedDisplayIdentity {
        provider: DisplayProvider::Fanza,
        provider_id: "mdvr00419".to_owned(),
        display_code: "MDVR-419".to_owned(),
    });
    assert_eq!(metadata_cache_update(cache.clone(), &a, 500, same.clone(), fanza.clone(), metadata.clone(), true), None);

    let mut r18 = entry('a');
    r18.cover = Some(CachedCover {
        provider: CoverProvider::R18Dev,
        provider_id: "mdvr419".to_owned(),
        display_code: "mdvr419".to_owned(),
        url: "https://pics.r18.dev/mdvr419.jpg".to_owned(),
        ratio: "0.7".to_owned(),
    });
    let updated = metadata_cache_update(vec![r18], &a, 600, None, fanza.clone(), metadata, true).unwrap();
    assert_eq!(updated.identity_saved_at, 600);
    assert_eq!(updated.cover.unwrap().display_code, "MDVR-419");
}
