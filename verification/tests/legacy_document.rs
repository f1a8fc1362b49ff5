use auto_video::json::JsonValue;
use auto_video::legacy_document::{exact_legacy_cover_url, metadata_from_legacy};
use auto_video::provider::ProviderRequestError;

fn text(value: &str) -> JsonValue {
    JsonValue::String(value.to_owned())
}

fn object(members: Vec<(&str, JsonValue)>) -> JsonValue {
    JsonValue::Object(members.into_iter().map(|(k, v)| (k.to_owned(), v)).collect())
}

fn document(images: JsonValue) -> JsonValue {
    object(vec![
        ("content_id", text("mdvr00419")),
        ("title_ja", text("  ")),
        ("title", text("ignored")),
        ("release_date", text("2024-05-01")),
        ("runtime_mins", JsonValue::Number("130".to_owned())),
        (
            "actresses",
            JsonValue::Array(vec![
                object(vec![("name_kanji", text("一")), ("name", text("One"))]),
                object(vec![("name", text("Two"))]),
                text("not an object"),
                object(vec![("name_kanji", JsonValue::Null), ("name", text("Skipped"))]),
            ]),
        ),
        ("images", images),
    ])
}

fn exact(id: &str) -> bool {
    id == "mdvr00419"
}

#[test]
fn legacy_cover_urls_prefer_large2_and_refuse_bad_urls() {
    let jacket = |large2: JsonValue, large: JsonValue| {
        document(object(vec![("jacket_image", object(vec![("large2", large2), ("large", large)]))]))
    };
    assert_eq!(
        exact_legacy_cover_url(&jacket(text("https://pics.dmm.co.jp/a.jpg"), text("https://pics.dmm.co.jp/b.jpg")), exact),
        Ok(Some("https://pics.dmm.co.jp/a.jpg".to_owned()))
    );
    assert_eq!(
        exact_legacy_cover_url(&jacket(JsonValue::Null, text("https://pics.dmm.co.jp/b.jpg")), exact),
        Ok(Some("https://pics.dmm.co.jp/b.jpg".to_owned()))
    );
    assert_eq!(
        exact_legacy_cover_url(&jacket(text("https://pics.dmm.co.jp/a.jpg"), text("http://elsewhere/b.jpg")), exact),
        Err(ProviderRequestError::Provider)
    );
    assert_eq!(exact_legacy_cover_url(&document(JsonValue::Null), exact), Ok(None));
    assert_eq!(exact_legacy_cover_url(&document(text("odd")), exact), Err(ProviderRequestError::Provider));
    assert_eq!(
        exact_legacy_cover_url(&document(JsonValue::Null), |_| false),
        Err(ProviderRequestError::Provider)
    );
    assert_eq!(exact_legacy_cover_url(&text("no object"), exact), Err(ProviderRequestError::Provider));
}

#[test]
fn legacy_metadata_takes_the_described_fields() {
    let metadata = metadata_from_legacy(&document(JsonValue::Null), exact, "MDVR-419").unwrap();
    assert_eq!(metadata.source.as_deref(), Some("r18.dev"));
    assert_eq!(metadata.provider_id.as_deref(), Some("mdvr00419"));
    assert_eq!(metadata.display_code.as_deref(), Some("MDVR-419"));
    assert_eq!(metadata.title, None);
    assert_eq!(metadata.date.as_deref(), Some("2024-05-01"));
    assert_eq!(metadata.runtime.as_deref(), Some("130 min"));
    assert_eq!(metadata.cast, vec!["一".to_owned(), "Two".to_owned()]);
    assert!(metadata_from_legacy(&document(JsonValue::Null), |_| false, "MDVR-419").is_none());
    let empty = object(vec![("content_id", text("mdvr00419")), ("runtime_mins", text("0"))]);
    assert!(metadata_from_legacy(&empty, exact, "MDVR-419").is_none());
    let many = object(vec![
        ("content_id", text("mdvr00419")),
        ("actresses", JsonValue::Array((0..10).map(|i| object(vec![("name", text(&format!("A{i}")))])).collect())),
    ]);
    assert_eq!(metadata_from_legacy(&many, exact, "MDVR-419").unwrap().cast.len(), 8);
}
