use auto_video::json::JsonValue;
use auto_video::tmdb_documents::{movie_metadata_candidates, tv_metadata_candidates, METADATA_MAX_CANDIDATES, MOVIE_METADATA_MALFORMED};
use auto_video::tv_library::TV_METADATA_MALFORMED;

fn text(s: &str) -> JsonValue {
    JsonValue::String(s.to_owned())
}

fn number(n: &str) -> JsonValue {
    JsonValue::Number(n.to_owned())
}

fn object(members: Vec<(&str, JsonValue)>) -> JsonValue {
    JsonValue::Object(members.into_iter().map(|(k, v)| (k.to_owned(), v)).collect())
}

fn search(results: Vec<JsonValue>) -> Option<JsonValue> {
    Some(object(vec![("page", number("1")), ("results", JsonValue::Array(results))]))
}

fn show(id: &str, name: &str) -> JsonValue {
    object(vec![
        ("id", number(id)),
        ("name", text(name)),
        ("original_name", text("  ")),
        ("first_air_date", text("2020-01-02")),
        ("poster_path", text("/p.jpg")),
    ])
}

#[test]
fn tv_search_results_become_candidates() {
    let candidates = tv_metadata_candidates(&search(vec![show("42", "Show"), show("7", "Other")])).unwrap();
    assert_eq!(candidates.len(), 2);
    assert_eq!(candidates[0].tmdb_tv_id, 42);
    assert_eq!(candidates[0].name, "Show");
    assert_eq!(candidates[0].original_name, None);
    assert_eq!(candidates[0].first_air_date.as_deref(), Some("2020-01-02"));
    assert_eq!(candidates[0].poster_path.as_deref(), Some("/p.jpg"));
    assert_eq!(candidates[1].tmdb_tv_id, 7);
    let minimal = object(vec![("id", number("5")), ("name", text("Min")), ("first_air_date", text(""))]);
    let candidates = tv_metadata_candidates(&search(vec![minimal])).unwrap();
    assert_eq!(candidates[0].first_air_date, None);
    assert_eq!(candidates[0].poster_path, None);
    assert!(tv_metadata_candidates(&search(vec![])).unwrap().is_empty());
}

#[test]
fn malformed_tv_search_results_are_refused() {
    let refused = |document: Option<JsonValue>| {
        assert_eq!(tv_metadata_candidates(&document), Err(TV_METADATA_MALFORMED));
    };
    refused(None);
    refused(Some(JsonValue::Array(vec![])));
    refused(Some(object(vec![("results", text("x"))])));
    refused(search(vec![show("42", "Show"), show("42", "Again")]));
    refused(search(vec![show("0", "Zero")]));
    refused(search(vec![show("-1", "Negative")]));
    refused(search(vec![show("4.0", "Float")]));
    refused(search(vec![show("42", "   ")]));
    refused(search(vec![JsonValue::Null]));
    refused(search(vec![object(vec![("id", number("1")), ("name", text("A")), ("poster_path", text("p.jpg"))])]));
    refused(search(vec![object(vec![("id", number("1")), ("name", text("A")), ("first_air_date", text("2020"))])]));
    refused(search(vec![object(vec![("id", number("1")), ("name", JsonValue::Bool(true))])]));
    refused(search(vec![object(vec![("id", number("1")), ("name", text(&"n".repeat(16 * 1024 + 1)))])]));
    refused(search((0..=METADATA_MAX_CANDIDATES as u64).map(|id| show(&(id + 1).to_string(), "S")).collect()));
}

#[test]
fn later_members_override_earlier_ones() {
    let duplicated = object(vec![("id", number("1")), ("name", text("First")), ("name", text("Second"))]);
    let candidates = tv_metadata_candidates(&search(vec![duplicated])).unwrap();
    assert_eq!(candidates[0].name, "Second");
}

#[test]
fn movie_search_results_become_candidates() {
    let movie = object(vec![
        ("id", number("603")),
        ("title", text("The Matrix")),
        ("original_title", text("The Matrix")),
        ("release_date", text("1999-03-31")),
        ("poster_path", JsonValue::Null),
    ]);
    let candidates = movie_metadata_candidates(&search(vec![movie])).unwrap();
    assert_eq!(candidates[0].tmdb_movie_id, 603);
    assert_eq!(candidates[0].title, "The Matrix");
    assert_eq!(candidates[0].original_title.as_deref(), Some("The Matrix"));
    assert_eq!(candidates[0].release_date.as_deref(), Some("1999-03-31"));
    assert_eq!(candidates[0].poster_path, None);
    assert_eq!(
        movie_metadata_candidates(&search(vec![object(vec![("id", number("1"))])])),
        Err(MOVIE_METADATA_MALFORMED)
    );
}
