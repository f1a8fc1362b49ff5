//! What an r18.dev item document offers an item: its jacket cover URL and its metadata, taken
//! only when the document's content id is exactly the item's product code.
use vstd::prelude::*;

use crate::json::{json_member, member, JsonValue};
use crate::provider::ProviderRequestError;

use crate::presentation::{
    spec_valid_legacy_cover_url, valid_legacy_cover_url, spec_valid_date, valid_date, MetadataView,
    PresentationMetadata,
};
use crate::text::{chars_of, decimal_string, decimal_string_of, parse_unsigned, push_str, spec_parse_unsigned};
use crate::tv_scan::{owned, texts};
use crate::tv_store::{blank, is_blank, optional_view};

verus! {

/// Whether a member is absent or null.
pub open spec fn absent_or_null(value: Option<JsonValue>) -> bool {
    value is None || value == Some(JsonValue::Null)
}

/// What the jacket's `large2` or `large` URL gives: each present one must be a string that is
/// a valid legacy cover URL; the first of them is taken.
pub open spec fn jacket_url(jacket: Seq<(String, JsonValue)>) -> Result<Option<Seq<char>>, ProviderRequestError> {
    let large2 = json_member(jacket, "large2"@);
    let large = json_member(jacket, "large"@);
    let ok2 = absent_or_null(large2) || (large2 matches Some(JsonValue::String(u)) && spec_valid_legacy_cover_url(
        u@,
    ));
    let ok1 = absent_or_null(large) || (large matches Some(JsonValue::String(u)) && spec_valid_legacy_cover_url(
        u@,
    ));
    if !ok2 || !ok1 {
        Err(ProviderRequestError::Provider)
    } else {
        match (large2, large) {
            (Some(JsonValue::String(u)), _) => Ok(Some(u@)),
            (_, Some(JsonValue::String(u))) => Ok(Some(u@)),
            _ => Ok(None),
        }
    }
}

/// The jacket cover URL a document offers the item, given whether the document's content id is
/// exactly the item's product code (`exact`): the document must be an object with a string
/// `content_id`, and that id must be exact; absent or null images or jacket give no URL, any
/// other kind is an error.
pub open spec fn spec_exact_legacy_cover_url(root: JsonValue, exact: bool) -> Result<
    Option<Seq<char>>,
    ProviderRequestError,
> {
    match root {
        JsonValue::Object(members) => match json_member(members@, "content_id"@) {
            Some(JsonValue::String(_)) => if !exact {
                Err(ProviderRequestError::Provider)
            } else {
                match json_member(members@, "images"@) {
                    None => Ok(None),
                    Some(JsonValue::Null) => Ok(None),
                    Some(JsonValue::Object(images)) => match json_member(images@, "jacket_image"@) {
                        None => Ok(None),
                        Some(JsonValue::Null) => Ok(None),
                        Some(JsonValue::Object(jacket)) => jacket_url(jacket@),
                        Some(_) => Err(ProviderRequestError::Provider),
                    },
                    Some(_) => Err(ProviderRequestError::Provider),
                }
            },
            _ => Err(ProviderRequestError::Provider),
        },
        _ => Err(ProviderRequestError::Provider),
    }
}

/// The content id of a document, when it is an object with a string `content_id`.
pub open spec fn content_id_of(root: JsonValue) -> Option<Seq<char>> {
    match root {
        JsonValue::Object(members) => match json_member(members@, "content_id"@) {
            Some(JsonValue::String(id)) => Some(id@),
            _ => None,
        },
        _ => None,
    }
}

/// Whether `matches` answered `exact` for the content id `id`.
pub open spec fn content_id_answered<F: FnOnce(&str) -> bool>(matches: F, id: Seq<char>, exact: bool) -> bool {
    exists|s: &str| s@ == id && #[trigger] call_ensures(matches, (s,), exact)
}

fn url_member(jacket: &Vec<(String, JsonValue)>, key: &str) -> (found: Result<Option<String>, ()>)
    ensures
        match found {
            Err(()) => !(absent_or_null(json_member(jacket@, key@)) || (json_member(jacket@, key@) matches Some(
                JsonValue::String(u),
            ) && spec_valid_legacy_cover_url(u@))),
            Ok(None) => absent_or_null(json_member(jacket@, key@)),
            Ok(Some(u)) => json_member(jacket@, key@) matches Some(JsonValue::String(v)) && v@ == u@
                && spec_valid_legacy_cover_url(u@),
        },
{
    match member(jacket, key) {
        None => Ok(None),
        Some(JsonValue::Null) => Ok(None),
        Some(JsonValue::String(url)) => {
            if valid_legacy_cover_url(url.as_str()) {
                Ok(Some(url.clone()))
            } else {
                Err(())
            }
        },
        Some(_) => Err(()),
    }
}

/// The jacket cover URL that an r18.dev document offers the item; `matches` says whether the
/// document's content id is exactly the item's product code.
pub fn exact_legacy_cover_url(root: &JsonValue, matches: impl FnOnce(&str) -> bool) -> (url: Result<
    Option<String>,
    ProviderRequestError,
>)
    requires
        content_id_of(*root) matches Some(id) ==> forall|s: &str| s@ == id ==> call_requires(matches, (s,)),
    ensures
        content_id_of(*root) is None ==> url == Err::<Option<String>, ProviderRequestError>(
            ProviderRequestError::Provider,
        ),
        content_id_of(*root) matches Some(id) ==> exists|exact: bool|
            #[trigger] content_id_answered(matches, id, exact) && match spec_exact_legacy_cover_url(*root, exact) {
                Ok(Some(u)) => url matches Ok(Some(v)) && v@ == u,
                Ok(None) => url matches Ok(None),
                Err(e) => url == Err::<Option<String>, ProviderRequestError>(e),
            },
{
    proof {
        reveal_strlit("content_id");
        reveal_strlit("images");
        reveal_strlit("jacket_image");
        reveal_strlit("large2");
        reveal_strlit("large");
    }
    let members = match root {
        JsonValue::Object(members) => members,
        _ => return Err(ProviderRequestError::Provider),
    };
    let id = match member(members, "content_id") {
        Some(JsonValue::String(id)) => id,
        _ => return Err(ProviderRequestError::Provider),
    };
    let exact = matches(id.as_str());
    proof {
        assert(content_id_of(*root) == Some(id@));
        assert(content_id_answered(matches, id@, exact));
        assert(content_id_answered(matches, content_id_of(*root)->0, exact));
    }
    if !exact {
        proof {
            assert(spec_exact_legacy_cover_url(*root, exact) == Err::<Option<Seq<char>>, ProviderRequestError>(
                ProviderRequestError::Provider,
            ));
        }
        return Err(ProviderRequestError::Provider);
    }
    let url = images_cover_url(members);
    proof {
        assert(spec_exact_legacy_cover_url(*root, exact) == images_url(members@));
    }
    url
}

/// What the `images` member of a document with an exact content id gives.
pub open spec fn images_url(members: Seq<(String, JsonValue)>) -> Result<Option<Seq<char>>, ProviderRequestError> {
    match json_member(members, "images"@) {
        None => Ok(None),
        Some(JsonValue::Null) => Ok(None),
        Some(JsonValue::Object(images)) => match json_member(images@, "jacket_image"@) {
            None => Ok(None),
            Some(JsonValue::Null) => Ok(None),
            Some(JsonValue::Object(jacket)) => jacket_url(jacket@),
            Some(_) => Err(ProviderRequestError::Provider),
        },
        Some(_) => Err(ProviderRequestError::Provider),
    }
}

fn images_cover_url(members: &Vec<(String, JsonValue)>) -> (url: Result<Option<String>, ProviderRequestError>)
    ensures
        match images_url(members@) {
            Ok(Some(u)) => url matches Ok(Some(v)) && v@ == u,
            Ok(None) => url matches Ok(None),
            Err(e) => url == Err::<Option<String>, ProviderRequestError>(e),
        },
{
    proof {
        reveal_strlit("images");
        reveal_strlit("jacket_image");
        reveal_strlit("large2");
        reveal_strlit("large");
    }
    let images = match member(members, "images") {
        None => return Ok(None),
        Some(JsonValue::Null) => return Ok(None),
        Some(JsonValue::Object(images)) => images,
        Some(_) => return Err(ProviderRequestError::Provider),
    };
    let jacket = match member(images, "jacket_image") {
        None => return Ok(None),
        Some(JsonValue::Null) => return Ok(None),
        Some(JsonValue::Object(jacket)) => jacket,
        Some(_) => return Err(ProviderRequestError::Provider),
    };
    let large2 = url_member(jacket, "large2");
    let large = url_member(jacket, "large");
    match (large2, large) {
        (Err(()), _) => Err(ProviderRequestError::Provider),
        (_, Err(())) => Err(ProviderRequestError::Provider),
        (Ok(Some(u)), Ok(_)) => Ok(Some(u)),
        (Ok(None), Ok(u)) => Ok(u),
    }
}

/// The value of the first of two members that is present.
pub open spec fn first_present(members: Seq<(String, JsonValue)>, first: Seq<char>, second: Seq<char>) -> Option<
    JsonValue,
> {
    if json_member(members, first) is Some {
        json_member(members, first)
    } else {
        json_member(members, second)
    }
}

/// A string value that is not blank.
pub open spec fn filled_text(value: Option<JsonValue>) -> Option<Seq<char>> {
    match value {
        Some(JsonValue::String(s)) => if is_blank(s@) {
            None
        } else {
            Some(s@)
        },
        _ => None,
    }
}

/// The runtime a document states, in minutes: a positive whole number, written as a string or
/// a number.
pub open spec fn stated_minutes(value: Option<JsonValue>) -> Option<nat> {
    let text = match value {
        Some(JsonValue::String(s)) => Some(s@),
        Some(JsonValue::Number(s)) => Some(s@),
        _ => None,
    };
    match text {
        Some(t) => match spec_parse_unsigned(t, u64::MAX as nat) {
            Some(n) => if n > 0 {
                Some(n)
            } else {
                None
            },
            None => None,
        },
        None => None,
    }
}

/// The names of the actresses listed in `items`, in order: each object's `name_kanji`, or its
/// `name` when that is absent, when it is a string that is not blank.
pub open spec fn actress_names(items: Seq<JsonValue>) -> Seq<Seq<char>>
    decreases items.len(),
{
    if items.len() == 0 {
        Seq::empty()
    } else {
        let rest = actress_names(items.drop_last());
        match items.last() {
            JsonValue::Object(actor) => match filled_text(first_present(actor@, "name_kanji"@, "name"@)) {
                Some(name) => rest.push(name),
                None => rest,
            },
            _ => rest,
        }
    }
}

/// At most the first eight names.
pub open spec fn first_eight(names: Seq<Seq<char>>) -> Seq<Seq<char>> {
    if names.len() > 8 {
        names.take(8)
    } else {
        names
    }
}

/// The metadata an r18.dev document with content id `id` offers an item shown as
/// `display_code`, when the id is exact: its title (`title_ja`, else `title`), release date,
/// runtime (`runtime_mins`, else `runtime_minutes`) and first eight actresses; none when it
/// describes nothing.
pub open spec fn spec_metadata_from_legacy(
    members: Seq<(String, JsonValue)>,
    id: Seq<char>,
    display_code: Seq<char>,
) -> Option<MetadataView> {
    let title = filled_text(first_present(members, "title_ja"@, "title"@));
    let date = match json_member(members, "release_date"@) {
        Some(JsonValue::String(s)) => if spec_valid_date(s@) {
            Some(s@)
        } else {
            None
        },
        _ => None,
    };
    let runtime = match stated_minutes(first_present(members, "runtime_mins"@, "runtime_minutes"@)) {
        Some(n) => Some(decimal_string(n) + " min"@),
        None => None,
    };
    let cast = match json_member(members, "actresses"@) {
        Some(JsonValue::Array(items)) => first_eight(actress_names(items@)),
        _ => Seq::empty(),
    };
    if title is Some || date is Some || runtime is Some || cast.len() > 0 {
        Some(
            MetadataView {
                verified_identity: None,
                identity_conflict: false,
                source: Some("r18.dev"@),
                provider_id: Some(id),
                display_code: Some(display_code),
                title,
                date,
                runtime,
                cast,
            },
        )
    } else {
        None
    }
}

/// The title of a legacy document's metadata is its `title_ja` string, or, without a
/// `title_ja` member, its `title` string, whenever that string is not blank; and any title
/// the metadata shows is one of those two strings.
pub proof fn law_legacy_title(members: Seq<(String, JsonValue)>, id: Seq<char>, display_code: Seq<char>)
    ensures
        json_member(members, "title_ja"@) matches Some(JsonValue::String(s)) ==> (!is_blank(s@) ==> (
        spec_metadata_from_legacy(members, id, display_code) matches Some(m) && m.title == Some(s@))),
        json_member(members, "title_ja"@) is None ==> (json_member(members, "title"@) matches Some(
            JsonValue::String(s),
        ) ==> (!is_blank(s@) ==> (spec_metadata_from_legacy(members, id, display_code) matches Some(m)
            && m.title == Some(s@)))),
        spec_metadata_from_legacy(members, id, display_code) matches Some(m) ==> (m.title matches Some(t) ==> (
        (json_member(members, "title_ja"@) matches Some(JsonValue::String(s)) && s@ == t) || (json_member(
            members,
            "title_ja"@,
        ) is None && (json_member(members, "title"@) matches Some(JsonValue::String(s)) && s@ == t)))),
{
}

/// A legacy document's metadata comes from r18.dev under the document's content id and the
/// item's display code, rests on no identity, keeps a well-formed `release_date`, shows a
/// positive `runtime_mins` (else `runtime_minutes`) as minutes, and lists at most eight
/// actresses.
pub proof fn law_legacy_fields(members: Seq<(String, JsonValue)>, id: Seq<char>, display_code: Seq<char>)
    ensures
        spec_metadata_from_legacy(members, id, display_code) matches Some(m) ==> {
            &&& m.source == Some("r18.dev"@)
            &&& m.provider_id == Some(id)
            &&& m.display_code == Some(display_code)
            &&& m.verified_identity is None
            &&& !m.identity_conflict
            &&& m.cast.len() <= 8
            &&& (json_member(members, "release_date"@) matches Some(JsonValue::String(d)) ==> (
            spec_valid_date(d@) ==> m.date == Some(d@)))
            &&& (json_member(members, "runtime_mins"@) matches Some(JsonValue::Number(t)) ==> (
            spec_parse_unsigned(t@, u64::MAX as nat) matches Some(n) ==> (n > 0 ==> m.runtime == Some(
                decimal_string(n) + " min"@,
            ))))
        },
        json_member(members, "release_date"@) matches Some(JsonValue::String(d)) ==> (spec_valid_date(d@)
            ==> spec_metadata_from_legacy(members, id, display_code) is Some),
{
}

fn first_present_exec<'a>(members: &'a Vec<(String, JsonValue)>, first: &str, second: &str) -> (value: Option<
    &'a JsonValue,
>)
    ensures
        match value {
            Some(v) => first_present(members@, first@, second@) == Some(*v),
            None => first_present(members@, first@, second@) is None,
        },
{
    match member(members, first) {
        Some(v) => Some(v),
        None => member(members, second),
    }
}

fn filled_text_exec(value: Option<&JsonValue>) -> (text: Option<String>)
    ensures
        optional_view(text) == filled_text(
            match value {
                Some(v) => Some(*v),
                None => None,
            },
        ),
{
    match value {
        Some(JsonValue::String(s)) => {
            if blank(s.as_str()) {
                None
            } else {
                Some(s.clone())
            }
        },
        _ => None,
    }
}

fn stated_minutes_exec(value: Option<&JsonValue>) -> (minutes: Option<u64>)
    ensures
        match minutes {
            Some(n) => stated_minutes(
                match value {
                    Some(v) => Some(*v),
                    None => None,
                },
            ) == Some(n as nat),
            None => stated_minutes(
                match value {
                    Some(v) => Some(*v),
                    None => None,
                },
            ) is None,
        },
{
    let text = match value {
        Some(JsonValue::String(s)) => s,
        Some(JsonValue::Number(s)) => s,
        _ => return None,
    };
    let t = chars_of(text.as_str());
    match parse_unsigned(t.as_slice(), u64::MAX) {
        Some(n) => {
            if n > 0 {
                Some(n)
            } else {
                None
            }
        },
        None => None,
    }
}

fn actress_names_exec(items: &Vec<JsonValue>) -> (names: Vec<String>)
    ensures
        texts(names@) == first_eight(actress_names(items@)),
{
    proof {
        reveal_strlit("name_kanji");
        reveal_strlit("name");
    }
    let mut names: Vec<String> = Vec::new();
    let mut k: usize = 0;
    while k < items.len()
        invariant
            k <= items@.len(),
            texts(names@) == actress_names(items@.take(k as int)),
        decreases items@.len() - k,
    {
        proof {
            assert(items@.take(k + 1).drop_last() =~= items@.take(k as int));
            assert(items@.take(k + 1).last() == items@[k as int]);
        }
        match &items[k] {
            JsonValue::Object(actor) => {
                match filled_text_exec(first_present_exec(actor, "name_kanji", "name")) {
                    Some(name) => {
                        let ghost before = names@;
                        names.push(name);
                        assert(texts(names@) =~= texts(before).push(name@));
                    },
                    None => {},
                }
            },
            _ => {},
        }
        k = k + 1;
    }
    assert(items@.take(items@.len() as int) =~= items@);
    if names.len() > 8 {
        let ghost all = names@;
        names.truncate(8);
        assert(texts(names@) =~= texts(all).take(8));
    }
    names
}

/// The metadata an r18.dev document offers an item shown as `display_code`; `matches` says
/// whether the document's content id is exactly the item's product code.
pub fn metadata_from_legacy(root: &JsonValue, matches: impl FnOnce(&str) -> bool, display_code: &str) -> (metadata:
    Option<PresentationMetadata>)
    requires
        content_id_of(*root) matches Some(id) ==> forall|s: &str| s@ == id ==> call_requires(matches, (s,)),
    ensures
        content_id_of(*root) is None ==> metadata is None,
        content_id_of(*root) matches Some(id) ==> exists|exact: bool|
            #[trigger] content_id_answered(matches, id, exact) && if exact {
                match root {
                    JsonValue::Object(members) => match spec_metadata_from_legacy(members@, id, display_code@) {
                        Some(m) => metadata matches Some(v) && v@ == m,
                        None => metadata is None,
                    },
                    _ => false,
                }
            } else {
                metadata is None
            },
{
    proof {
        reveal_strlit("content_id");
        reveal_strlit("title_ja");
        reveal_strlit("title");
        reveal_strlit("release_date");
        reveal_strlit("runtime_mins");
        reveal_strlit("runtime_minutes");
        reveal_strlit("actresses");
        reveal_strlit("r18.dev");
        reveal_strlit(" min");
    }
    let members = match root {
        JsonValue::Object(members) => members,
        _ => return None,
    };
    let id = match member(members, "content_id") {
        Some(JsonValue::String(id)) => id,
        _ => return None,
    };
    let exact = matches(id.as_str());
    proof {
        assert(content_id_of(*root) == Some(id@));
        assert(content_id_answered(matches, content_id_of(*root)->0, exact));
    }
    if !exact {
        return None;
    }
    let title = filled_text_exec(first_present_exec(members, "title_ja", "title"));
    let date = match member(members, "release_date") {
        Some(JsonValue::String(s)) => {
            if valid_date(s.as_str()) {
                Some(s.clone())
            } else {
                None
            }
        },
        _ => None,
    };
    let runtime = match stated_minutes_exec(first_present_exec(members, "runtime_mins", "runtime_minutes")) {
        Some(n) => {
            let mut text = decimal_string_of(n);
            push_str(&mut text, " min");
            Some(text)
        },
        None => None,
    };
    let cast = match member(members, "actresses") {
        Some(JsonValue::Array(items)) => actress_names_exec(items),
        _ => Vec::new(),
    };
    if title.is_none() && date.is_none() && runtime.is_none() && cast.len() == 0 {
        return None;
    }
    let metadata = PresentationMetadata {
        verified_identity: None,
        identity_conflict: false,
        source: Some(owned("r18.dev")),
        provider_id: Some(id.clone()),
        display_code: Some(owned(display_code)),
        title,
        date,
        runtime,
        cast,
    };
    assert(metadata@ =~= spec_metadata_from_legacy(members@, id@, display_code@)->0);
    Some(metadata)
}

} // verus!
