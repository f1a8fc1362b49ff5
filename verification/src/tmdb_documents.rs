//! What TMDB's search and details documents give: the candidates a search offers, and the
//! association that a show's verified details make.
use vstd::prelude::*;

use crate::json::{json_member, json_text, json_text_exec, json_u64, json_u64_exec, member, JsonValue};
use crate::movies_library::MovieMetadataCandidate;
use crate::tv_library::{TvMetadataCandidate, TvMetadataSearch, TV_METADATA_MALFORMED};
use crate::text::spec_parse_unsigned;
use crate::tv_scan::owned;
use crate::tv_store::{
    blank, byte_len, canonical_imdb_id, contains_control, copy_anchors, has_control, is_blank,
    optional_view, spec_association_valid, spec_canonical_imdb_id, spec_valid_date, text_byte_len,
    valid_tv_metadata_date, validate_tv_metadata_association, TvAssociationView,
    TvMetadataAssociation,
};

verus! {

/// A movie provider document that does not have the expected shape.
pub const MOVIE_METADATA_MALFORMED: &'static str = "movie_metadata_malformed_provider";

/// Most candidates a search document may offer.
pub const METADATA_MAX_CANDIDATES: usize = 100;

/// Most bytes of a name, title or original name.
pub const METADATA_MAX_NAME_BYTES: usize = 16384;

/// Most bytes of an overview.
pub const METADATA_MAX_OVERVIEW_BYTES: usize = 262144;

/// An optional text member: absent, null or blank is none; a string within `max` bytes is
/// kept; anything else is malformed.
pub open spec fn optional_json_text(value: Option<JsonValue>, max: nat) -> Result<Option<String>, ()> {
    match value {
        None => Ok(None),
        Some(JsonValue::Null) => Ok(None),
        Some(JsonValue::String(s)) => if is_blank(s@) {
            Ok(None)
        } else if byte_len(s@) <= max {
            Ok(Some(s))
        } else {
            Err(())
        },
        _ => Err(()),
    }
}

/// An optional date member: absent, null or empty is none; a `YYYY-MM-DD` string is kept;
/// anything else is malformed.
pub open spec fn optional_json_date(value: Option<JsonValue>) -> Result<Option<String>, ()> {
    match value {
        None => Ok(None),
        Some(JsonValue::Null) => Ok(None),
        Some(JsonValue::String(s)) => if s@.len() == 0 {
            Ok(None)
        } else if spec_valid_date(s@) {
            Ok(Some(s))
        } else {
            Err(())
        },
        _ => Err(()),
    }
}

/// An optional poster member: absent or null is none; a path starting with `/`, within 16 KiB
/// and without control characters is kept; anything else is malformed.
pub open spec fn optional_json_poster(value: Option<JsonValue>) -> Result<Option<String>, ()> {
    match value {
        None => Ok(None),
        Some(JsonValue::Null) => Ok(None),
        Some(JsonValue::String(s)) => if s@.len() > 0 && s@[0] == '/' && byte_len(s@)
            <= METADATA_MAX_NAME_BYTES && !has_control(s@) {
            Ok(Some(s))
        } else {
            Err(())
        },
        _ => Err(()),
    }
}

/// A required name member: a string that is not blank and fits 16 KiB.
pub open spec fn required_json_name(value: Option<JsonValue>) -> Option<String> {
    match json_text(value) {
        Some(s) => if !is_blank(s@) && byte_len(s@) <= METADATA_MAX_NAME_BYTES {
            Some(s)
        } else {
            None
        },
        None => None,
    }
}

fn optional_text_member(members: &Vec<(String, JsonValue)>, key: &str, max: usize) -> (result: Result<
    Option<String>,
    (),
>)
    ensures
        result == optional_json_text(json_member(members@, key@), max as nat),
{
    match member(members, key) {
        None => Ok(None),
        Some(JsonValue::Null) => Ok(None),
        Some(JsonValue::String(s)) => if blank(s.as_str()) {
            Ok(None)
        } else if text_byte_len(s) <= max {
            Ok(Some(s.clone()))
        } else {
            Err(())
        },
        Some(_) => Err(()),
    }
}

fn optional_date_member(members: &Vec<(String, JsonValue)>, key: &str) -> (result: Result<
    Option<String>,
    (),
>)
    ensures
        result == optional_json_date(json_member(members@, key@)),
{
    match member(members, key) {
        None => Ok(None),
        Some(JsonValue::Null) => Ok(None),
        Some(JsonValue::String(s)) => if crate::text::chars_of(s.as_str()).len() == 0 {
            Ok(None)
        } else if valid_tv_metadata_date(s.as_str()) {
            Ok(Some(s.clone()))
        } else {
            Err(())
        },
        Some(_) => Err(()),
    }
}

fn optional_poster_member(members: &Vec<(String, JsonValue)>) -> (result: Result<Option<String>, ()>)
    ensures
        result == optional_json_poster(json_member(members@, "poster_path"@)),
{
    proof {
        reveal_strlit("poster_path");
    }
    match member(members, "poster_path") {
        None => Ok(None),
        Some(JsonValue::Null) => Ok(None),
        Some(JsonValue::String(s)) => {
            let chars = crate::text::chars_of(s.as_str());
            if chars.len() > 0 && chars[0] == '/' && text_byte_len(s) <= METADATA_MAX_NAME_BYTES
                && !contains_control(s.as_str()) {
                Ok(Some(s.clone()))
            } else {
                Err(())
            }
        },
        Some(_) => Err(()),
    }
}

fn required_name_member(members: &Vec<(String, JsonValue)>, key: &str) -> (name: Option<String>)
    ensures
        name == required_json_name(json_member(members@, key@)),
{
    match json_text_exec(member(members, key)) {
        Some(s) => if !blank(s.as_str()) && text_byte_len(&s) <= METADATA_MAX_NAME_BYTES {
            Some(s)
        } else {
            None
        },
        None => None,
    }
}

/// The show a search result offers: an object with a positive id, a name, and well-formed
/// optional original name, first air date and poster.
pub open spec fn spec_tv_candidate(value: JsonValue) -> Option<TvMetadataCandidate> {
    match value {
        JsonValue::Object(members) => {
            let m = members@;
            let id = json_u64(json_member(m, "id"@));
            let name = required_json_name(json_member(m, "name"@));
            let original = optional_json_text(
                json_member(m, "original_name"@),
                METADATA_MAX_NAME_BYTES as nat,
            );
            let date = optional_json_date(json_member(m, "first_air_date"@));
            let poster = optional_json_poster(json_member(m, "poster_path"@));
            if id is Some && id->0 > 0 && name is Some && original is Ok && date is Ok
                && poster is Ok {
                Some(
                    TvMetadataCandidate {
                        tmdb_tv_id: id->0,
                        name: name->0,
                        original_name: original->Ok_0,
                        first_air_date: date->Ok_0,
                        poster_path: poster->Ok_0,
                    },
                )
            } else {
                None
            }
        },
        _ => None,
    }
}

/// The movie a search result offers: an object with a positive id, a title, and well-formed
/// optional original title, release date and poster.
pub open spec fn spec_movie_candidate(value: JsonValue) -> Option<MovieMetadataCandidate> {
    match value {
        JsonValue::Object(members) => {
            let m = members@;
            let id = json_u64(json_member(m, "id"@));
            let title = required_json_name(json_member(m, "title"@));
            let original = optional_json_text(
                json_member(m, "original_title"@),
                METADATA_MAX_NAME_BYTES as nat,
            );
            let date = optional_json_date(json_member(m, "release_date"@));
            let poster = optional_json_poster(json_member(m, "poster_path"@));
            if id is Some && id->0 > 0 && title is Some && original is Ok && date is Ok
                && poster is Ok {
                Some(
                    MovieMetadataCandidate {
                        tmdb_movie_id: id->0,
                        title: title->0,
                        original_title: original->Ok_0,
                        release_date: date->Ok_0,
                        poster_path: poster->Ok_0,
                    },
                )
            } else {
                None
            }
        },
        _ => None,
    }
}

/// The results array of a search document: the document is an object whose `results`
/// member is an array.
pub open spec fn search_results(document: Option<JsonValue>) -> Option<Seq<JsonValue>> {
    match document {
        Some(JsonValue::Object(members)) => match json_member(members@, "results"@) {
            Some(JsonValue::Array(items)) => Some(items@),
            _ => None,
        },
        _ => None,
    }
}

/// The shows a TV search document offers, in order: at most `METADATA_MAX_CANDIDATES`
/// results, each a well-formed show, no id twice; anything else is malformed.
pub open spec fn spec_tv_metadata_candidates(document: Option<JsonValue>) -> Result<
    Seq<TvMetadataCandidate>,
    &'static str,
> {
    let results = search_results(document);
    if results is None || results->0.len() > METADATA_MAX_CANDIDATES {
        Err(TV_METADATA_MALFORMED)
    } else {
        let items = results->0;
        if (forall|i: int| 0 <= i < items.len() ==> (#[trigger] spec_tv_candidate(items[i])) is Some)
            && (forall|i: int, j: int|
            0 <= i < j < items.len() ==> (#[trigger] spec_tv_candidate(items[i]))->0.tmdb_tv_id
                != (#[trigger] spec_tv_candidate(items[j]))->0.tmdb_tv_id) {
            Ok(items.map_values(|v: JsonValue| spec_tv_candidate(v)->0))
        } else {
            Err(TV_METADATA_MALFORMED)
        }
    }
}

/// The movies a movie search document offers, under the same rules.
pub open spec fn spec_movie_metadata_candidates(document: Option<JsonValue>) -> Result<
    Seq<MovieMetadataCandidate>,
    &'static str,
> {
    let results = search_results(document);
    if results is None || results->0.len() > METADATA_MAX_CANDIDATES {
        Err(MOVIE_METADATA_MALFORMED)
    } else {
        let items = results->0;
        if (forall|i: int|
            0 <= i < items.len() ==> (#[trigger] spec_movie_candidate(items[i])) is Some) && (
        forall|i: int, j: int|
            0 <= i < j < items.len() ==> (#[trigger] spec_movie_candidate(items[i]))->0.tmdb_movie_id
                != (#[trigger] spec_movie_candidate(items[j]))->0.tmdb_movie_id) {
            Ok(items.map_values(|v: JsonValue| spec_movie_candidate(v)->0))
        } else {
            Err(MOVIE_METADATA_MALFORMED)
        }
    }
}

/// Whether `c` carries what search result `item` says: the result is an object whose `id` is
/// that number, whose `title` is that string, and whose `poster_path` is that path (a
/// string member is kept as it is; an absent or null one is no poster).
pub open spec fn movie_candidate_from(c: MovieMetadataCandidate, item: JsonValue) -> bool {
    match item {
        JsonValue::Object(members) => {
            let m = members@;
            &&& json_member(m, "id"@) matches Some(JsonValue::Number(n)) && spec_parse_unsigned(
                n@,
                u64::MAX as nat,
            ) == Some(c.tmdb_movie_id as nat)
            &&& json_member(m, "title"@) matches Some(JsonValue::String(t)) && t == c.title
            &&& json_member(m, "release_date"@) matches Some(JsonValue::String(d)) ==> (d@.len() > 0
                ==> c.release_date == Some(d))
            &&& json_member(m, "original_title"@) matches Some(JsonValue::String(o)) ==> (!is_blank(o@)
                ==> c.original_title == Some(o))
            &&& json_member(m, "poster_path"@) matches Some(JsonValue::String(p)) ==> c.poster_path
                == Some(p)
            &&& (json_member(m, "poster_path"@) is None || json_member(m, "poster_path"@) == Some(
                JsonValue::Null,
            )) ==> c.poster_path is None
        },
        _ => false,
    }
}

/// The same for a show and its `name`.
pub open spec fn tv_candidate_from(c: TvMetadataCandidate, item: JsonValue) -> bool {
    match item {
        JsonValue::Object(members) => {
            let m = members@;
            &&& json_member(m, "id"@) matches Some(JsonValue::Number(n)) && spec_parse_unsigned(
                n@,
                u64::MAX as nat,
            ) == Some(c.tmdb_tv_id as nat)
            &&& json_member(m, "name"@) matches Some(JsonValue::String(t)) && t == c.name
            &&& json_member(m, "first_air_date"@) matches Some(JsonValue::String(d)) ==> (d@.len() > 0
                ==> c.first_air_date == Some(d))
            &&& json_member(m, "original_name"@) matches Some(JsonValue::String(o)) ==> (!is_blank(o@)
                ==> c.original_name == Some(o))
            &&& json_member(m, "poster_path"@) matches Some(JsonValue::String(p)) ==> c.poster_path
                == Some(p)
            &&& (json_member(m, "poster_path"@) is None || json_member(m, "poster_path"@) == Some(
                JsonValue::Null,
            )) ==> c.poster_path is None
        },
        _ => false,
    }
}

/// The candidates a movie search offers are its results, one for one and in order, each
/// carrying the result's id, title and poster path.
pub proof fn law_movie_candidates_carry_their_results(document: Option<JsonValue>)
    ensures
        spec_movie_metadata_candidates(document) matches Ok(candidates) ==> {
            &&& search_results(document) is Some
            &&& candidates.len() == search_results(document)->0.len()
            &&& forall|k: int|
                0 <= k < candidates.len() ==> movie_candidate_from(
                    #[trigger] candidates[k],
                    search_results(document)->0[k],
                )
        },
{
    if spec_movie_metadata_candidates(document) is Ok {
        let items = search_results(document)->0;
        let candidates = spec_movie_metadata_candidates(document)->Ok_0;
        assert forall|k: int| 0 <= k < candidates.len() implies movie_candidate_from(
            #[trigger] candidates[k],
            items[k],
        ) by {
            assert(spec_movie_candidate(items[k]) is Some);
            assert(candidates[k] == spec_movie_candidate(items[k])->0);
        }
    }
}

/// The candidates a TV search offers are its results, one for one and in order, each
/// carrying the result's id, name and poster path.
pub proof fn law_tv_candidates_carry_their_results(document: Option<JsonValue>)
    ensures
        spec_tv_metadata_candidates(document) matches Ok(candidates) ==> {
            &&& search_results(document) is Some
            &&& candidates.len() == search_results(document)->0.len()
            &&& forall|k: int|
                0 <= k < candidates.len() ==> tv_candidate_from(
                    #[trigger] candidates[k],
                    search_results(document)->0[k],
                )
        },
{
    if spec_tv_metadata_candidates(document) is Ok {
        let items = search_results(document)->0;
        let candidates = spec_tv_metadata_candidates(document)->Ok_0;
        assert forall|k: int| 0 <= k < candidates.len() implies tv_candidate_from(
            #[trigger] candidates[k],
            items[k],
        ) by {
            assert(spec_tv_candidate(items[k]) is Some);
            assert(candidates[k] == spec_tv_candidate(items[k])->0);
        }
    }
}

fn tv_candidate(value: &JsonValue) -> (candidate: Option<TvMetadataCandidate>)
    ensures
        candidate == spec_tv_candidate(*value),
{
    proof {
        reveal_strlit("id");
        reveal_strlit("name");
        reveal_strlit("original_name");
        reveal_strlit("first_air_date");
    }
    let members = match value {
        JsonValue::Object(members) => members,
        _ => return None,
    };
    let id = match json_u64_exec(member(members, "id")) {
        Some(id) => id,
        None => return None,
    };
    let name = required_name_member(members, "name");
    let original = optional_text_member(members, "original_name", METADATA_MAX_NAME_BYTES);
    let date = optional_date_member(members, "first_air_date");
    let poster = optional_poster_member(members);
    if id == 0 {
        return None;
    }
    match (name, original, date, poster) {
        (Some(name), Ok(original_name), Ok(first_air_date), Ok(poster_path)) => Some(
            TvMetadataCandidate { tmdb_tv_id: id, name, original_name, first_air_date, poster_path },
        ),
        _ => None,
    }
}

fn movie_candidate(value: &JsonValue) -> (candidate: Option<MovieMetadataCandidate>)
    ensures
        candidate == spec_movie_candidate(*value),
{
    proof {
        reveal_strlit("id");
        reveal_strlit("title");
        reveal_strlit("original_title");
        reveal_strlit("release_date");
    }
    let members = match value {
        JsonValue::Object(members) => members,
        _ => return None,
    };
    let id = match json_u64_exec(member(members, "id")) {
        Some(id) => id,
        None => return None,
    };
    let title = required_name_member(members, "title");
    let original = optional_text_member(members, "original_title", METADATA_MAX_NAME_BYTES);
    let date = optional_date_member(members, "release_date");
    let poster = optional_poster_member(members);
    if id == 0 {
        return None;
    }
    match (title, original, date, poster) {
        (Some(title), Ok(original_title), Ok(release_date), Ok(poster_path)) => Some(
            MovieMetadataCandidate { tmdb_movie_id: id, title, original_title, release_date, poster_path },
        ),
        _ => None,
    }
}

fn results_of(document: &Option<JsonValue>) -> (results: Option<&Vec<JsonValue>>)
    ensures
        match results {
            Some(items) => search_results(*document) == Some(items@),
            None => search_results(*document) is None,
        },
{
    proof {
        reveal_strlit("results");
    }
    match document {
        Some(JsonValue::Object(members)) => match member(members, "results") {
            Some(JsonValue::Array(items)) => Some(items),
            _ => None,
        },
        _ => None,
    }
}

/// The shows a TV search document offers.
pub fn tv_metadata_candidates(document: &Option<JsonValue>) -> (result: Result<
    Vec<TvMetadataCandidate>,
    &'static str,
>)
    ensures
        match result {
            Ok(candidates) => spec_tv_metadata_candidates(*document) == Ok::<
                Seq<TvMetadataCandidate>,
                &'static str,
            >(candidates@),
            Err(e) => spec_tv_metadata_candidates(*document) == Err::<
                Seq<TvMetadataCandidate>,
                &'static str,
            >(e),
        },
{
    let items = match results_of(document) {
        None => return Err(TV_METADATA_MALFORMED),
        Some(items) => items,
    };
    if items.len() > METADATA_MAX_CANDIDATES {
        return Err(TV_METADATA_MALFORMED);
    }
    let mut candidates: Vec<TvMetadataCandidate> = Vec::new();
    let mut i: usize = 0;
    while i < items.len()
        invariant
            search_results(*document) == Some(items@),
            items@.len() <= METADATA_MAX_CANDIDATES,
            i <= items@.len(),
            candidates@.len() == i,
            forall|k: int| 0 <= k < i ==> spec_tv_candidate(#[trigger] items@[k]) == Some(
                candidates@[k],
            ),
            forall|a: int, b: int|
                0 <= a < b < i ==> (#[trigger] candidates@[a]).tmdb_tv_id
                    != (#[trigger] candidates@[b]).tmdb_tv_id,
        decreases items@.len() - i,
    {
        let candidate = match tv_candidate(&items[i]) {
            None => {
                assert(!(forall|j: int|
                    0 <= j < items@.len() ==> (#[trigger] spec_tv_candidate(items@[j])) is Some));
                return Err(TV_METADATA_MALFORMED);
            },
            Some(candidate) => candidate,
        };
        let mut k: usize = 0;
        while k < candidates.len()
            invariant
                search_results(*document) == Some(items@),
                items@.len() <= METADATA_MAX_CANDIDATES,
                k <= candidates@.len(),
                candidates@.len() == i,
                i < items@.len(),
                spec_tv_candidate(items@[i as int]) == Some(candidate),
                forall|k2: int| 0 <= k2 < i ==> spec_tv_candidate(#[trigger] items@[k2]) == Some(
                    candidates@[k2],
                ),
                forall|a: int| 0 <= a < k ==> (#[trigger] candidates@[a]).tmdb_tv_id
                    != candidate.tmdb_tv_id,
            decreases candidates@.len() - k,
        {
            if candidates[k].tmdb_tv_id == candidate.tmdb_tv_id {
                assert(spec_tv_candidate(items@[k as int])->0.tmdb_tv_id == spec_tv_candidate(
                    items@[i as int],
                )->0.tmdb_tv_id);
                assert(!(forall|a: int, b: int|
                    0 <= a < b < items@.len() ==> (#[trigger] spec_tv_candidate(items@[a]))->0.tmdb_tv_id
                        != (#[trigger] spec_tv_candidate(items@[b]))->0.tmdb_tv_id));
                return Err(TV_METADATA_MALFORMED);
            }
            k = k + 1;
        }
        candidates.push(candidate);
        i = i + 1;
    }
    assert(candidates@ =~= items@.map_values(|v: JsonValue| spec_tv_candidate(v)->0));
    Ok(candidates)
}

/// The movies a movie search document offers.
pub fn movie_metadata_candidates(document: &Option<JsonValue>) -> (result: Result<
    Vec<MovieMetadataCandidate>,
    &'static str,
>)
    ensures
        match result {
            Ok(candidates) => spec_movie_metadata_candidates(*document) == Ok::<
                Seq<MovieMetadataCandidate>,
                &'static str,
            >(candidates@),
            Err(e) => spec_movie_metadata_candidates(*document) == Err::<
                Seq<MovieMetadataCandidate>,
                &'static str,
            >(e),
        },
{
    let items = match results_of(document) {
        None => return Err(MOVIE_METADATA_MALFORMED),
        Some(items) => items,
    };
    if items.len() > METADATA_MAX_CANDIDATES {
        return Err(MOVIE_METADATA_MALFORMED);
    }
    let mut candidates: Vec<MovieMetadataCandidate> = Vec::new();
    let mut i: usize = 0;
    while i < items.len()
        invariant
            search_results(*document) == Some(items@),
            items@.len() <= METADATA_MAX_CANDIDATES,
            i <= items@.len(),
            candidates@.len() == i,
            forall|k: int| 0 <= k < i ==> spec_movie_candidate(#[trigger] items@[k]) == Some(
                candidates@[k],
            ),
            forall|a: int, b: int|
                0 <= a < b < i ==> (#[trigger] candidates@[a]).tmdb_movie_id
                    != (#[trigger] candidates@[b]).tmdb_movie_id,
        decreases items@.len() - i,
    {
        let candidate = match movie_candidate(&items[i]) {
            None => {
                assert(!(forall|j: int|
                    0 <= j < items@.len() ==> (#[trigger] spec_movie_candidate(items@[j])) is Some));
                return Err(MOVIE_METADATA_MALFORMED);
            },
            Some(candidate) => candidate,
        };
        let mut k: usize = 0;
        while k < candidates.len()
            invariant
                search_results(*document) == Some(items@),
                items@.len() <= METADATA_MAX_CANDIDATES,
                k <= candidates@.len(),
                candidates@.len() == i,
                i < items@.len(),
                spec_movie_candidate(items@[i as int]) == Some(candidate),
                forall|k2: int| 0 <= k2 < i ==> spec_movie_candidate(#[trigger] items@[k2]) == Some(
                    candidates@[k2],
                ),
                forall|a: int| 0 <= a < k ==> (#[trigger] candidates@[a]).tmdb_movie_id
                    != candidate.tmdb_movie_id,
            decreases candidates@.len() - k,
        {
            if candidates[k].tmdb_movie_id == candidate.tmdb_movie_id {
                assert(spec_movie_candidate(items@[k as int])->0.tmdb_movie_id
                    == spec_movie_candidate(items@[i as int])->0.tmdb_movie_id);
                assert(!(forall|a: int, b: int|
                    0 <= a < b < items@.len() ==> (#[trigger] spec_movie_candidate(items@[a]))->0.tmdb_movie_id
                        != (#[trigger] spec_movie_candidate(items@[b]))->0.tmdb_movie_id));
                return Err(MOVIE_METADATA_MALFORMED);
            }
            k = k + 1;
        }
        candidates.push(candidate);
        i = i + 1;
    }
    assert(candidates@ =~= items@.map_values(|v: JsonValue| spec_movie_candidate(v)->0));
    Ok(candidates)
}

/// The association that a show's verified details make for the group a search was made for:
/// the details and external ids documents are objects whose `id` is `tmdb_tv_id`; the
/// external ids hold an IMDb id in canonical form; the details a name and well-formed optional
/// original name, first air date, poster and overview; and the association must be one the
/// store accepts. Anything else is malformed.
pub open spec fn spec_verified_tv_association(
    search: TvMetadataSearch,
    tmdb_tv_id: u64,
    details: Option<JsonValue>,
    external_ids: Option<JsonValue>,
) -> Result<TvAssociationView, &'static str> {
    match details {
        Some(JsonValue::Object(d)) => match external_ids {
            Some(JsonValue::Object(e)) => {
                let dm = d@;
                let em = e@;
                let imdb = json_text(json_member(em, "imdb_id"@));
                let name = required_json_name(json_member(dm, "name"@));
                let original = optional_json_text(
                    json_member(dm, "original_name"@),
                    METADATA_MAX_NAME_BYTES as nat,
                );
                let date = optional_json_date(json_member(dm, "first_air_date"@));
                let poster = optional_json_poster(json_member(dm, "poster_path"@));
                let overview = optional_json_text(
                    json_member(dm, "overview"@),
                    METADATA_MAX_OVERVIEW_BYTES as nat,
                );
                if json_u64(json_member(dm, "id"@)) != Some(tmdb_tv_id) || json_u64(
                    json_member(em, "id"@),
                ) != Some(tmdb_tv_id) {
                    Err(TV_METADATA_MALFORMED)
                } else if imdb is Some && spec_canonical_imdb_id(imdb->0@) && name is Some
                    && original is Ok && date is Ok && poster is Ok && overview is Ok {
                    let association = TvAssociationView {
                        folder: search.authority.folder@,
                        folder_identity: search.authority.folder_identity@,
                        local_show_title: search.authority.local_show_title@,
                        anchors: search.authority@.anchors,
                        tmdb_tv_id,
                        imdb_id: imdb->0@,
                        name: name->0@,
                        original_name: optional_view(original->Ok_0),
                        first_air_date: optional_view(date->Ok_0),
                        poster_path: optional_view(poster->Ok_0),
                        overview: optional_view(overview->Ok_0),
                        generation: 1,
                    };
                    if spec_association_valid(association) {
                        Ok(association)
                    } else {
                        Err(TV_METADATA_MALFORMED)
                    }
                } else {
                    Err(TV_METADATA_MALFORMED)
                }
            },
            _ => Err(TV_METADATA_MALFORMED),
        },
        _ => Err(TV_METADATA_MALFORMED),
    }
}

/// The association that a show's verified details make for the group `search` was made for.
pub fn verified_tv_association(
    search: &TvMetadataSearch,
    tmdb_tv_id: u64,
    details: &Option<JsonValue>,
    external_ids: &Option<JsonValue>,
) -> (result: Result<TvMetadataAssociation, &'static str>)
    ensures
        match result {
            Ok(a) => spec_verified_tv_association(*search, tmdb_tv_id, *details, *external_ids)
                == Ok::<TvAssociationView, &'static str>(a@),
            Err(e) => spec_verified_tv_association(*search, tmdb_tv_id, *details, *external_ids)
                == Err::<TvAssociationView, &'static str>(e),
        },
{
    proof {
        reveal_strlit("id");
        reveal_strlit("imdb_id");
        reveal_strlit("name");
        reveal_strlit("original_name");
        reveal_strlit("first_air_date");
        reveal_strlit("overview");
    }
    let d = match details {
        Some(JsonValue::Object(d)) => d,
        _ => return Err(TV_METADATA_MALFORMED),
    };
    let e = match external_ids {
        Some(JsonValue::Object(e)) => e,
        _ => return Err(TV_METADATA_MALFORMED),
    };
    if json_u64_exec(member(d, "id")) != Some(tmdb_tv_id) || json_u64_exec(member(e, "id"))
        != Some(tmdb_tv_id) {
        return Err(TV_METADATA_MALFORMED);
    }
    let imdb_id = match json_text_exec(member(e, "imdb_id")) {
        Some(id) => if canonical_imdb_id(id.as_str()) {
            id
        } else {
            return Err(TV_METADATA_MALFORMED);
        },
        None => return Err(TV_METADATA_MALFORMED),
    };
    let name = match required_name_member(d, "name") {
        Some(name) => name,
        None => return Err(TV_METADATA_MALFORMED),
    };
    let original_name = match optional_text_member(d, "original_name", METADATA_MAX_NAME_BYTES) {
        Ok(v) => v,
        Err(()) => return Err(TV_METADATA_MALFORMED),
    };
    let first_air_date = match optional_date_member(d, "first_air_date") {
        Ok(v) => v,
        Err(()) => return Err(TV_METADATA_MALFORMED),
    };
    let poster_path = match optional_poster_member(d) {
        Ok(v) => v,
        Err(()) => return Err(TV_METADATA_MALFORMED),
    };
    let overview = match optional_text_member(d, "overview", METADATA_MAX_OVERVIEW_BYTES) {
        Ok(v) => v,
        Err(()) => return Err(TV_METADATA_MALFORMED),
    };
    let anchors = copy_anchors(&search.authority.anchors);
    let association = TvMetadataAssociation {
        folder: search.authority.folder.clone(),
        folder_identity: search.authority.folder_identity.clone(),
        local_show_title: search.authority.local_show_title.clone(),
        anchors,
        tmdb_tv_id,
        imdb_id,
        name,
        original_name,
        first_air_date,
        poster_path,
        overview,
        generation: 1,
    };
    assert(association@.anchors =~= search.authority@.anchors);
    match validate_tv_metadata_association(&association) {
        Ok(()) => Ok(association),
        Err(_) => Err(TV_METADATA_MALFORMED),
    }
}

} // verus!
