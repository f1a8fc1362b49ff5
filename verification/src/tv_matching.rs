//! Matching a local show group to a TMDB show: a search bound to the group's authority, its
//! candidates, and the verification of one candidate, each step checked against the
//! operation in progress and the group as it stands.
use vstd::prelude::*;
use vstd::utf8::encode_utf8;

use crate::digest::{hex_sha1, spec_hex_sha1};
use crate::text::{decimal_string, decimal_string_of, push_char, push_str, same_text};
use crate::tv_library::{
    copy_authority, current_authority, next_count, observed_members, spec_member_paths,
    scan_current, pending_verification, spec_authority_check, spec_tv_metadata_authority,
    validate_tv_metadata_authority, TvAuthorityView, TvFileObservation, TvLibraryState,
    TvMetadataCandidate, TvMetadataSearch, TvMetadataVerification, TV_METADATA_CONTEXT_INVALID,
};
use crate::tv_scan::{association_fields, encode_tv_metadata_association, owned, push_all, texts};
use crate::tv_store::{
    blank, byte_len, contains_control, copy_optional_text, has_control, is_blank, optional_str,
    optional_text, optional_view, TvMetadataAssociation,
};

verus! {

/// Longest accepted search query, in bytes.
pub const TV_METADATA_MAX_QUERY_BYTES: usize = 512;

/// Whether a search query may be sent: not blank, at most `TV_METADATA_MAX_QUERY_BYTES`
/// bytes, and without control characters.
pub open spec fn query_acceptable(query: Seq<char>) -> bool {
    !is_blank(query) && byte_len(query) <= TV_METADATA_MAX_QUERY_BYTES && !has_control(query)
}

/// What identifies an access token without keeping it: the SHA-1 of its bytes.
pub open spec fn token_identity(token: Seq<char>) -> Seq<char> {
    spec_hex_sha1(encode_utf8(token))
}

/// The generation that the next metadata operation after `g` gets; never zero.
pub open spec fn next_operation(g: u64) -> u64 {
    if next_count(g) == 0 {
        1
    } else {
        next_count(g)
    }
}

/// The text whose SHA-1 identifies a search: its parts separated by NUL characters.
pub open spec fn search_request_text(
    operation_generation: u64,
    group_id: Seq<char>,
    local_show_title: Seq<char>,
    query: Seq<char>,
    token_identity: Seq<char>,
) -> Seq<char> {
    "tv-search"@ + seq!['\0'] + decimal_string(operation_generation as nat) + seq!['\0']
        + group_id + seq!['\0'] + local_show_title + seq!['\0'] + query + seq!['\0']
        + token_identity
}

/// The text whose SHA-1 identifies a verification.
pub open spec fn verification_text(
    operation_generation: u64,
    request_id: Seq<char>,
    tmdb_tv_id: u64,
    imdb_id: Seq<char>,
) -> Seq<char> {
    "tv-verify"@ + seq!['\0'] + decimal_string(operation_generation as nat) + seq!['\0']
        + request_id + seq!['\0'] + decimal_string(tmdb_tv_id as nat) + seq!['\0'] + imdb_id
}

/// `state` with the client generation `client_generation` accepted.
pub open spec fn with_client(state: TvLibraryState, client_generation: u64) -> TvLibraryState {
    TvLibraryState { metadata_client_generation: client_generation, ..state }
}

/// Whether a client operation of `client_generation` is newer than every one seen.
pub open spec fn client_accepted(state: TvLibraryState, client_generation: u64) -> bool {
    client_generation != 0 && client_generation > state.metadata_client_generation
}

/// Whether `search` is the fresh search that `begin_tv_metadata_search` records.
pub open spec fn is_begun_search(
    search: TvMetadataSearch,
    operation_generation: u64,
    authority: TvAuthorityView,
    query: Seq<char>,
    token: Seq<char>,
) -> bool {
    &&& search.operation_generation == operation_generation
    &&& search.authority@ == authority
    &&& search.query@ == query
    &&& search.token_identity@ == token_identity(token)
    &&& search.candidates@.len() == 0
    &&& search.request_id@ == spec_hex_sha1(
        encode_utf8(
            search_request_text(
                operation_generation,
                authority.group_id,
                authority.local_show_title,
                query,
                token_identity(token),
            ),
        ),
    )
}

/// The outcome of beginning a search for group `group_id` once the client was accepted,
/// given what was observed of the group's members.
pub open spec fn search_begun(
    before: TvLibraryState,
    after: TvLibraryState,
    result: Result<(u64, String), &'static str>,
    group_id: Seq<char>,
    query: Seq<char>,
    token: Seq<char>,
    client_generation: u64,
    seen: Seq<TvFileObservation>,
) -> bool {
    match spec_tv_metadata_authority(before, group_id, seen) {
        Err(e) => result == Err::<(u64, String), &'static str>(e) && after == with_client(
            before,
            client_generation,
        ),
        Ok(authority) => {
            let g = next_operation(before.metadata_operation_generation);
            &&& after.same_library(before)
            &&& after.metadata_client_generation == client_generation
            &&& after.metadata_operation_generation == g
            &&& after.metadata_verification is None
            &&& after.metadata_search matches Some(search) && is_begun_search(
                search,
                g,
                authority,
                query,
                token,
            ) && result == Ok::<(u64, String), &'static str>((g, search.request_id))
        },
    }
}

/// Builds the text whose SHA-1 identifies a search.
fn search_request_exec(
    operation_generation: u64,
    group_id: &str,
    local_show_title: &str,
    query: &str,
    token_identity: &str,
) -> (text: String)
    ensures
        text@ == search_request_text(
            operation_generation,
            group_id@,
            local_show_title@,
            query@,
            token_identity@,
        ),
{
    let mut text = owned("tv-search");
    proof {
        reveal_strlit("tv-search");
    }
    push_char(&mut text, '\0');
    let number = decimal_string_of(operation_generation);
    push_str(&mut text, number.as_str());
    push_char(&mut text, '\0');
    push_str(&mut text, group_id);
    push_char(&mut text, '\0');
    push_str(&mut text, local_show_title);
    push_char(&mut text, '\0');
    push_str(&mut text, query);
    push_char(&mut text, '\0');
    push_str(&mut text, token_identity);
    text
}

/// Builds the text whose SHA-1 identifies a verification.
fn verification_exec(
    operation_generation: u64,
    request_id: &str,
    tmdb_tv_id: u64,
    imdb_id: &str,
) -> (text: String)
    ensures
        text@ == verification_text(operation_generation, request_id@, tmdb_tv_id, imdb_id@),
{
    let mut text = owned("tv-verify");
    proof {
        reveal_strlit("tv-verify");
    }
    push_char(&mut text, '\0');
    let number = decimal_string_of(operation_generation);
    push_str(&mut text, number.as_str());
    push_char(&mut text, '\0');
    push_str(&mut text, request_id);
    push_char(&mut text, '\0');
    let id = decimal_string_of(tmdb_tv_id);
    push_str(&mut text, id.as_str());
    push_char(&mut text, '\0');
    push_str(&mut text, imdb_id);
    text
}

/// Whether a search query may be sent.
pub fn acceptable_query(query: &str) -> (b: bool)
    ensures
        b == query_acceptable(query@),
{
    !blank(query) && query.as_bytes().len() <= TV_METADATA_MAX_QUERY_BYTES && !contains_control(query)
}

/// Begins a TMDB search for group `group_id`: the query must be acceptable, the token not
/// blank and the client generation newer than every one seen; the group's members are
/// observed through `observe` and its authority established. The search is recorded with a
/// new operation generation, any pending verification is dropped, and the operation
/// generation and the search's request id are returned.
pub fn begin_tv_metadata_search(
    state: &mut TvLibraryState,
    group_id: &str,
    query: &str,
    token: &str,
    client_generation: u64,
    observe: impl Fn(String) -> TvFileObservation,
) -> (result: Result<(u64, String), &'static str>)
    requires
        forall|p: String| call_requires(observe, (p,)),
    ensures
        !query_acceptable(query@) || is_blank(token@) || !client_accepted(
            *old(state),
            client_generation,
        ) ==> result == Err::<(u64, String), &'static str>(TV_METADATA_CONTEXT_INVALID)
            && *final(state) == *old(state),
        query_acceptable(query@) && !is_blank(token@) && client_accepted(
            *old(state),
            client_generation,
        ) ==> exists|seen: Seq<TvFileObservation>|
            observed_members(*old(state), group_id@, observe, seen) && search_begun(
                *old(state),
                *final(state),
                result,
                group_id@,
                query@,
                token@,
                client_generation,
                seen,
            ),
{
    if !acceptable_query(query) || blank(token) {
        return Err(TV_METADATA_CONTEXT_INVALID);
    }
    let ghost start = *state;
    match state.begin_tv_metadata_client_operation(client_generation) {
        Err(e) => return Err(e),
        Ok(()) => {},
    }
    assert(*state == with_client(start, client_generation));
    let (found, seen) = current_authority(state, group_id, &observe);
    proof {
        assert(spec_member_paths(start, group_id@) == spec_member_paths(*state, group_id@));
        assert(spec_tv_metadata_authority(start, group_id@, seen@) == spec_tv_metadata_authority(
            *state,
            group_id@,
            seen@,
        ));
        assert(observed_members(start, group_id@, observe, seen@));
    }
    let authority = match found {
        Err(e) => {
            assert(search_begun(start, *state, Err(e), group_id@, query@, token@, client_generation, seen@));
            return Err(e);
        },
        Ok(authority) => authority,
    };
    let operation_generation = state.next_tv_metadata_operation();
    let token_id = hex_sha1(token.as_bytes());
    let text = search_request_exec(
        operation_generation,
        authority.group_id.as_str(),
        authority.local_show_title.as_str(),
        query,
        token_id.as_str(),
    );
    let request_id = hex_sha1(text.as_str().as_bytes());
    let result_id = request_id.clone();
    state.metadata_verification = None;
    state.metadata_search = Some(
        TvMetadataSearch {
            request_id,
            operation_generation,
            authority,
            query: owned(query),
            token_identity: token_id,
            candidates: Vec::new(),
        },
    );
    let result = Ok((operation_generation, result_id));
    assert(search_begun(start, *state, result, group_id@, query@, token@, client_generation, seen@));
    result
}

/// The five response fields of a candidate: its TMDB id, name, original name, first air date
/// and poster path (absent ones empty).
pub open spec fn candidate_fields(c: TvMetadataCandidate) -> Seq<Seq<char>> {
    seq![
        decimal_string(c.tmdb_tv_id as nat),
        c.name@,
        optional_text(optional_view(c.original_name)),
        optional_text(optional_view(c.first_air_date)),
        optional_text(optional_view(c.poster_path)),
    ]
}

/// The response fields of candidates, five each.
pub open spec fn candidates_fields(candidates: Seq<TvMetadataCandidate>) -> Seq<Seq<char>>
    decreases candidates.len(),
{
    if candidates.len() == 0 {
        Seq::empty()
    } else {
        candidates_fields(candidates.drop_last()) + candidate_fields(candidates.last())
    }
}

/// The response to a search: its request id, the number of candidates, then each candidate.
pub open spec fn search_response(search: TvMetadataSearch) -> Seq<Seq<char>> {
    seq![search.request_id@, decimal_string(search.candidates@.len())] + candidates_fields(
        search.candidates@,
    )
}

/// Encodes the response to a search.
pub fn encode_tv_metadata_search(search: &TvMetadataSearch) -> (response: Vec<String>)
    ensures
        texts(response@) == search_response(*search),
{
    let mut response: Vec<String> = Vec::new();
    response.push(search.request_id.clone());
    response.push(decimal_string_of(search.candidates.len() as u64));
    assert(texts(response@) =~= seq![search.request_id@, decimal_string(search.candidates@.len())]);
    let mut k: usize = 0;
    while k < search.candidates.len()
        invariant
            k <= search.candidates@.len(),
            texts(response@) == seq![search.request_id@, decimal_string(search.candidates@.len())]
                + candidates_fields(search.candidates@.take(k as int)),
        decreases search.candidates@.len() - k,
    {
        let candidate = &search.candidates[k];
        let mut fields: Vec<String> = Vec::new();
        fields.push(decimal_string_of(candidate.tmdb_tv_id));
        fields.push(candidate.name.clone());
        fields.push(owned(optional_str(&candidate.original_name)));
        fields.push(owned(optional_str(&candidate.first_air_date)));
        fields.push(owned(optional_str(&candidate.poster_path)));
        assert(texts(fields@) =~= candidate_fields(*candidate));
        push_all(&mut response, fields);
        assert(search.candidates@.take(k + 1).drop_last() =~= search.candidates@.take(k as int));
        assert(texts(response@) =~= seq![search.request_id@, decimal_string(search.candidates@.len())]
            + candidates_fields(search.candidates@.take(k + 1)));
        k = k + 1;
    }
    assert(search.candidates@.take(search.candidates@.len() as int) =~= search.candidates@);
    response
}

/// Whether the search in progress is operation `operation_generation` with request id
/// `request_id`, begun with `token`.
pub open spec fn is_pending_search(
    state: TvLibraryState,
    operation_generation: u64,
    request_id: Seq<char>,
    token: Seq<char>,
) -> bool {
    state.metadata_search matches Some(s) && s.operation_generation == operation_generation
        && s.request_id@ == request_id && s.token_identity@ == token_identity(token)
}

/// Finishes the search in progress with the candidates that TMDB returned: the search must be
/// operation `operation_generation` with request id `request_id`, begun with `token`, and its
/// authority must still stand. The candidates are recorded and the search's response given.
pub fn finish_tv_metadata_search(
    state: &mut TvLibraryState,
    operation_generation: u64,
    request_id: &str,
    token: &str,
    candidates: Vec<TvMetadataCandidate>,
    observe: impl Fn(String) -> TvFileObservation,
) -> (result: Result<Vec<String>, &'static str>)
    requires
        forall|p: String| call_requires(observe, (p,)),
    ensures
        !is_pending_search(*old(state), operation_generation, request_id@, token@) ==> result
            == Err::<Vec<String>, &'static str>(TV_METADATA_CONTEXT_INVALID) && *final(state)
            == *old(state),
        is_pending_search(*old(state), operation_generation, request_id@, token@) ==> {
            let s = old(state).metadata_search.unwrap();
            exists|seen: Seq<TvFileObservation>|
                observed_members(*old(state), s.authority@.group_id, observe, seen) && match spec_authority_check(
                    *old(state),
                    s.authority@,
                    seen,
                ) {
                    Err(e) => result == Err::<Vec<String>, &'static str>(e) && *final(state) == *old(
                        state,
                    ),
                    Ok(()) => {
                        &&& final(state).same_library(*old(state))
                        &&& final(state).metadata_client_generation == old(state).metadata_client_generation
                        &&& final(state).metadata_operation_generation == old(state).metadata_operation_generation
                        &&& final(state).metadata_verification == old(state).metadata_verification
                        &&& final(state).metadata_search == Some(TvMetadataSearch { candidates, ..s })
                        &&& result matches Ok(response) && texts(response@) == search_response(
                            TvMetadataSearch { candidates, ..s },
                        )
                    },
                }
        },
{
    let token_id = hex_sha1(token.as_bytes());
    let pending = match &state.metadata_search {
        Some(s) => s.operation_generation == operation_generation && same_text(
            s.request_id.as_str(),
            request_id,
        ) && s.token_identity == token_id,
        None => false,
    };
    if !pending {
        return Err(TV_METADATA_CONTEXT_INVALID);
    }
    let ghost start = *state;
    let ghost s = start.metadata_search.unwrap();
    let (check, seen) = match &state.metadata_search {
        Some(search) => validate_tv_metadata_authority(state, &search.authority, &observe),
        None => return Err(TV_METADATA_CONTEXT_INVALID),
    };
    match check {
        Err(e) => {
            assert(observed_members(start, s.authority@.group_id, observe, seen@));
            return Err(e);
        },
        Ok(()) => {},
    }
    let mut search = state.metadata_search.take().unwrap();
    search.candidates = candidates;
    let response = encode_tv_metadata_search(&search);
    state.metadata_search = Some(search);
    assert(observed_members(start, s.authority@.group_id, observe, seen@));
    Ok(response)
}

/// A copy of a candidate.
fn copy_candidate(c: &TvMetadataCandidate) -> (copy: TvMetadataCandidate)
    ensures
        copy == *c,
{
    TvMetadataCandidate {
        tmdb_tv_id: c.tmdb_tv_id,
        name: c.name.clone(),
        original_name: copy_optional_text(&c.original_name),
        first_air_date: copy_optional_text(&c.first_air_date),
        poster_path: copy_optional_text(&c.poster_path),
    }
}

/// Whether two searches agree on every field (the authority by its view).
pub open spec fn same_search(a: TvMetadataSearch, b: TvMetadataSearch) -> bool {
    &&& a.request_id@ == b.request_id@
    &&& a.operation_generation == b.operation_generation
    &&& a.authority@ == b.authority@
    &&& a.query@ == b.query@
    &&& a.token_identity@ == b.token_identity@
    &&& a.candidates@ == b.candidates@
}

/// A copy of a search.
fn copy_search(search: &TvMetadataSearch) -> (copy: TvMetadataSearch)
    ensures
        same_search(copy, *search),
{
    let mut candidates: Vec<TvMetadataCandidate> = Vec::new();
    let mut i: usize = 0;
    while i < search.candidates.len()
        invariant
            i <= search.candidates@.len(),
            candidates@ == search.candidates@.take(i as int),
        decreases search.candidates@.len() - i,
    {
        candidates.push(copy_candidate(&search.candidates[i]));
        assert(candidates@ =~= search.candidates@.take(i + 1));
        i = i + 1;
    }
    assert(search.candidates@.take(search.candidates@.len() as int) =~= search.candidates@);
    TvMetadataSearch {
        request_id: search.request_id.clone(),
        operation_generation: search.operation_generation,
        authority: copy_authority(&search.authority),
        query: search.query.clone(),
        token_identity: search.token_identity.clone(),
        candidates,
    }
}

/// Whether the search in progress has request id `request_id`, was begun with `token` and
/// offered the show `tmdb_tv_id`.
pub open spec fn offers_candidate(
    state: TvLibraryState,
    request_id: Seq<char>,
    token: Seq<char>,
    tmdb_tv_id: u64,
) -> bool {
    state.metadata_search matches Some(s) && s.request_id@ == request_id && s.token_identity@
        == token_identity(token) && exists|k: int|
        0 <= k < s.candidates@.len() && (#[trigger] s.candidates@[k]).tmdb_tv_id == tmdb_tv_id
}

/// Whether `candidates` hold the show `tmdb_tv_id`.
fn offers(candidates: &Vec<TvMetadataCandidate>, tmdb_tv_id: u64) -> (b: bool)
    ensures
        b == exists|k: int| 0 <= k < candidates@.len() && (#[trigger] candidates@[k]).tmdb_tv_id
            == tmdb_tv_id,
{
    let mut i: usize = 0;
    while i < candidates.len()
        invariant
            i <= candidates@.len(),
            forall|k: int| 0 <= k < i ==> (#[trigger] candidates@[k]).tmdb_tv_id != tmdb_tv_id,
        decreases candidates@.len() - i,
    {
        if candidates[i].tmdb_tv_id == tmdb_tv_id {
            return true;
        }
        i = i + 1;
    }
    false
}

/// Begins verifying candidate `tmdb_tv_id` of the search `matching_request_id`: the id must
/// not be zero, the token not blank and the client generation newer than every one seen; the
/// search in progress must be that one, begun with `token`, and must offer the candidate; its
/// authority must still stand. A new operation generation is taken, any pending verification
/// is dropped, and the generation and a copy of the search are returned.
pub fn begin_tv_metadata_verification(
    state: &mut TvLibraryState,
    matching_request_id: &str,
    tmdb_tv_id: u64,
    token: &str,
    client_generation: u64,
    observe: impl Fn(String) -> TvFileObservation,
) -> (result: Result<(u64, TvMetadataSearch), &'static str>)
    requires
        forall|p: String| call_requires(observe, (p,)),
    ensures
        tmdb_tv_id == 0 || is_blank(token@) || !client_accepted(*old(state), client_generation)
            ==> result is Err && result->Err_0 == TV_METADATA_CONTEXT_INVALID && *final(state)
            == *old(state),
        tmdb_tv_id != 0 && !is_blank(token@) && client_accepted(*old(state), client_generation)
            && !offers_candidate(*old(state), matching_request_id@, token@, tmdb_tv_id) ==> result is Err
            && result->Err_0 == TV_METADATA_CONTEXT_INVALID && *final(state) == with_client(
            *old(state),
            client_generation,
        ),
        tmdb_tv_id != 0 && !is_blank(token@) && client_accepted(*old(state), client_generation)
            && offers_candidate(*old(state), matching_request_id@, token@, tmdb_tv_id) ==> {
            let s = old(state).metadata_search.unwrap();
            exists|seen: Seq<TvFileObservation>|
                observed_members(*old(state), s.authority@.group_id, observe, seen) && match spec_authority_check(
                    *old(state),
                    s.authority@,
                    seen,
                ) {
                    Err(e) => result is Err && result->Err_0 == e && *final(state) == with_client(
                        *old(state),
                        client_generation,
                    ),
                    Ok(()) => {
                        &&& final(state).same_library(*old(state))
                        &&& final(state).metadata_client_generation == client_generation
                        &&& final(state).metadata_operation_generation == next_operation(
                            old(state).metadata_operation_generation,
                        )
                        &&& final(state).metadata_search == old(state).metadata_search
                        &&& final(state).metadata_verification is None
                        &&& result matches Ok((g, copy)) && same_search(copy, s)
                            && g == final(state).metadata_operation_generation
                    },
                }
        },
{
    if tmdb_tv_id == 0 || blank(token) {
        return Err(TV_METADATA_CONTEXT_INVALID);
    }
    let ghost start = *state;
    match state.begin_tv_metadata_client_operation(client_generation) {
        Err(e) => return Err(e),
        Ok(()) => {},
    }
    let token_id = hex_sha1(token.as_bytes());
    let offered = match &state.metadata_search {
        Some(s) => same_text(s.request_id.as_str(), matching_request_id) && s.token_identity
            == token_id && offers(&s.candidates, tmdb_tv_id),
        None => false,
    };
    if !offered {
        return Err(TV_METADATA_CONTEXT_INVALID);
    }
    let ghost s = start.metadata_search.unwrap();
    let (check, seen) = match &state.metadata_search {
        Some(search) => validate_tv_metadata_authority(state, &search.authority, &observe),
        None => return Err(TV_METADATA_CONTEXT_INVALID),
    };
    proof {
        assert(spec_member_paths(start, s.authority@.group_id) == spec_member_paths(
            *state,
            s.authority@.group_id,
        ));
        assert(spec_authority_check(start, s.authority@, seen@) == spec_authority_check(
            *state,
            s.authority@,
            seen@,
        ));
        assert(observed_members(start, s.authority@.group_id, observe, seen@));
    }
    match check {
        Err(e) => return Err(e),
        Ok(()) => {},
    }
    let copy = match &state.metadata_search {
        Some(search) => copy_search(search),
        None => return Err(TV_METADATA_CONTEXT_INVALID),
    };
    let operation_generation = state.next_tv_metadata_operation();
    state.metadata_verification = None;
    Ok((operation_generation, copy))
}

/// Whether a verification may finish: operation `operation_generation` is the latest, the
/// search in progress is `search`, `token` began it, and the association is of the
/// candidate `tmdb_tv_id`.
pub open spec fn verification_current(
    state: TvLibraryState,
    operation_generation: u64,
    search: TvMetadataSearch,
    tmdb_tv_id: u64,
    token: Seq<char>,
    association: TvMetadataAssociation,
) -> bool {
    &&& state.metadata_operation_generation == operation_generation
    &&& state.metadata_search matches Some(current) && current.request_id@ == search.request_id@
    &&& search.token_identity@ == token_identity(token)
    &&& association.tmdb_tv_id == tmdb_tv_id
}

/// Whether `v` is the verification of `association` that operation `operation_generation`
/// records for `search`.
pub open spec fn is_recorded_verification(
    v: TvMetadataVerification,
    operation_generation: u64,
    search: TvMetadataSearch,
    tmdb_tv_id: u64,
    association: TvMetadataAssociation,
) -> bool {
    &&& v.verification_id@ == spec_hex_sha1(
        encode_utf8(
            verification_text(operation_generation, search.request_id@, tmdb_tv_id, association.imdb_id@),
        ),
    )
    &&& v.operation_generation == operation_generation
    &&& v.matching_request_id@ == search.request_id@
    &&& v.authority@ == search.authority@
    &&& v.association == association
    &&& v.token_identity@ == search.token_identity@
}

/// Whether `recorded` is the verification of `association` that operation
/// `operation_generation` records for `search`, and `result` gives its id and the
/// association's response fields.
pub open spec fn verification_response(
    recorded: Option<TvMetadataVerification>,
    result: Result<Vec<String>, &'static str>,
    operation_generation: u64,
    search: TvMetadataSearch,
    tmdb_tv_id: u64,
    association: TvMetadataAssociation,
) -> bool {
    match (recorded, result) {
        (Some(v), Ok(response)) => is_recorded_verification(
            v,
            operation_generation,
            search,
            tmdb_tv_id,
            association,
        ) && texts(response@) == seq![v.verification_id@] + association_fields(association@),
        _ => false,
    }
}

/// Finishes verifying a candidate with the association that TMDB's details gave: the
/// verification must be current and the search's authority must still stand. The
/// verification is recorded, and its id and the association's response fields returned.
pub fn finish_tv_metadata_verification(
    state: &mut TvLibraryState,
    operation_generation: u64,
    search: &TvMetadataSearch,
    tmdb_tv_id: u64,
    token: &str,
    association: TvMetadataAssociation,
    observe: impl Fn(String) -> TvFileObservation,
) -> (result: Result<Vec<String>, &'static str>)
    requires
        forall|p: String| call_requires(observe, (p,)),
    ensures
        !verification_current(*old(state), operation_generation, *search, tmdb_tv_id, token@, association)
            ==> result == Err::<Vec<String>, &'static str>(TV_METADATA_CONTEXT_INVALID)
            && *final(state) == *old(state),
        verification_current(*old(state), operation_generation, *search, tmdb_tv_id, token@, association)
            ==> exists|seen: Seq<TvFileObservation>|
            observed_members(*old(state), search.authority@.group_id, observe, seen) && match spec_authority_check(
                *old(state),
                search.authority@,
                seen,
            ) {
                Err(e) => result == Err::<Vec<String>, &'static str>(e) && *final(state) == *old(
                    state,
                ),
                Ok(()) => {
                    &&& final(state).same_library(*old(state))
                    &&& final(state).metadata_client_generation == old(state).metadata_client_generation
                    &&& final(state).metadata_operation_generation == old(state).metadata_operation_generation
                    &&& final(state).metadata_search == old(state).metadata_search
                    &&& verification_response(
                        final(state).metadata_verification,
                        result,
                        operation_generation,
                        *search,
                        tmdb_tv_id,
                        association,
                    )
                },
            },
{
    let token_id = hex_sha1(token.as_bytes());
    let current = match &state.metadata_search {
        Some(c) => state.metadata_operation_generation == operation_generation && c.request_id
            == search.request_id,
        None => false,
    };
    if !current || search.token_identity != token_id || association.tmdb_tv_id != tmdb_tv_id {
        return Err(TV_METADATA_CONTEXT_INVALID);
    }
    let ghost start = *state;
    let ghost assoc = association;
    let (check, seen) = validate_tv_metadata_authority(state, &search.authority, &observe);
    match check {
        Err(e) => {
            assert(observed_members(start, search.authority@.group_id, observe, seen@));
            return Err(e);
        },
        Ok(()) => {},
    }
    let text = verification_exec(
        operation_generation,
        search.request_id.as_str(),
        tmdb_tv_id,
        association.imdb_id.as_str(),
    );
    let verification_id = hex_sha1(text.as_str().as_bytes());
    let mut response: Vec<String> = Vec::new();
    response.push(verification_id.clone());
    assert(texts(response@) =~= seq![verification_id@]);
    let fields = encode_tv_metadata_association(&association);
    push_all(&mut response, fields);
    assert(texts(response@) =~= seq![verification_id@] + association_fields(assoc@));
    state.metadata_verification = Some(
        TvMetadataVerification {
            verification_id,
            operation_generation,
            matching_request_id: search.request_id.clone(),
            authority: copy_authority(&search.authority),
            association,
            token_identity: search.token_identity.clone(),
        },
    );
    let result = Ok(response);
    proof {
        assert(observed_members(start, search.authority@.group_id, observe, seen@));
        assert(is_recorded_verification(
            state.metadata_verification.unwrap(),
            operation_generation,
            *search,
            tmdb_tv_id,
            assoc,
        ));
        assert(verification_response(
            state.metadata_verification,
            result,
            operation_generation,
            *search,
            tmdb_tv_id,
            assoc,
        ));
    }
    result
}

/// A scan that began before another scan began or the folder changed cannot complete: each of
/// those advances the generation (`next_count`), after which the earlier scan is no longer
/// current and `complete_tv_library_scan` refuses it as stale.
pub proof fn law_superseded_scan_is_stale(
    before: TvLibraryState,
    after: TvLibraryState,
    folder: Seq<char>,
    generation: u64,
)
    requires
        scan_current(before, folder, generation),
        after.generation == next_count(before.generation),
    ensures
        !scan_current(after, folder, generation),
{
}

/// Once the metadata operations are dropped (by a folder change, a scan, a trashed file or an
/// invalidation), no search can be finished or verified and no verification can be saved.
pub proof fn law_invalidated_operations_cannot_finish(
    before: TvLibraryState,
    after: TvLibraryState,
    operation_generation: u64,
    request_id: Seq<char>,
    token: Seq<char>,
    tmdb_tv_id: u64,
    verification_id: Seq<char>,
)
    requires
        after.metadata_invalidated_from(before),
    ensures
        !is_pending_search(after, operation_generation, request_id, token),
        !offers_candidate(after, request_id, token, tmdb_tv_id),
        pending_verification(after, verification_id) is None,
{
}

/// A newer operation supersedes an older one: once another metadata operation began after
/// operation `operation_generation`, a verification of that older operation can no longer
/// finish.
pub proof fn law_newer_operation_supersedes(
    state: TvLibraryState,
    operation_generation: u64,
    search: TvMetadataSearch,
    tmdb_tv_id: u64,
    token: Seq<char>,
    association: TvMetadataAssociation,
)
    requires
        state.metadata_operation_generation == next_operation(operation_generation),
    ensures
        !verification_current(state, operation_generation, search, tmdb_tv_id, token, association),
{
}

/// A client generation is accepted once: after an operation of `client_generation` was
/// accepted, the same generation (or an older one) is refused.
pub proof fn law_client_generation_accepted_once(state: TvLibraryState, client_generation: u64, later: u64)
    requires
        client_accepted(state, client_generation),
        later <= client_generation,
    ensures
        !client_accepted(with_client(state, client_generation), later),
{
}

} // verus!
