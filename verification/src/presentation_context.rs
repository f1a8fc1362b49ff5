//! The live state behind adult and VR library covers: which cover request of each item is
//! current, the covers waiting to be fetched, the metadata and identities found on the way,
//! and the sources that failed.
use vstd::prelude::*;

use vstd::utf8::encode_utf8;

use crate::digest::{hex_sha1, spec_hex_sha1};
use crate::provider::ProviderRequestError;
use crate::presentation::{
    spec_presentation_cover, validate_presentation_cover, DisplayProvider, LibraryPresentationCategory, PresentationMetadata, VerifiedDisplayIdentity,
    LIBRARY_PRESENTATION_FAILED, LIBRARY_PRESENTATION_STALE,
};
use crate::text::{decimal_string, push_str, same_text};
use crate::tmdb_cover::{push_number, push_separator};
use crate::tv_scan::{owned, texts};

verus! {

/// Most cover requests kept; a new item past it needs an inactive request to drop.
pub const MAX_RETAINED_COVER_REQUESTS: usize = 128;

/// Most covers kept waiting to be fetched.
pub const MAX_RETAINED_COVER_AUTHORITIES: usize = 128;

/// Most waiting covers that keep their bytes in memory.
pub const MAX_RETAINED_COVER_BYTES: usize = 4;

/// Most items whose failed cover sources are remembered.
pub const MAX_RETAINED_FAILED_COVER_ITEMS: usize = 128;

/// Most seeds of each kind kept.
pub const MAX_RETAINED_METADATA_SEEDS: usize = 128;

/// The aspect ratio a cover response gives when there is no cover.
pub const DEFAULT_COVER_RATIO_TEXT: &'static str = "0.72";

/// The item a presentation request is about: its library, its stable identity, the code
/// shown for it and the product identity providers know it by.
#[derive(Clone, Debug, PartialEq, Eq)]
pub struct LibraryItemAuthority {
    pub category: LibraryPresentationCategory,
    pub identity: String,
    pub code: String,
    pub product_identity: String,
}

/// The latest cover request of an item code: its generation, and whether it is still open.
#[derive(Clone, Debug, PartialEq, Eq)]
pub struct CoverRequestAuthority {
    pub category: LibraryPresentationCategory,
    pub code: String,
    pub active: bool,
    pub generation: u64,
}

/// What a seed is kept under: the item and the request generation that found it.
#[derive(Clone, Debug, PartialEq, Eq)]
pub struct SeedKey {
    pub category: LibraryPresentationCategory,
    pub code: String,
    pub item_identity: String,
    pub request_generation: u64,
}

/// Something a cover request found for later use, with the sequence number it was kept at.
#[derive(Clone, Debug, PartialEq, Eq)]
pub struct Seed<T> {
    pub key: SeedKey,
    pub value: T,
    pub sequence: u64,
}

/// Who supplied a cover.
#[derive(Clone, Copy, Debug, PartialEq, Eq, Hash, Structural)]
pub enum CoverProvider {
    JavDb,
    Fanza,
    R18Dev,
}

impl CoverProvider {
    pub open spec fn text(self) -> Seq<char> {
        match self {
            CoverProvider::JavDb => "JavDB"@,
            CoverProvider::Fanza => "FANZA"@,
            CoverProvider::R18Dev => "r18.dev"@,
        }
    }

    pub fn as_str(self) -> (text: &'static str)
        ensures
            text@ == self.text(),
    {
        match self {
            CoverProvider::JavDb => "JavDB",
            CoverProvider::Fanza => "FANZA",
            CoverProvider::R18Dev => "r18.dev",
        }
    }
}

/// Where a cover comes from: the provider, its id for the item, the display code it shows,
/// the image URL, and the image's width and height (whose ratio is the cover's aspect ratio).
#[derive(Clone, Debug, PartialEq, Eq)]
pub struct CoverSource {
    pub provider: CoverProvider,
    pub provider_id: String,
    pub display_code: String,
    pub url: String,
    pub width: u32,
    pub height: u32,
}

/// A cover waiting to be fetched by the view: its id, the item and request it answers, its
/// source, the bytes already in hand if any, and the sequence number it was kept at.
#[derive(Clone, Debug, PartialEq, Eq)]
pub struct PresentationCover {
    pub id: String,
    pub category: LibraryPresentationCategory,
    pub code: String,
    pub item_identity: String,
    pub source: CoverSource,
    pub bytes: Option<Vec<u8>>,
    pub request_generation: u64,
    pub sequence: u64,
}

/// The cover URLs of an item that failed and are not tried again.
#[derive(Clone, Debug, PartialEq, Eq)]
pub struct FailedCoverSources {
    pub item_identity: String,
    pub category: LibraryPresentationCategory,
    pub code: String,
    pub urls: Vec<String>,
    pub sequence: u64,
}

/// The requests of every item code, the covers waiting to be fetched, the metadata and
/// identities that cover requests found, the failed cover sources, and the counter that
/// orders what is kept.
pub struct LibraryPresentationContext {
    pub requests: Vec<CoverRequestAuthority>,
    pub covers: Vec<PresentationCover>,
    pub metadata_seeds: Vec<Seed<PresentationMetadata>>,
    pub identity_seeds: Vec<Seed<VerifiedDisplayIdentity>>,
    pub failed_sources: Vec<FailedCoverSources>,
    pub next_sequence: u64,
}

/// Whether a request is the one of item code `code` in `category`.
pub open spec fn request_of(r: CoverRequestAuthority, category: LibraryPresentationCategory, code: Seq<char>) -> bool {
    r.category == category && r.code@ == code
}

/// The index of the first request of `code` in `category` at or after `i`, or the number of
/// requests.
pub open spec fn request_index(
    requests: Seq<CoverRequestAuthority>,
    category: LibraryPresentationCategory,
    code: Seq<char>,
    i: int,
) -> int
    decreases requests.len() - i,
{
    if i < 0 || i >= requests.len() {
        requests.len() as int
    } else if request_of(requests[i], category, code) {
        i
    } else {
        request_index(requests, category, code, i + 1)
    }
}

/// The request held for `code` in `category`, if any.
pub open spec fn held_request(
    requests: Seq<CoverRequestAuthority>,
    category: LibraryPresentationCategory,
    code: Seq<char>,
) -> Option<CoverRequestAuthority> {
    let i = request_index(requests, category, code, 0);
    if i < requests.len() {
        Some(requests[i])
    } else {
        None
    }
}

/// Whether work for `code` in `category` under `request_generation` is still wanted:
/// generation 0 asks for no request, any other generation must be the open request's.
pub open spec fn spec_cover_request_matches(
    requests: Seq<CoverRequestAuthority>,
    category: LibraryPresentationCategory,
    code: Seq<char>,
    request_generation: u64,
) -> bool {
    request_generation == 0 || {
        let held = held_request(requests, category, code);
        held is Some && held->0.active && held->0.generation == request_generation
    }
}

impl LibraryPresentationContext {
    /// Each item code has at most one request, and at most `MAX_RETAINED_COVER_REQUESTS`
    /// requests are kept.
    pub open spec fn wf(self) -> bool {
        &&& self.requests@.len() <= MAX_RETAINED_COVER_REQUESTS
        &&& self.covers@.len() <= MAX_RETAINED_COVER_AUTHORITIES
        &&& forall|i: int, j: int|
            0 <= i < j < self.requests@.len() ==> !request_of(
                #[trigger] self.requests@[i],
                self.requests@[j].category,
                #[trigger] self.requests@[j].code@,
            )
    }

    pub fn new() -> (context: Self)
        ensures
            context.wf(),
            context.requests@.len() == 0,
            context.covers@.len() == 0,
            context.failed_sources@.len() == 0,
            context.metadata_seeds@.len() == 0,
            context.identity_seeds@.len() == 0,
            context.next_sequence == 0,
    {
        LibraryPresentationContext {
            requests: Vec::new(),
            covers: Vec::new(),
            metadata_seeds: Vec::new(),
            identity_seeds: Vec::new(),
            failed_sources: Vec::new(),
            next_sequence: 0,
        }
    }
}

/// In requests of distinct item codes, the index of a request's code is its position.
proof fn lemma_request_index_distinct(requests: Seq<CoverRequestAuthority>, k: int, i: int)
    requires
        0 <= i <= k < requests.len(),
        forall|a: int, b: int|
            0 <= a < b < requests.len() ==> !request_of(
                #[trigger] requests[a],
                requests[b].category,
                #[trigger] requests[b].code@,
            ),
    ensures
        request_index(requests, requests[k].category, requests[k].code@, i) == k,
    decreases k - i,
{
    if i < k {
        assert(!request_of(requests[i], requests[k].category, requests[k].code@));
        lemma_request_index_distinct(requests, k, i + 1);
    }
}

/// No request at or after `i` is of the code when the index is the length.
proof fn lemma_request_index_absent(
    requests: Seq<CoverRequestAuthority>,
    category: LibraryPresentationCategory,
    code: Seq<char>,
    i: int,
)
    requires
        0 <= i <= requests.len(),
        request_index(requests, category, code, i) == requests.len(),
    ensures
        forall|j: int| i <= j < requests.len() ==> !request_of(#[trigger] requests[j], category, code),
    decreases requests.len() - i,
{
    if i < requests.len() {
        lemma_request_index_absent(requests, category, code, i + 1);
    }
}

/// The first index found is of the code.
proof fn lemma_request_index_found(
    requests: Seq<CoverRequestAuthority>,
    category: LibraryPresentationCategory,
    code: Seq<char>,
    i: int,
)
    requires
        0 <= i,
    ensures
        request_index(requests, category, code, i) <= requests.len(),
        request_index(requests, category, code, i) < requests.len() ==> i <= request_index(
            requests,
            category,
            code,
            i,
        ) && request_of(requests[request_index(requests, category, code, i)], category, code),
    decreases requests.len() - i,
{
    if i < requests.len() && !request_of(requests[i], category, code) {
        lemma_request_index_found(requests, category, code, i + 1);
    }
}

fn request_of_exec(r: &CoverRequestAuthority, category: LibraryPresentationCategory, code: &str) -> (is: bool)
    ensures
        is == request_of(*r, category, code@),
{
    r.category == category && crate::text::same_text(r.code.as_str(), code)
}

fn find_request(requests: &Vec<CoverRequestAuthority>, category: LibraryPresentationCategory, code: &str) -> (index: usize)
    ensures
        index == request_index(requests@, category, code@, 0),
{
    let mut i: usize = 0;
    while i < requests.len()
        invariant
            i <= requests@.len(),
            request_index(requests@, category, code@, 0) == request_index(
                requests@,
                category,
                code@,
                i as int,
            ),
        decreases requests@.len() - i,
    {
        if request_of_exec(&requests[i], category, code) {
            return i;
        }
        i = i + 1;
    }
    i
}

fn request_matches_in(
    requests: &Vec<CoverRequestAuthority>,
    category: LibraryPresentationCategory,
    code: &str,
    request_generation: u64,
) -> (matches: bool)
    ensures
        matches == spec_cover_request_matches(requests@, category, code@, request_generation),
{
    if request_generation == 0 {
        return true;
    }
    let i = find_request(requests, category, code);
    i < requests.len() && requests[i].active && requests[i].generation == request_generation
}

/// Whether work for `code` in `category` under `request_generation` is still wanted.
pub fn cover_request_matches(
    context: &LibraryPresentationContext,
    category: LibraryPresentationCategory,
    code: &str,
    request_generation: u64,
) -> (matches: bool)
    ensures
        matches == spec_cover_request_matches(context.requests@, category, code@, request_generation),
{
    request_matches_in(&context.requests, category, code, request_generation)
}

/// Whether the cover request `request_generation` of `code` in `category` is current.
pub fn cover_request_is_current(
    context: &LibraryPresentationContext,
    category: LibraryPresentationCategory,
    code: &str,
    request_generation: u64,
) -> (current: bool)
    ensures
        current == spec_cover_request_matches(context.requests@, category, code@, request_generation),
{
    cover_request_matches(context, category, code, request_generation)
}

/// One more element of a prefix, filtered.
proof fn lemma_filter_step<A>(s: Seq<A>, i: int, keep: spec_fn(A) -> bool)
    requires
        0 <= i < s.len(),
    ensures
        s.subrange(0, i + 1).filter(keep) == (if keep(s[i]) {
            s.subrange(0, i).filter(keep).push(s[i])
        } else {
            s.subrange(0, i).filter(keep)
        }),
{
    reveal(Seq::filter);
    assert(s.subrange(0, i + 1).drop_last() =~= s.subrange(0, i));
}

/// Whether a cover answers a request for `code` in `category`.
pub open spec fn cover_of_code(c: PresentationCover, category: LibraryPresentationCategory, code: Seq<char>) -> bool {
    c.category == category && c.code@ == code
}

/// The covers not for `code` in `category`, in order.
pub open spec fn covers_without_code(
    covers: Seq<PresentationCover>,
    category: LibraryPresentationCategory,
    code: Seq<char>,
) -> Seq<PresentationCover> {
    covers.filter(|c: PresentationCover| !cover_of_code(c, category, code))
}

/// The covers not answering request `generation` of `code` in `category`, in order.
pub open spec fn covers_without_request(
    covers: Seq<PresentationCover>,
    category: LibraryPresentationCategory,
    code: Seq<char>,
    generation: u64,
) -> Seq<PresentationCover> {
    covers.filter(
        |c: PresentationCover| !(cover_of_code(c, category, code) && c.request_generation == generation),
    )
}

/// Whether a seed was found for `code` in `category`.
pub open spec fn seed_of_code<T>(s: Seed<T>, category: LibraryPresentationCategory, code: Seq<char>) -> bool {
    s.key.category == category && s.key.code@ == code
}

/// The seeds not found for `code` in `category`, in order.
pub open spec fn seeds_without_code<T>(
    seeds: Seq<Seed<T>>,
    category: LibraryPresentationCategory,
    code: Seq<char>,
) -> Seq<Seed<T>> {
    seeds.filter(|s: Seed<T>| !seed_of_code(s, category, code))
}

/// The seeds not found by request `generation` of `code` in `category`, in order.
pub open spec fn seeds_without_request<T>(
    seeds: Seq<Seed<T>>,
    category: LibraryPresentationCategory,
    code: Seq<char>,
    generation: u64,
) -> Seq<Seed<T>> {
    seeds.filter(
        |s: Seed<T>| !(seed_of_code(s, category, code) && s.key.request_generation == generation),
    )
}

fn cover_of_code_exec(c: &PresentationCover, category: LibraryPresentationCategory, code: &str) -> (is: bool)
    ensures
        is == cover_of_code(*c, category, code@),
{
    c.category == category && crate::text::same_text(c.code.as_str(), code)
}

fn seed_of_code_exec<T>(s: &Seed<T>, category: LibraryPresentationCategory, code: &str) -> (is: bool)
    ensures
        is == seed_of_code(*s, category, code@),
{
    s.key.category == category && crate::text::same_text(s.key.code.as_str(), code)
}

/// Drops the covers of `code` in `category`, or only those of request `generation` when one
/// is given.
fn drop_covers(
    covers: &mut Vec<PresentationCover>,
    category: LibraryPresentationCategory,
    code: &str,
    generation: Option<u64>,
)
    ensures
        final(covers)@ == match generation {
            None => covers_without_code(old(covers)@, category, code@),
            Some(g) => covers_without_request(old(covers)@, category, code@, g),
        },
{
    let ghost original = covers@;
    let ghost keep = match generation {
        None => |c: PresentationCover| !cover_of_code(c, category, code@),
        Some(g) => |c: PresentationCover|
            !(cover_of_code(c, category, code@) && c.request_generation == g),
    };
    let mut kept: Vec<PresentationCover> = Vec::new();
    let n = covers.len();
    let mut i: usize = 0;
    while covers.len() > 0
        invariant
            original.len() == n,
            i + covers@.len() == original.len(),
            covers@ == original.subrange(i as int, original.len() as int),
            kept@ == original.subrange(0, i as int).filter(keep),
            keep == (match generation {
                None => |c: PresentationCover| !cover_of_code(c, category, code@),
                Some(g) => |c: PresentationCover|
                    !(cover_of_code(c, category, code@) && c.request_generation == g),
            }),
        decreases covers@.len(),
    {
        let c = covers.remove(0);
        proof {
            lemma_filter_step(original, i as int, keep);
        }
        let dropped = cover_of_code_exec(&c, category, code) && match generation {
            None => true,
            Some(g) => c.request_generation == g,
        };
        assert(keep(c) == !dropped);
        if !dropped {
            kept.push(c);
        }
        i = i + 1;
        assert(covers@ =~= original.subrange(i as int, original.len() as int));
    }
    assert(original.subrange(0, original.len() as int) =~= original);
    *covers = kept;
}

/// Drops the seeds of `code` in `category`, or only those of request `generation` when one
/// is given.
fn drop_seeds<T>(
    seeds: &mut Vec<Seed<T>>,
    category: LibraryPresentationCategory,
    code: &str,
    generation: Option<u64>,
)
    ensures
        final(seeds)@ == match generation {
            None => seeds_without_code(old(seeds)@, category, code@),
            Some(g) => seeds_without_request(old(seeds)@, category, code@, g),
        },
{
    let ghost original = seeds@;
    let ghost keep = match generation {
        None => |s: Seed<T>| !seed_of_code(s, category, code@),
        Some(g) => |s: Seed<T>| !(seed_of_code(s, category, code@) && s.key.request_generation == g),
    };
    let mut kept: Vec<Seed<T>> = Vec::new();
    let n = seeds.len();
    let mut i: usize = 0;
    while seeds.len() > 0
        invariant
            original.len() == n,
            i + seeds@.len() == original.len(),
            seeds@ == original.subrange(i as int, original.len() as int),
            kept@ == original.subrange(0, i as int).filter(keep),
            keep == (match generation {
                None => |s: Seed<T>| !seed_of_code(s, category, code@),
                Some(g) => |s: Seed<T>|
                    !(seed_of_code(s, category, code@) && s.key.request_generation == g),
            }),
        decreases seeds@.len(),
    {
        let s = seeds.remove(0);
        proof {
            lemma_filter_step(original, i as int, keep);
        }
        let dropped = seed_of_code_exec(&s, category, code) && match generation {
            None => true,
            Some(g) => s.key.request_generation == g,
        };
        assert(keep(s) == !dropped);
        if !dropped {
            kept.push(s);
        }
        i = i + 1;
        assert(seeds@ =~= original.subrange(i as int, original.len() as int));
    }
    assert(original.subrange(0, original.len() as int) =~= original);
    *seeds = kept;
}

/// Retires what request `generation` of `code` in `category` found.
pub fn retire_metadata_seed(
    context: &mut LibraryPresentationContext,
    category: LibraryPresentationCategory,
    code: &str,
    generation: u64,
)
    ensures
        final(context).metadata_seeds@ == seeds_without_request(
            old(context).metadata_seeds@,
            category,
            code@,
            generation,
        ),
        final(context).identity_seeds@ == seeds_without_request(
            old(context).identity_seeds@,
            category,
            code@,
            generation,
        ),
        final(context).requests == old(context).requests,
        final(context).covers == old(context).covers,
        final(context).failed_sources == old(context).failed_sources,
        final(context).next_sequence == old(context).next_sequence,
{
    drop_seeds(&mut context.metadata_seeds, category, code, Some(generation));
    drop_seeds(&mut context.identity_seeds, category, code, Some(generation));
}

/// Whether request `k` may be dropped to make room: it is closed, and no closed request is
/// older (ties go to the earlier one).
pub open spec fn oldest_inactive(requests: Seq<CoverRequestAuthority>, k: int) -> bool {
    &&& 0 <= k < requests.len()
    &&& !requests[k].active
    &&& forall|j: int|
        0 <= j < requests.len() && !(#[trigger] requests[j]).active ==> requests[k].generation
            <= requests[j].generation
}

/// The requests once request `generation` of `code` in `category` is the open one: it
/// replaces the request held for the code, or is added last.
pub open spec fn placed_requests(
    requests: Seq<CoverRequestAuthority>,
    category: LibraryPresentationCategory,
    code: Seq<char>,
    generation: u64,
    placed: CoverRequestAuthority,
) -> Seq<CoverRequestAuthority> {
    let i = request_index(requests, category, code, 0);
    if i < requests.len() {
        requests.update(i, placed)
    } else {
        requests.push(placed)
    }
}

/// Why `begin_cover_request` refuses request `generation` of `code` in `category`, if it does:
/// generation 0 and a generation not newer than the held one are stale; a new code with every
/// kept request still open and no room left fails.
pub open spec fn begin_refusal(
    requests: Seq<CoverRequestAuthority>,
    category: LibraryPresentationCategory,
    code: Seq<char>,
    generation: u64,
) -> Option<&'static str> {
    let held = held_request(requests, category, code);
    if generation == 0 {
        Some(LIBRARY_PRESENTATION_STALE)
    } else if held is Some && generation <= held->0.generation {
        Some(LIBRARY_PRESENTATION_STALE)
    } else if held is None && requests.len() >= MAX_RETAINED_COVER_REQUESTS && forall|i: int|
        0 <= i < requests.len() ==> (#[trigger] requests[i]).active {
        Some(LIBRARY_PRESENTATION_FAILED)
    } else {
        None
    }
}

/// The state after request `generation` of `code` in `category` began, when the placed
/// requests were trimmed by dropping request `k` (or nothing, when `k` is negative).
pub open spec fn begun(
    old: LibraryPresentationContext,
    new: LibraryPresentationContext,
    category: LibraryPresentationCategory,
    code: Seq<char>,
    generation: u64,
    k: int,
) -> bool {
    let placed = placed_requests(old.requests@, category, code, generation, new.requests@[
        request_index(new.requests@, category, code, 0)]);
    let covers = covers_without_code(old.covers@, category, code);
    let metadata = seeds_without_code(old.metadata_seeds@, category, code);
    let identities = seeds_without_code(old.identity_seeds@, category, code);
    &&& if placed.len() <= MAX_RETAINED_COVER_REQUESTS {
        &&& k < 0
        &&& new.requests@ == placed
        &&& new.covers@ == covers
        &&& new.metadata_seeds@ == metadata
        &&& new.identity_seeds@ == identities
    } else {
        let dropped = placed[k];
        &&& oldest_inactive(placed, k)
        &&& new.requests@ == placed.remove(k)
        &&& new.covers@ == covers_without_code(covers, dropped.category, dropped.code@)
        &&& new.metadata_seeds@ == seeds_without_request(
            metadata,
            dropped.category,
            dropped.code@,
            dropped.generation,
        )
        &&& new.identity_seeds@ == seeds_without_request(
            identities,
            dropped.category,
            dropped.code@,
            dropped.generation,
        )
    }
    &&& new.failed_sources == old.failed_sources
    &&& new.next_sequence == old.next_sequence
}

fn find_oldest_inactive(requests: &Vec<CoverRequestAuthority>) -> (k: usize)
    requires
        exists|j: int| 0 <= j < requests@.len() && !(#[trigger] requests@[j]).active,
    ensures
        oldest_inactive(requests@, k as int),
{
    let mut best: Option<usize> = None;
    let mut i: usize = 0;
    while i < requests.len()
        invariant
            i <= requests@.len(),
            match best {
                Some(b) => b < i && !requests@[b as int].active && forall|j: int|
                    0 <= j < i && !(#[trigger] requests@[j]).active
                        ==> requests@[b as int].generation <= requests@[j].generation,
                None => forall|j: int| 0 <= j < i ==> (#[trigger] requests@[j]).active,
            },
        decreases requests@.len() - i,
    {
        if !requests[i].active {
            match best {
                Some(b) => {
                    if requests[i].generation < requests[b].generation {
                        best = Some(i);
                    }
                },
                None => {
                    best = Some(i);
                },
            }
        }
        i = i + 1;
    }
    match best {
        Some(b) => b,
        None => {
            proof {
                let j = choose|j: int| 0 <= j < requests@.len() && !(#[trigger] requests@[j]).active;
                assert(requests@[j].active);
            }
            0
        },
    }
}

fn all_requests_active(requests: &Vec<CoverRequestAuthority>) -> (all: bool)
    ensures
        all == forall|i: int| 0 <= i < requests@.len() ==> (#[trigger] requests@[i]).active,
{
    let mut i: usize = 0;
    while i < requests.len()
        invariant
            i <= requests@.len(),
            forall|j: int| 0 <= j < i ==> (#[trigger] requests@[j]).active,
        decreases requests@.len() - i,
    {
        if !requests[i].active {
            return false;
        }
        i = i + 1;
    }
    true
}

/// In distinct requests, the request held for a code is the one at its position.
proof fn lemma_held_at(requests: Seq<CoverRequestAuthority>, k: int)
    requires
        0 <= k < requests.len(),
        forall|a: int, b: int|
            0 <= a < b < requests.len() ==> !request_of(
                #[trigger] requests[a],
                requests[b].category,
                #[trigger] requests[b].code@,
            ),
    ensures
        held_request(requests, requests[k].category, requests[k].code@) == Some(requests[k]),
{
    lemma_request_index_distinct(requests, k, 0);
}

/// Opens request `generation` for `code` in `category`: it must be newer than the request
/// held for the code, and a new code needs room (a closed request to drop when
/// `MAX_RETAINED_COVER_REQUESTS` are kept). The code's waiting covers and seeds are dropped;
/// a dropped request takes its covers and seeds with it.
pub fn begin_cover_request(
    context: &mut LibraryPresentationContext,
    category: LibraryPresentationCategory,
    code: &str,
    generation: u64,
) -> (result: Result<(), &'static str>)
    requires
        old(context).wf(),
    ensures
        final(context).wf(),
        result is Err <==> begin_refusal(old(context).requests@, category, code@, generation) is Some,
        result is Err ==> result == Err::<(), &'static str>(
            begin_refusal(old(context).requests@, category, code@, generation)->0,
        ),
        result is Err ==> final(context).requests == old(context).requests,
        result is Err ==> final(context).covers == old(context).covers,
        result is Err ==> final(context).metadata_seeds == old(context).metadata_seeds,
        result is Err ==> final(context).identity_seeds == old(context).identity_seeds,
        result is Err ==> final(context).failed_sources == old(context).failed_sources,
        result is Err ==> final(context).next_sequence == old(context).next_sequence,
        result is Ok ==> {
            let held = held_request(final(context).requests@, category, code@);
            held is Some && held->0.active && held->0.generation == generation
        },
        result is Ok ==> exists|k: int|
            begun(*old(context), *final(context), category, code@, generation, k),
        result is Ok ==> spec_cover_request_matches(final(context).requests@, category, code@, generation),
{
    if generation == 0 {
        return Err(LIBRARY_PRESENTATION_STALE);
    }
    let i = find_request(&context.requests, category, code);
    let len = context.requests.len();
    proof {
        lemma_request_index_found(context.requests@, category, code@, 0);
    }
    if i < len && generation <= context.requests[i].generation {
        return Err(LIBRARY_PRESENTATION_STALE);
    }
    if i == len && len >= MAX_RETAINED_COVER_REQUESTS && all_requests_active(&context.requests) {
        return Err(LIBRARY_PRESENTATION_FAILED);
    }
    let ghost old_context = *context;
    drop_covers(&mut context.covers, category, code, None);
    drop_seeds(&mut context.metadata_seeds, category, code, None);
    drop_seeds(&mut context.identity_seeds, category, code, None);
    proof {
        old_context.covers@.lemma_filter_len(
            |c: PresentationCover| !cover_of_code(c, category, code@),
        );
    }
    let placed = CoverRequestAuthority { category, code: owned(code), active: true, generation };
    if i < len {
        context.requests.set(i, placed);
    } else {
        proof {
            lemma_request_index_absent(old_context.requests@, category, code@, 0);
        }
        context.requests.push(placed);
    }
    let ghost placed_seq = context.requests@;
    let ghost at: int = i as int;
    assert(placed_seq[at].active && placed_seq[at].generation == generation && request_of(
        placed_seq[at],
        category,
        code@,
    ));
    assert forall|a: int, b: int| 0 <= a < b < placed_seq.len() implies !request_of(
        #[trigger] placed_seq[a],
        placed_seq[b].category,
        #[trigger] placed_seq[b].code@,
    ) by {
        if a != at && b != at {
            assert(placed_seq[a] == old_context.requests@[a]);
            assert(placed_seq[b] == old_context.requests@[b]);
        } else if b == at {
            if i < len {
                lemma_held_at(old_context.requests@, a);
                lemma_held_at(old_context.requests@, at);
            }
        } else {
            if i < len {
                lemma_held_at(old_context.requests@, b);
                lemma_held_at(old_context.requests@, at);
            }
        }
    }
    proof {
        lemma_request_index_distinct(placed_seq, at, 0);
        assert(placed_seq[at].category == category);
        assert(placed_seq[at].code@ == code@);
        assert(request_index(placed_seq, category, code@, 0) == at);
        assert(placed_seq == placed_requests(
            old_context.requests@,
            category,
            code@,
            generation,
            placed_seq[at],
        ));
    }
    if context.requests.len() > MAX_RETAINED_COVER_REQUESTS {
        assert(exists|j: int| 0 <= j < placed_seq.len() && !(#[trigger] placed_seq[j]).active) by {
            let j = choose|j: int|
                0 <= j < old_context.requests@.len() && !(#[trigger] old_context.requests@[j]).active;
            assert(placed_seq[j] == old_context.requests@[j]);
        }
        let k = find_oldest_inactive(&context.requests);
        let dropped = context.requests.remove(k);
        drop_covers(&mut context.covers, dropped.category, dropped.code.as_str(), None);
        drop_seeds(
            &mut context.metadata_seeds,
            dropped.category,
            dropped.code.as_str(),
            Some(dropped.generation),
        );
        drop_seeds(
            &mut context.identity_seeds,
            dropped.category,
            dropped.code.as_str(),
            Some(dropped.generation),
        );
        proof {
            let new_requests = context.requests@;
            let pos: int = if (k as int) < at {
                at - 1
            } else {
                at
            };
            assert(new_requests[pos] == placed_seq[at]);
            assert forall|a: int, b: int| 0 <= a < b < new_requests.len() implies !request_of(
                #[trigger] new_requests[a],
                new_requests[b].category,
                #[trigger] new_requests[b].code@,
            ) by {
                let a0 = if a < k { a } else { a + 1 };
                let b0 = if b < k { b } else { b + 1 };
                assert(new_requests[a] == placed_seq[a0]);
                assert(new_requests[b] == placed_seq[b0]);
            }
            lemma_request_index_distinct(new_requests, pos, 0);
            assert(new_requests[pos].category == category);
            assert(new_requests[pos].code@ == code@);
            assert(request_index(new_requests, category, code@, 0) == pos);
            let covers1 = covers_without_code(old_context.covers@, category, code@);
            covers1.lemma_filter_len(
                |c: PresentationCover| !cover_of_code(c, dropped.category, dropped.code@),
            );
            assert(begun(old_context, *context, category, code@, generation, k as int));
        }
    } else {
        proof {
            assert(begun(old_context, *context, category, code@, generation, -1));
        }
    }
    Ok(())
}

/// Whether `after` is `before` with request `generation` of `code` in `category` closed:
/// every request keeps its code and generation, and only that one loses its openness.
pub open spec fn cancelled_requests(
    before: Seq<CoverRequestAuthority>,
    after: Seq<CoverRequestAuthority>,
    category: LibraryPresentationCategory,
    code: Seq<char>,
    generation: u64,
) -> bool {
    &&& after.len() == before.len()
    &&& forall|j: int|
        0 <= j < before.len() ==> {
            let r = #[trigger] before[j];
            let s = after[j];
            &&& s.category == r.category
            &&& s.code == r.code
            &&& s.generation == r.generation
            &&& s.active == (r.active && !(request_of(r, category, code) && r.generation
                == generation))
        }
}

/// Closes request `generation` of `code` in `category` when it is the held one, and drops the
/// covers and seeds it produced; a request that is not held changes nothing but those.
pub fn cancel_cover_request(
    context: &mut LibraryPresentationContext,
    category: LibraryPresentationCategory,
    code: &str,
    generation: u64,
)
    requires
        old(context).wf(),
    ensures
        final(context).wf(),
        cancelled_requests(
            old(context).requests@,
            final(context).requests@,
            category,
            code@,
            generation,
        ),
        final(context).covers@ == covers_without_request(
            old(context).covers@,
            category,
            code@,
            generation,
        ),
        final(context).metadata_seeds@ == seeds_without_request(
            old(context).metadata_seeds@,
            category,
            code@,
            generation,
        ),
        final(context).identity_seeds@ == seeds_without_request(
            old(context).identity_seeds@,
            category,
            code@,
            generation,
        ),
        final(context).failed_sources == old(context).failed_sources,
        final(context).next_sequence == old(context).next_sequence,
        generation != 0 ==> !spec_cover_request_matches(final(context).requests@, category, code@, generation),
{
    let ghost old_context = *context;
    let i = find_request(&context.requests, category, code);
    proof {
        lemma_request_index_found(context.requests@, category, code@, 0);
    }
    if i < context.requests.len() && context.requests[i].generation == generation {
        let mut closed = context.requests.remove(i);
        closed.active = false;
        context.requests.insert(i, closed);
        proof {
            assert forall|j: int| 0 <= j < old_context.requests@.len() && j != i implies !(
            request_of(old_context.requests@[j], category, code@) && old_context.requests@[j].generation
                == generation) by {
                lemma_held_at(old_context.requests@, j);
                lemma_held_at(old_context.requests@, i as int);
            }
            assert forall|a: int, b: int|
                0 <= a < b < context.requests@.len() implies !request_of(
                #[trigger] context.requests@[a],
                context.requests@[b].category,
                #[trigger] context.requests@[b].code@,
            ) by {
                assert(old_context.requests@[a].category == context.requests@[a].category);
                assert(old_context.requests@[b].category == context.requests@[b].category);
                assert(old_context.requests@[a].code == context.requests@[a].code);
                assert(old_context.requests@[b].code == context.requests@[b].code);
            }
        }
    } else {
        proof {
            if i < context.requests.len() {
                assert forall|j: int| 0 <= j < old_context.requests@.len() implies !(request_of(
                    old_context.requests@[j],
                    category,
                    code@,
                ) && old_context.requests@[j].generation == generation) by {
                    if request_of(old_context.requests@[j], category, code@) && j != i {
                        lemma_held_at(old_context.requests@, j);
                    }
                }
            } else {
                lemma_request_index_absent(old_context.requests@, category, code@, 0);
            }
        }
    }
    drop_covers(&mut context.covers, category, code, Some(generation));
    proof {
        old_context.covers@.lemma_filter_len(
            |c: PresentationCover|
                !(cover_of_code(c, category, code@) && c.request_generation == generation),
        );
    }
    retire_metadata_seed(context, category, code, generation);
    proof {
        lemma_request_index_same_codes(old_context.requests@, context.requests@, category, code@, 0);
        lemma_request_index_found(context.requests@, category, code@, 0);
    }
}

/// Requests with the same codes at every position find a code at the same index.
proof fn lemma_request_index_same_codes(
    a: Seq<CoverRequestAuthority>,
    b: Seq<CoverRequestAuthority>,
    category: LibraryPresentationCategory,
    code: Seq<char>,
    i: int,
)
    requires
        a.len() == b.len(),
        forall|j: int|
            0 <= j < a.len() ==> (#[trigger] a[j]).category == b[j].category && a[j].code == b[j].code,
    ensures
        request_index(a, category, code, i) == request_index(b, category, code, i),
    decreases a.len() - i,
{
    if 0 <= i < a.len() {
        assert(a[i].category == b[i].category && a[i].code == b[i].code);
        lemma_request_index_same_codes(a, b, category, code, i + 1);
    }
}

/// Whether a seed is still wanted: the request that found it is current.
pub open spec fn seed_current<T>(s: Seed<T>, requests: Seq<CoverRequestAuthority>) -> bool {
    spec_cover_request_matches(requests, s.key.category, s.key.code@, s.key.request_generation)
}

/// Whether seed `k` is the one to drop first: no longer wanted, and no other such seed is
/// older (ties go to the earlier one).
pub open spec fn oldest_obsolete<T>(seeds: Seq<Seed<T>>, requests: Seq<CoverRequestAuthority>, k: int) -> bool {
    &&& 0 <= k < seeds.len()
    &&& !seed_current(seeds[k], requests)
    &&& forall|j: int|
        0 <= j < seeds.len() && !seed_current(#[trigger] seeds[j], requests) ==> seeds[k].sequence
            <= seeds[j].sequence && (j < k ==> seeds[k].sequence < seeds[j].sequence)
}

proof fn lemma_oldest_obsolete_unique<T>(
    seeds: Seq<Seed<T>>,
    requests: Seq<CoverRequestAuthority>,
    a: int,
    b: int,
)
    requires
        oldest_obsolete(seeds, requests, a),
        oldest_obsolete(seeds, requests, b),
    ensures
        a == b,
{
    if a < b {
        assert(!seed_current(seeds[a], requests));
    } else if b < a {
        assert(!seed_current(seeds[b], requests));
    }
}

/// The seeds once trimmed to `MAX_RETAINED_METADATA_SEEDS`: the oldest seeds no longer wanted
/// go first; seeds still wanted are never dropped.
pub open spec fn bounded_seeds<T>(seeds: Seq<Seed<T>>, requests: Seq<CoverRequestAuthority>) -> Seq<
    Seed<T>,
>
    decreases seeds.len(),
{
    if seeds.len() <= MAX_RETAINED_METADATA_SEEDS {
        seeds
    } else if exists|k: int| oldest_obsolete(seeds, requests, k) {
        let k = choose|k: int| oldest_obsolete(seeds, requests, k);
        bounded_seeds(seeds.remove(k), requests)
    } else {
        seeds
    }
}

fn find_oldest_obsolete<T>(seeds: &Vec<Seed<T>>, requests: &Vec<CoverRequestAuthority>) -> (found:
    Option<usize>)
    ensures
        match found {
            Some(k) => oldest_obsolete(seeds@, requests@, k as int),
            None => forall|j: int| 0 <= j < seeds@.len() ==> seed_current(#[trigger] seeds@[j], requests@),
        },
{
    let mut best: Option<usize> = None;
    let mut i: usize = 0;
    while i < seeds.len()
        invariant
            i <= seeds@.len(),
            match best {
                Some(b) => b < i && !seed_current(seeds@[b as int], requests@) && forall|j: int|
                    0 <= j < i && !seed_current(#[trigger] seeds@[j], requests@)
                        ==> seeds@[b as int].sequence <= seeds@[j].sequence && (j < b
                        ==> seeds@[b as int].sequence < seeds@[j].sequence),
                None => forall|j: int| 0 <= j < i ==> seed_current(#[trigger] seeds@[j], requests@),
            },
        decreases seeds@.len() - i,
    {
        let key = &seeds[i].key;
        if !request_matches_in(requests, key.category, key.code.as_str(), key.request_generation) {
            match best {
                Some(b) => {
                    if seeds[i].sequence < seeds[b].sequence {
                        best = Some(i);
                    }
                },
                None => {
                    best = Some(i);
                },
            }
        }
        i = i + 1;
    }
    best
}

/// Trims `seeds` to `MAX_RETAINED_METADATA_SEEDS` by dropping the oldest seeds that are no
/// longer wanted.
fn bound_seeds<T>(seeds: &mut Vec<Seed<T>>, requests: &Vec<CoverRequestAuthority>)
    ensures
        final(seeds)@ == bounded_seeds(old(seeds)@, requests@),
{
    while seeds.len() > MAX_RETAINED_METADATA_SEEDS
        invariant
            bounded_seeds(seeds@, requests@) == bounded_seeds(old(seeds)@, requests@),
        decreases seeds@.len(),
    {
        match find_oldest_obsolete(seeds, requests) {
            None => {
                assert(!exists|k: int| oldest_obsolete(seeds@, requests@, k));
                return;
            },
            Some(k) => {
                proof {
                    let c = choose|j: int| oldest_obsolete(seeds@, requests@, j);
                    lemma_oldest_obsolete_unique(seeds@, requests@, c, k as int);
                }
                seeds.remove(k);
            },
        }
    }
}

/// Trims both kinds of seeds.
pub fn bound_metadata_seeds(context: &mut LibraryPresentationContext)
    ensures
        final(context).metadata_seeds@ == bounded_seeds(
            old(context).metadata_seeds@,
            old(context).requests@,
        ),
        final(context).identity_seeds@ == bounded_seeds(
            old(context).identity_seeds@,
            old(context).requests@,
        ),
        final(context).requests == old(context).requests,
        final(context).covers == old(context).covers,
        final(context).failed_sources == old(context).failed_sources,
        final(context).next_sequence == old(context).next_sequence,
{
    bound_seeds(&mut context.metadata_seeds, &context.requests);
    bound_seeds(&mut context.identity_seeds, &context.requests);
}

/// Whether a seed key is of `authority`'s item and request `generation`.
pub open spec fn seed_key_of(key: SeedKey, authority: LibraryItemAuthority, generation: u64) -> bool {
    key.category == authority.category && key.code@ == authority.code@ && key.item_identity@
        == authority.identity@ && key.request_generation == generation
}

/// The index of the first seed under `authority`'s key for request `generation`, or the
/// number of seeds.
pub open spec fn seed_index<T>(
    seeds: Seq<Seed<T>>,
    authority: LibraryItemAuthority,
    generation: u64,
    i: int,
) -> int
    decreases seeds.len() - i,
{
    if i < 0 || i >= seeds.len() {
        seeds.len() as int
    } else if seed_key_of(seeds[i].key, authority, generation) {
        i
    } else {
        seed_index(seeds, authority, generation, i + 1)
    }
}

/// The seeds once `seed` is kept under its key: it replaces the seed kept under that key, or
/// is added last.
pub open spec fn with_seed<T>(
    seeds: Seq<Seed<T>>,
    authority: LibraryItemAuthority,
    generation: u64,
    seed: Seed<T>,
) -> Seq<Seed<T>> {
    let i = seed_index(seeds, authority, generation, 0);
    if i < seeds.len() {
        seeds.update(i, seed)
    } else {
        seeds.push(seed)
    }
}

fn seed_key_of_exec(key: &SeedKey, authority: &LibraryItemAuthority, generation: u64) -> (is: bool)
    ensures
        is == seed_key_of(*key, *authority, generation),
{
    key.category == authority.category && key.code == authority.code && key.item_identity
        == authority.identity && key.request_generation == generation
}

fn put_seed<T>(
    seeds: &mut Vec<Seed<T>>,
    authority: &LibraryItemAuthority,
    generation: u64,
    seed: Seed<T>,
)
    ensures
        final(seeds)@ == with_seed(old(seeds)@, *authority, generation, seed),
{
    let mut i: usize = 0;
    while i < seeds.len()
        invariant
            i <= seeds@.len(),
            seeds@ == old(seeds)@,
            seed_index(seeds@, *authority, generation, 0) == seed_index(
                seeds@,
                *authority,
                generation,
                i as int,
            ),
        decreases seeds@.len() - i,
    {
        if seed_key_of_exec(&seeds[i].key, authority, generation) {
            seeds.set(i, seed);
            return;
        }
        i = i + 1;
    }
    seeds.push(seed);
}

fn seed_key(authority: &LibraryItemAuthority, generation: u64) -> (key: SeedKey)
    ensures
        seed_key_of(key, *authority, generation),
{
    SeedKey {
        category: authority.category,
        code: authority.code.clone(),
        item_identity: authority.identity.clone(),
        request_generation: generation,
    }
}

/// Keeps `metadata` as found by request `generation` for `authority`'s item, at the next
/// sequence number, and trims the seeds.
pub fn retain_metadata_seed(
    context: &mut LibraryPresentationContext,
    authority: &LibraryItemAuthority,
    generation: u64,
    metadata: PresentationMetadata,
)
    ensures
        final(context).next_sequence == (if old(context).next_sequence == u64::MAX {
            0
        } else {
            (old(context).next_sequence + 1) as u64
        }),
        exists|seed: Seed<PresentationMetadata>|
            seed_key_of(seed.key, *authority, generation) && seed.value == metadata && seed.sequence
                == final(context).next_sequence && final(context).metadata_seeds@ == bounded_seeds(
                with_seed(old(context).metadata_seeds@, *authority, generation, seed),
                old(context).requests@,
            ),
        final(context).identity_seeds@ == bounded_seeds(
            old(context).identity_seeds@,
            old(context).requests@,
        ),
        final(context).requests == old(context).requests,
        final(context).covers == old(context).covers,
        final(context).failed_sources == old(context).failed_sources,
{
    context.next_sequence = context.next_sequence.wrapping_add(1);
    let seed = Seed { key: seed_key(authority, generation), value: metadata, sequence: context.next_sequence };
    let ghost kept = seed;
    put_seed(&mut context.metadata_seeds, authority, generation, seed);
    bound_metadata_seeds(context);
    assert(seed_key_of(kept.key, *authority, generation));
}

/// Whether a cover source agrees with the verified identity of an item whose code is `code`,
/// given whether the source passed its provider's own checks (`source_valid`): a JavDB cover
/// needs the same JavDB identity; a FANZA cover needs the same display code, verified by JavDB
/// or by FANZA with the same id; an r18.dev cover shows the verified display code, or the
/// item's code when none is verified.
pub open spec fn spec_cover_identity_consistent(
    source: CoverSource,
    identity: Option<VerifiedDisplayIdentity>,
    code: Seq<char>,
    source_valid: bool,
) -> bool {
    spec_source_identity_consistent(
        source.provider,
        source.provider_id@,
        source.display_code@,
        identity,
        code,
        source_valid,
    )
}

/// The same rule, over the provider, provider id and display code of a source.
pub open spec fn spec_source_identity_consistent(
    provider: CoverProvider,
    provider_id: Seq<char>,
    display_code: Seq<char>,
    identity: Option<VerifiedDisplayIdentity>,
    code: Seq<char>,
    source_valid: bool,
) -> bool {
    source_valid && match provider {
        CoverProvider::JavDb => identity is Some && identity->0.provider == DisplayProvider::JavDb
            && identity->0.provider_id@ == provider_id && identity->0.display_code@ == display_code,
        CoverProvider::Fanza => identity is Some && identity->0.display_code@ == display_code && (
        identity->0.provider == DisplayProvider::JavDb || (identity->0.provider
            == DisplayProvider::Fanza && identity->0.provider_id@ == provider_id)),
        CoverProvider::R18Dev => if identity is Some {
            identity->0.display_code@ == display_code
        } else {
            display_code == code
        },
    }
}

pub fn cover_identity_consistent(
    source: &CoverSource,
    identity: Option<&VerifiedDisplayIdentity>,
    code: &str,
    source_valid: bool,
) -> (consistent: bool)
    ensures
        consistent == spec_cover_identity_consistent(
            *source,
            match identity {
                Some(i) => Some(*i),
                None => None,
            },
            code@,
            source_valid,
        ),
{
    source_identity_consistent(
        source.provider,
        &source.provider_id,
        &source.display_code,
        identity,
        code,
        source_valid,
    )
}

/// Whether a source with this provider, provider id and display code agrees with the verified
/// identity (see `spec_cover_identity_consistent`).
pub fn source_identity_consistent(
    provider: CoverProvider,
    provider_id: &String,
    display_code: &String,
    identity: Option<&VerifiedDisplayIdentity>,
    code: &str,
    source_valid: bool,
) -> (consistent: bool)
    ensures
        consistent == spec_source_identity_consistent(
            provider,
            provider_id@,
            display_code@,
            match identity {
                Some(i) => Some(*i),
                None => None,
            },
            code@,
            source_valid,
        ),
{
    if !source_valid {
        return false;
    }
    match provider {
        CoverProvider::JavDb => match identity {
            Some(i) => i.provider == DisplayProvider::JavDb && i.provider_id == *provider_id
                && i.display_code == *display_code,
            None => false,
        },
        CoverProvider::Fanza => match identity {
            Some(i) => i.display_code == *display_code && (i.provider == DisplayProvider::JavDb
                || (i.provider == DisplayProvider::Fanza && i.provider_id == *provider_id)),
            None => false,
        },
        CoverProvider::R18Dev => match identity {
            Some(i) => i.display_code == *display_code,
            None => same_text(display_code.as_str(), code),
        },
    }
}

/// Whether a response may be given for `cover_state`: a ready cover needs a source that agrees
/// with the verified identity; a missing or unavailable cover has no source.
pub open spec fn cover_contract_valid(
    cover_state: Seq<char>,
    cover: Option<CoverSource>,
    identity: Option<VerifiedDisplayIdentity>,
    code: Seq<char>,
    source_valid: bool,
) -> bool {
    if cover_state == "ready"@ {
        cover is Some && spec_cover_identity_consistent(cover->0, identity, code, source_valid)
    } else if cover_state == "missing"@ || cover_state == "unavailable"@ {
        cover is None
    } else {
        false
    }
}

/// The text whose SHA-1 names a waiting cover.
pub open spec fn cover_authority_text(identity: Seq<char>, url: Seq<char>, generation: u64) -> Seq<char> {
    identity + seq!['\0'] + url + seq!['\0'] + decimal_string(generation as nat)
}

/// The id of the waiting cover from `url` for item `identity` and request `generation`.
pub open spec fn spec_cover_authority_id(identity: Seq<char>, url: Seq<char>, generation: u64) -> Seq<char> {
    "library-cover-"@ + spec_hex_sha1(encode_utf8(cover_authority_text(identity, url, generation)))
}

pub fn cover_authority_id(identity: &str, url: &str, generation: u64) -> (id: String)
    ensures
        id@ == spec_cover_authority_id(identity@, url@, generation),
{
    let mut text = owned(identity);
    push_separator(&mut text);
    push_str(&mut text, url);
    push_separator(&mut text);
    push_number(&mut text, generation);
    let digest = hex_sha1(text.as_str().as_bytes());
    proof {
        reveal_strlit("library-cover-");
    }
    let mut id = owned("library-cover-");
    push_str(&mut id, digest.as_str());
    id
}

/// Whether a waiting cover is still wanted: the request it answers is current.
pub open spec fn cover_current(c: PresentationCover, requests: Seq<CoverRequestAuthority>) -> bool {
    spec_cover_request_matches(requests, c.category, c.code@, c.request_generation)
}

/// Whether cover `k` is the one to drop first: no longer wanted, and no other such cover is
/// older (ties go to the earlier one).
pub open spec fn oldest_obsolete_cover(
    covers: Seq<PresentationCover>,
    requests: Seq<CoverRequestAuthority>,
    k: int,
) -> bool {
    &&& 0 <= k < covers.len()
    &&& !cover_current(covers[k], requests)
    &&& forall|j: int|
        0 <= j < covers.len() && !cover_current(#[trigger] covers[j], requests)
            ==> covers[k].sequence <= covers[j].sequence && (j < k ==> covers[k].sequence
            < covers[j].sequence)
}

proof fn lemma_oldest_obsolete_cover_unique(
    covers: Seq<PresentationCover>,
    requests: Seq<CoverRequestAuthority>,
    a: int,
    b: int,
)
    requires
        oldest_obsolete_cover(covers, requests, a),
        oldest_obsolete_cover(covers, requests, b),
    ensures
        a == b,
{
    if a < b {
        assert(!cover_current(covers[a], requests));
    } else if b < a {
        assert(!cover_current(covers[b], requests));
    }
}

/// The covers with room for one more: unchanged below `MAX_RETAINED_COVER_AUTHORITIES`,
/// otherwise without the oldest cover no longer wanted; none when every cover is wanted.
pub open spec fn room_for_cover(covers: Seq<PresentationCover>, requests: Seq<CoverRequestAuthority>) -> Option<
    Seq<PresentationCover>,
> {
    if covers.len() < MAX_RETAINED_COVER_AUTHORITIES {
        Some(covers)
    } else if exists|k: int| oldest_obsolete_cover(covers, requests, k) {
        Some(covers.remove(choose|k: int| oldest_obsolete_cover(covers, requests, k)))
    } else {
        None
    }
}

fn find_oldest_obsolete_cover(covers: &Vec<PresentationCover>, requests: &Vec<CoverRequestAuthority>) -> (found:
    Option<usize>)
    ensures
        match found {
            Some(k) => oldest_obsolete_cover(covers@, requests@, k as int),
            None => forall|j: int|
                0 <= j < covers@.len() ==> cover_current(#[trigger] covers@[j], requests@),
        },
{
    let mut best: Option<usize> = None;
    let mut i: usize = 0;
    while i < covers.len()
        invariant
            i <= covers@.len(),
            match best {
                Some(b) => b < i && !cover_current(covers@[b as int], requests@) && forall|j: int|
                    0 <= j < i && !cover_current(#[trigger] covers@[j], requests@)
                        ==> covers@[b as int].sequence <= covers@[j].sequence && (j < b
                        ==> covers@[b as int].sequence < covers@[j].sequence),
                None => forall|j: int| 0 <= j < i ==> cover_current(#[trigger] covers@[j], requests@),
            },
        decreases covers@.len() - i,
    {
        let c = &covers[i];
        if !request_matches_in(requests, c.category, c.code.as_str(), c.request_generation) {
            match best {
                Some(b) => {
                    if covers[i].sequence < covers[b].sequence {
                        best = Some(i);
                    }
                },
                None => {
                    best = Some(i);
                },
            }
        }
        i = i + 1;
    }
    best
}

/// The index of the first cover with id `id`, or the number of covers.
pub open spec fn cover_index(covers: Seq<PresentationCover>, id: Seq<char>, i: int) -> int
    decreases covers.len() - i,
{
    if i < 0 || i >= covers.len() {
        covers.len() as int
    } else if covers[i].id@ == id {
        i
    } else {
        cover_index(covers, id, i + 1)
    }
}

/// The covers once `cover` is kept: it replaces the cover with its id, or is added last.
pub open spec fn with_cover(covers: Seq<PresentationCover>, cover: PresentationCover) -> Seq<
    PresentationCover,
> {
    let i = cover_index(covers, cover.id@, 0);
    if i < covers.len() {
        covers.update(i, cover)
    } else {
        covers.push(cover)
    }
}

proof fn lemma_cover_index_bounds(covers: Seq<PresentationCover>, id: Seq<char>, i: int)
    requires
        0 <= i,
    ensures
        i <= cover_index(covers, id, i) <= covers.len() || cover_index(covers, id, i) == covers.len(),
        cover_index(covers, id, i) < covers.len() ==> covers[cover_index(covers, id, i)].id@ == id,
    decreases covers.len() - i,
{
    if i < covers.len() && covers[i].id@ != id {
        lemma_cover_index_bounds(covers, id, i + 1);
    }
}

fn find_cover(covers: &Vec<PresentationCover>, id: &str) -> (index: usize)
    ensures
        index == cover_index(covers@, id@, 0),
{
    let mut i: usize = 0;
    while i < covers.len()
        invariant
            i <= covers@.len(),
            cover_index(covers@, id@, 0) == cover_index(covers@, id@, i as int),
        decreases covers@.len() - i,
    {
        if same_text(covers[i].id.as_str(), id) {
            return i;
        }
        i = i + 1;
    }
    i
}

fn put_cover(covers: &mut Vec<PresentationCover>, cover: PresentationCover)
    ensures
        final(covers)@ == with_cover(old(covers)@, cover),
{
    let i = find_cover(covers, cover.id.as_str());
    if i < covers.len() {
        covers.set(i, cover);
    } else {
        covers.push(cover);
    }
}

/// How many covers keep their bytes.
pub open spec fn bytes_count(covers: Seq<PresentationCover>) -> nat
    decreases covers.len(),
{
    if covers.len() == 0 {
        0
    } else {
        bytes_count(covers.drop_last()) + if covers.last().bytes is Some {
            1nat
        } else {
            0nat
        }
    }
}

/// Whether cover `k` is the oldest that keeps its bytes (ties go to the earlier one).
pub open spec fn oldest_with_bytes(covers: Seq<PresentationCover>, k: int) -> bool {
    &&& 0 <= k < covers.len()
    &&& covers[k].bytes is Some
    &&& forall|j: int|
        0 <= j < covers.len() && (#[trigger] covers[j]).bytes is Some ==> covers[k].sequence
            <= covers[j].sequence && (j < k ==> covers[k].sequence < covers[j].sequence)
}

proof fn lemma_oldest_with_bytes_unique(covers: Seq<PresentationCover>, a: int, b: int)
    requires
        oldest_with_bytes(covers, a),
        oldest_with_bytes(covers, b),
    ensures
        a == b,
{
    if a < b {
        assert(covers[a].bytes is Some);
    } else if b < a {
        assert(covers[b].bytes is Some);
    }
}

/// Cover `k` without its bytes.
pub open spec fn without_bytes(covers: Seq<PresentationCover>, k: int) -> Seq<PresentationCover> {
    covers.update(k, PresentationCover { bytes: None, ..covers[k] })
}

pub proof fn lemma_bytes_count_clear(covers: Seq<PresentationCover>, k: int)
    requires
        0 <= k < covers.len(),
        covers[k].bytes is Some,
    ensures
        bytes_count(without_bytes(covers, k)) + 1 == bytes_count(covers),
    decreases covers.len(),
{
    let cleared = without_bytes(covers, k);
    if k == covers.len() - 1 {
        assert(cleared.drop_last() =~= covers.drop_last());
    } else {
        assert(cleared.drop_last() =~= without_bytes(covers.drop_last(), k));
        lemma_bytes_count_clear(covers.drop_last(), k);
    }
}

proof fn lemma_bytes_count_some(covers: Seq<PresentationCover>)
    requires
        bytes_count(covers) > 0,
    ensures
        exists|j: int| 0 <= j < covers.len() && (#[trigger] covers[j]).bytes is Some,
    decreases covers.len(),
{
    if covers.last().bytes is Some {
        assert(covers[covers.len() - 1].bytes is Some);
    } else {
        lemma_bytes_count_some(covers.drop_last());
        let j = choose|j: int|
            0 <= j < covers.drop_last().len() && (#[trigger] covers.drop_last()[j]).bytes is Some;
        assert(covers[j] == covers.drop_last()[j]);
    }
}

/// The covers once at most `MAX_RETAINED_COVER_BYTES` keep their bytes: the oldest covers
/// give theirs up first (and are then fetched again from their source).
pub open spec fn bytes_trimmed(covers: Seq<PresentationCover>) -> Seq<PresentationCover>
    decreases bytes_count(covers),
{
    if bytes_count(covers) > MAX_RETAINED_COVER_BYTES && exists|k: int|
        oldest_with_bytes(covers, k) {
        let k = choose|k: int| oldest_with_bytes(covers, k);
        proof {
            lemma_bytes_count_clear(covers, k);
        }
        bytes_trimmed(without_bytes(covers, k))
    } else {
        covers
    }
}

/// Whether `a` is `b` with, at most, its bytes given up.
pub open spec fn same_cover_but_bytes(a: PresentationCover, b: PresentationCover) -> bool {
    a == PresentationCover { bytes: a.bytes, ..b }
}

proof fn lemma_oldest_with_bytes_exists(covers: Seq<PresentationCover>)
    requires
        exists|j: int| 0 <= j < covers.len() && (#[trigger] covers[j]).bytes is Some,
    ensures
        exists|k: int| oldest_with_bytes(covers, k),
    decreases covers.len(),
{
    let n = covers.len() - 1;
    let prefix = covers.drop_last();
    if exists|j: int| 0 <= j < prefix.len() && (#[trigger] prefix[j]).bytes is Some {
        lemma_oldest_with_bytes_exists(prefix);
        let k = choose|k: int| oldest_with_bytes(prefix, k);
        assert(covers[k] == prefix[k]);
        if covers[n].bytes is Some && covers[n].sequence < covers[k].sequence {
            assert forall|j: int| 0 <= j < covers.len() && (#[trigger] covers[j]).bytes is Some implies covers[n].sequence
                <= covers[j].sequence && (j < n ==> covers[n].sequence < covers[j].sequence) by {
                if j < n {
                    assert(covers[j] == prefix[j]);
                }
            }
            assert(oldest_with_bytes(covers, n));
        } else {
            assert forall|j: int| 0 <= j < covers.len() && (#[trigger] covers[j]).bytes is Some implies covers[k].sequence
                <= covers[j].sequence && (j < k ==> covers[k].sequence < covers[j].sequence) by {
                if j < n {
                    assert(covers[j] == prefix[j]);
                }
            }
            assert(oldest_with_bytes(covers, k));
        }
    } else {
        assert forall|j: int| 0 <= j < covers.len() && (#[trigger] covers[j]).bytes is Some implies covers[n].sequence
            <= covers[j].sequence && (j < n ==> covers[n].sequence < covers[j].sequence) by {
            if j < n {
                assert(covers[j] == prefix[j]);
            }
        }
        let w = choose|j: int| 0 <= j < covers.len() && (#[trigger] covers[j]).bytes is Some;
        if w < n {
            assert(covers[w] == prefix[w]);
        }
        assert(oldest_with_bytes(covers, n));
    }
}

/// Trimming bytes keeps every cover in its place, with at most its bytes given up, and leaves
/// at most `MAX_RETAINED_COVER_BYTES` covers with bytes.
proof fn lemma_bytes_trimmed_shape(covers: Seq<PresentationCover>)
    ensures
        bytes_trimmed(covers).len() == covers.len(),
        forall|i: int| 0 <= i < covers.len() ==> same_cover_but_bytes(#[trigger] bytes_trimmed(covers)[i], covers[i]),
        bytes_count(bytes_trimmed(covers)) <= MAX_RETAINED_COVER_BYTES,
    decreases bytes_count(covers),
{
    if bytes_count(covers) > MAX_RETAINED_COVER_BYTES {
        lemma_bytes_count_some(covers);
        lemma_oldest_with_bytes_exists(covers);
        let k = choose|k: int| oldest_with_bytes(covers, k);
        lemma_bytes_count_clear(covers, k);
        let next = without_bytes(covers, k);
        lemma_bytes_trimmed_shape(next);
        assert(bytes_trimmed(covers) == bytes_trimmed(next));
        assert forall|i: int| 0 <= i < covers.len() implies same_cover_but_bytes(#[trigger] bytes_trimmed(covers)[i], covers[i]) by {
            assert(same_cover_but_bytes(bytes_trimmed(next)[i], next[i]));
        }
    }
}

/// Whether `covers` holds exactly one cover of `code` in `category`, and its id is `id`.
pub open spec fn only_cover_of_code(
    covers: Seq<PresentationCover>,
    category: LibraryPresentationCategory,
    code: Seq<char>,
    id: Seq<char>,
) -> bool {
    exists|i: int|
        0 <= i < covers.len() && #[trigger] cover_of_code(covers[i], category, code) && covers[i].id@ == id
            && forall|j: int| 0 <= j < covers.len() && j != i ==> !cover_of_code(#[trigger] covers[j], category, code)
}

/// A cover kept for an item is afterwards the only cover of its code, at most
/// `MAX_RETAINED_COVER_AUTHORITIES` covers wait, and at most `MAX_RETAINED_COVER_BYTES` of
/// them keep their bytes.
pub proof fn law_kept_cover_stands_alone(
    covers: Seq<PresentationCover>,
    requests: Seq<CoverRequestAuthority>,
    c: PresentationCover,
)
    requires
        covers.len() <= MAX_RETAINED_COVER_AUTHORITIES,
        room_for_cover(covers_without_code(covers, c.category, c.code@), requests) is Some,
    ensures
        ({
            let after = bytes_trimmed(
                with_cover(room_for_cover(covers_without_code(covers, c.category, c.code@), requests)->0, c),
            );
            &&& only_cover_of_code(after, c.category, c.code@, c.id@)
            &&& after.len() <= MAX_RETAINED_COVER_AUTHORITIES
            &&& bytes_count(after) <= MAX_RETAINED_COVER_BYTES
        }),
{
    let pred = |x: PresentationCover| !cover_of_code(x, c.category, c.code@);
    let kept = covers_without_code(covers, c.category, c.code@);
    covers.lemma_filter_len(pred);
    assert forall|i: int| 0 <= i < kept.len() implies !cover_of_code(#[trigger] kept[i], c.category, c.code@) by {
        covers.lemma_filter_pred(pred, i);
    }
    let room = room_for_cover(kept, requests)->0;
    if kept.len() >= MAX_RETAINED_COVER_AUTHORITIES {
        let k = choose|k: int| oldest_obsolete_cover(kept, requests, k);
        assert forall|i: int| 0 <= i < room.len() implies !cover_of_code(#[trigger] room[i], c.category, c.code@) by {
            if i < k {
                assert(room[i] == kept[i]);
            } else {
                assert(room[i] == kept[i + 1]);
            }
        }
    }
    assert(room.len() < MAX_RETAINED_COVER_AUTHORITIES);
    lemma_cover_index_bounds(room, c.id@, 0);
    let placed = with_cover(room, c);
    let at = cover_index(room, c.id@, 0);
    let i = if at < room.len() { at } else { room.len() as int };
    assert(placed[i] == c);
    assert forall|j: int| 0 <= j < placed.len() && j != i implies !cover_of_code(#[trigger] placed[j], c.category, c.code@) by {
        assert(placed[j] == room[j]);
    }
    lemma_bytes_trimmed_shape(placed);
    let after = bytes_trimmed(placed);
    assert(same_cover_but_bytes(after[i], placed[i]));
    assert forall|j: int| 0 <= j < after.len() && j != i implies !cover_of_code(#[trigger] after[j], c.category, c.code@) by {
        assert(same_cover_but_bytes(after[j], placed[j]));
        assert(!cover_of_code(placed[j], c.category, c.code@));
    }
    assert(cover_of_code(after[i], c.category, c.code@));
}

fn count_bytes(covers: &Vec<PresentationCover>) -> (count: usize)
    ensures
        count == bytes_count(covers@),
{
    let mut count: usize = 0;
    let mut i: usize = 0;
    while i < covers.len()
        invariant
            i <= covers@.len(),
            count <= i,
            count == bytes_count(covers@.subrange(0, i as int)),
        decreases covers@.len() - i,
    {
        assert(covers@.subrange(0, i + 1).drop_last() =~= covers@.subrange(0, i as int));
        if covers[i].bytes.is_some() {
            count = count + 1;
        }
        i = i + 1;
    }
    assert(covers@.subrange(0, covers@.len() as int) =~= covers@);
    count
}

fn find_oldest_with_bytes(covers: &Vec<PresentationCover>) -> (k: usize)
    requires
        exists|j: int| 0 <= j < covers@.len() && (#[trigger] covers@[j]).bytes is Some,
    ensures
        oldest_with_bytes(covers@, k as int),
{
    let mut best: Option<usize> = None;
    let mut i: usize = 0;
    while i < covers.len()
        invariant
            i <= covers@.len(),
            match best {
                Some(b) => b < i && covers@[b as int].bytes is Some && forall|j: int|
                    0 <= j < i && (#[trigger] covers@[j]).bytes is Some ==> covers@[b as int].sequence
                        <= covers@[j].sequence && (j < b ==> covers@[b as int].sequence
                        < covers@[j].sequence),
                None => forall|j: int| 0 <= j < i ==> (#[trigger] covers@[j]).bytes is None,
            },
        decreases covers@.len() - i,
    {
        if covers[i].bytes.is_some() {
            match best {
                Some(b) => {
                    if covers[i].sequence < covers[b].sequence {
                        best = Some(i);
                    }
                },
                None => {
                    best = Some(i);
                },
            }
        }
        i = i + 1;
    }
    match best {
        Some(b) => b,
        None => {
            proof {
                let j = choose|j: int| 0 <= j < covers@.len() && (#[trigger] covers@[j]).bytes is Some;
                assert(covers@[j].bytes is None);
            }
            0
        },
    }
}

fn trim_cover_bytes(covers: &mut Vec<PresentationCover>)
    ensures
        final(covers)@ == bytes_trimmed(old(covers)@),
        final(covers)@.len() == old(covers)@.len(),
{
    loop
        invariant
            bytes_trimmed(covers@) == bytes_trimmed(old(covers)@),
            covers@.len() == old(covers)@.len(),
        decreases bytes_count(covers@),
    {
        let count = count_bytes(covers);
        if count <= MAX_RETAINED_COVER_BYTES {
            return;
        }
        proof {
            lemma_bytes_count_some(covers@);
        }
        let k = find_oldest_with_bytes(covers);
        proof {
            let c = choose|j: int| oldest_with_bytes(covers@, j);
            lemma_oldest_with_bytes_unique(covers@, c, k as int);
            lemma_bytes_count_clear(covers@, k as int);
        }
        let ghost before = covers@;
        let mut cover = covers.remove(k);
        cover.bytes = None;
        covers.insert(k, cover);
        assert(covers@ =~= without_bytes(before, k as int));
    }
}

/// The failed sources not of item `identity`, in order.
pub open spec fn failed_without(failed: Seq<FailedCoverSources>, identity: Seq<char>) -> Seq<
    FailedCoverSources,
> {
    failed.filter(|f: FailedCoverSources| f.item_identity@ != identity)
}

fn drop_failed(failed: &mut Vec<FailedCoverSources>, identity: &str)
    ensures
        final(failed)@ == failed_without(old(failed)@, identity@),
{
    let ghost original = failed@;
    let ghost keep = |f: FailedCoverSources| f.item_identity@ != identity@;
    let n = failed.len();
    let mut kept: Vec<FailedCoverSources> = Vec::new();
    let mut i: usize = 0;
    while failed.len() > 0
        invariant
            original.len() == n,
            i + failed@.len() == original.len(),
            failed@ == original.subrange(i as int, original.len() as int),
            kept@ == original.subrange(0, i as int).filter(keep),
            keep == (|f: FailedCoverSources| f.item_identity@ != identity@),
        decreases failed@.len(),
    {
        let f = failed.remove(0);
        proof {
            lemma_filter_step(original, i as int, keep);
        }
        if !same_text(f.item_identity.as_str(), identity) {
            kept.push(f);
        }
        i = i + 1;
        assert(failed@ =~= original.subrange(i as int, original.len() as int));
    }
    assert(original.subrange(0, original.len() as int) =~= original);
    *failed = kept;
}

/// The sequence number after `n` (wrapping).
pub open spec fn sequence_after(n: u64) -> u64 {
    if n == u64::MAX {
        0
    } else {
        (n + 1) as u64
    }
}

/// Whether `c` is the waiting cover that `source` gives `authority`'s item for request
/// `generation`, kept with `bytes` at `sequence`.
pub open spec fn cover_for(
    c: PresentationCover,
    authority: LibraryItemAuthority,
    generation: u64,
    source: CoverSource,
    bytes: Option<Vec<u8>>,
    sequence: u64,
) -> bool {
    &&& c.id@ == spec_cover_authority_id(authority.identity@, source.url@, generation)
    &&& c.category == authority.category
    &&& c.code@ == authority.code@
    &&& c.item_identity@ == authority.identity@
    &&& c.source == source
    &&& c.bytes == bytes
    &&& c.request_generation == generation
    &&& c.sequence == sequence
}

/// Keeps the cover that `source` gives `authority`'s item for request `generation`, when
/// that request is still wanted: the item code's other covers go, room is made by dropping
/// the oldest cover no longer wanted (failing when every cover is wanted), the item's failed
/// sources are forgotten, and the oldest covers give up their bytes past
/// `MAX_RETAINED_COVER_BYTES`. Gives the cover's id.
pub fn record_presentation_cover(
    context: &mut LibraryPresentationContext,
    authority: &LibraryItemAuthority,
    generation: u64,
    source: CoverSource,
    bytes: Option<Vec<u8>>,
) -> (result: Result<String, &'static str>)
    requires
        old(context).wf(),
    ensures
        final(context).wf(),
        final(context).requests == old(context).requests,
        final(context).metadata_seeds == old(context).metadata_seeds,
        final(context).identity_seeds == old(context).identity_seeds,
        !spec_cover_request_matches(old(context).requests@, authority.category, authority.code@, generation)
            ==> result == Err::<String, &'static str>(LIBRARY_PRESENTATION_STALE) && final(context).covers
            == old(context).covers && final(context).failed_sources == old(context).failed_sources
            && final(context).next_sequence == old(context).next_sequence,
        spec_cover_request_matches(old(context).requests@, authority.category, authority.code@, generation)
            ==> {
            let room = room_for_cover(
                covers_without_code(old(context).covers@, authority.category, authority.code@),
                old(context).requests@,
            );
            if room is None {
                &&& result == Err::<String, &'static str>(LIBRARY_PRESENTATION_FAILED)
                &&& final(context).covers@ == covers_without_code(
                    old(context).covers@,
                    authority.category,
                    authority.code@,
                )
                &&& final(context).failed_sources == old(context).failed_sources
                &&& final(context).next_sequence == old(context).next_sequence
            } else {
                &&& result matches Ok(id) && id@ == spec_cover_authority_id(
                    authority.identity@,
                    source.url@,
                    generation,
                )
                &&& final(context).next_sequence == sequence_after(old(context).next_sequence)
                &&& exists|c: PresentationCover|
                    cover_for(c, *authority, generation, source, bytes, final(context).next_sequence)
                        && final(context).covers@ == bytes_trimmed(with_cover(room->0, c))
                &&& final(context).failed_sources@ == failed_without(
                    old(context).failed_sources@,
                    authority.identity@,
                )
            }
        },
{
    if !cover_request_matches(context, authority.category, authority.code.as_str(), generation) {
        return Err(LIBRARY_PRESENTATION_STALE);
    }
    let ghost old_context = *context;
    drop_covers(&mut context.covers, authority.category, authority.code.as_str(), None);
    let ghost trimmed = context.covers@;
    proof {
        old_context.covers@.lemma_filter_len(
            |c: PresentationCover| !cover_of_code(c, authority.category, authority.code@),
        );
    }
    if context.covers.len() >= MAX_RETAINED_COVER_AUTHORITIES {
        match find_oldest_obsolete_cover(&context.covers, &context.requests) {
            None => {
                assert(!exists|k: int| oldest_obsolete_cover(trimmed, old_context.requests@, k));
                return Err(LIBRARY_PRESENTATION_FAILED);
            },
            Some(k) => {
                proof {
                    let c = choose|j: int| oldest_obsolete_cover(trimmed, old_context.requests@, j);
                    lemma_oldest_obsolete_cover_unique(trimmed, old_context.requests@, c, k as int);
                }
                context.covers.remove(k);
            },
        }
    }
    let ghost room = context.covers@;
    assert(room_for_cover(trimmed, old_context.requests@) == Some(room));
    assert(room.len() < MAX_RETAINED_COVER_AUTHORITIES);
    context.next_sequence = context.next_sequence.wrapping_add(1);
    let id = cover_authority_id(authority.identity.as_str(), source.url.as_str(), generation);
    let cover = PresentationCover {
        id: id.clone(),
        category: authority.category,
        code: authority.code.clone(),
        item_identity: authority.identity.clone(),
        source,
        bytes,
        request_generation: generation,
        sequence: context.next_sequence,
    };
    let ghost kept = cover;
    proof {
        lemma_cover_index_bounds(room, kept.id@, 0);
    }
    put_cover(&mut context.covers, cover);
    assert(context.covers@.len() <= room.len() + 1);
    drop_failed(&mut context.failed_sources, authority.identity.as_str());
    trim_cover_bytes(&mut context.covers);
    assert(cover_for(kept, *authority, generation, source, bytes, context.next_sequence));
    Ok(id)
}

/// Keeps the identity that request `generation` verified for `authority`'s item, when that
/// request is still wanted, at the next sequence number, and trims the seeds.
pub fn record_identity_seed(
    context: &mut LibraryPresentationContext,
    authority: &LibraryItemAuthority,
    generation: u64,
    identity: VerifiedDisplayIdentity,
) -> (result: Result<(), &'static str>)
    ensures
        final(context).requests == old(context).requests,
        final(context).covers == old(context).covers,
        final(context).failed_sources == old(context).failed_sources,
        !spec_cover_request_matches(old(context).requests@, authority.category, authority.code@, generation)
            ==> result == Err::<(), &'static str>(LIBRARY_PRESENTATION_STALE) && final(context).metadata_seeds
            == old(context).metadata_seeds && final(context).identity_seeds == old(context).identity_seeds
            && final(context).next_sequence == old(context).next_sequence,
        spec_cover_request_matches(old(context).requests@, authority.category, authority.code@, generation)
            ==> {
            &&& result is Ok
            &&& final(context).next_sequence == sequence_after(old(context).next_sequence)
            &&& exists|seed: Seed<VerifiedDisplayIdentity>|
                seed_key_of(seed.key, *authority, generation) && seed.value == identity
                    && seed.sequence == final(context).next_sequence && final(context).identity_seeds@
                    == bounded_seeds(
                    with_seed(old(context).identity_seeds@, *authority, generation, seed),
                    old(context).requests@,
                )
            &&& final(context).metadata_seeds@ == bounded_seeds(
                old(context).metadata_seeds@,
                old(context).requests@,
            )
        },
{
    if !cover_request_matches(context, authority.category, authority.code.as_str(), generation) {
        return Err(LIBRARY_PRESENTATION_STALE);
    }
    context.next_sequence = context.next_sequence.wrapping_add(1);
    let seed = Seed { key: seed_key(authority, generation), value: identity, sequence: context.next_sequence };
    let ghost kept = seed;
    put_seed(&mut context.identity_seeds, authority, generation, seed);
    bound_metadata_seeds(context);
    assert(seed_key_of(kept.key, *authority, generation));
    Ok(())
}

/// Whether two states hold the same requests, covers, seeds, failed sources and counter.
pub open spec fn same_state(a: LibraryPresentationContext, b: LibraryPresentationContext) -> bool {
    &&& a.requests == b.requests
    &&& a.covers == b.covers
    &&& a.metadata_seeds == b.metadata_seeds
    &&& a.identity_seeds == b.identity_seeds
    &&& a.failed_sources == b.failed_sources
    &&& a.next_sequence == b.next_sequence
}

/// Whether a cover response is refused before any state is touched: an identity the
/// product-code rules reject (`identity_valid`), or a cover that does not fit its state.
pub open spec fn response_refused(
    authority: LibraryItemAuthority,
    cover_state: Seq<char>,
    cover: Option<CoverSource>,
    identity: Option<VerifiedDisplayIdentity>,
    identity_valid: bool,
    source_valid: bool,
) -> bool {
    (identity is Some && !identity_valid) || !cover_contract_valid(
        cover_state,
        cover,
        identity,
        authority.code@,
        source_valid,
    )
}

/// The fields of a cover response: the format tag, the category, the cover state, the
/// cover's provider, id and display code, the waiting cover's id, the cover's aspect ratio
/// (`ratio`), and the verified identity's provider, id and display code (each empty when
/// absent).
pub open spec fn response_fields(
    authority: LibraryItemAuthority,
    generation: u64,
    cover_state: Seq<char>,
    cover: Option<CoverSource>,
    identity: Option<VerifiedDisplayIdentity>,
    ratio: Seq<char>,
) -> Seq<Seq<char>> {
    seq![
        "library-cover-v3"@,
        authority.category.text(),
        cover_state,
        if cover is Some { cover->0.provider.text() } else { Seq::empty() },
        if cover is Some { cover->0.provider_id@ } else { Seq::empty() },
        if cover is Some { cover->0.display_code@ } else { Seq::empty() },
        if cover is Some {
            spec_cover_authority_id(authority.identity@, cover->0.url@, generation)
        } else {
            Seq::empty()
        },
        ratio,
        if identity is Some { identity->0.provider.text() } else { Seq::empty() },
        if identity is Some { identity->0.provider_id@ } else { Seq::empty() },
        if identity is Some { identity->0.display_code@ } else { Seq::empty() },
    ]
}

/// The aspect ratio that a cover response gives: what `ratio_text` wrote for the cover's width
/// and height, or 0.72 without a cover.
pub open spec fn response_ratio<F: FnOnce(u32, u32) -> String>(
    ratio_text: F,
    cover: Option<CoverSource>,
    ratio: Seq<char>,
) -> bool {
    match cover {
        Some(c) => exists|r: String| r@ == ratio && #[trigger] call_ensures(ratio_text, (c.width, c.height), r),
        None => ratio == DEFAULT_COVER_RATIO_TEXT@,
    }
}

/// Whether a response comes for a request no longer current: it has a cover or an identity
/// to keep.
pub open spec fn response_stale(
    context: LibraryPresentationContext,
    authority: LibraryItemAuthority,
    generation: u64,
    cover: Option<CoverSource>,
    identity: Option<VerifiedDisplayIdentity>,
) -> bool {
    (cover is Some || identity is Some) && !spec_cover_request_matches(
        context.requests@,
        authority.category,
        authority.code@,
        generation,
    )
}

/// Whether a current response's cover finds no room: every other waiting cover is wanted.
pub open spec fn response_full(
    context: LibraryPresentationContext,
    authority: LibraryItemAuthority,
    generation: u64,
    cover: Option<CoverSource>,
    identity: Option<VerifiedDisplayIdentity>,
) -> bool {
    !response_stale(context, authority, generation, cover, identity) && cover is Some
        && room_for_cover(
        covers_without_code(context.covers@, authority.category, authority.code@),
        context.requests@,
    ) is None
}

/// The counter after a response: one step for a kept cover, one for a kept identity.
pub open spec fn response_sequence(
    n: u64,
    cover: Option<CoverSource>,
    identity: Option<VerifiedDisplayIdentity>,
) -> u64 {
    let after_cover = if cover is Some {
        sequence_after(n)
    } else {
        n
    };
    if identity is Some {
        sequence_after(after_cover)
    } else {
        after_cover
    }
}

fn text_or_empty(value: Option<&String>) -> (text: String)
    ensures
        text@ == match value {
            Some(s) => s@,
            None => Seq::empty(),
        },
{
    match value {
        Some(s) => s.clone(),
        None => {
            proof {
                reveal_strlit("");
            }
            owned("")
        },
    }
}

/// Answers a resolved cover for request `generation` of `authority`'s item: the verified
/// identity must pass the product-code rules (`identity_valid`) and the cover must fit
/// `cover_state` (a ready cover needs a source that passed its provider's checks,
/// `source_valid`, and agrees with the identity; a missing or unavailable one has none). A
/// cover is then kept waiting and an identity kept as a seed, both only while the request is
/// current. The response's aspect ratio is what `ratio_text` writes for the cover's width and
/// height, or 0.72 without a cover.
pub fn cover_response(
    context: &mut LibraryPresentationContext,
    authority: &LibraryItemAuthority,
    generation: u64,
    cover_state: &str,
    cover: Option<CoverSource>,
    bytes: Option<Vec<u8>>,
    identity: Option<VerifiedDisplayIdentity>,
    identity_valid: bool,
    source_valid: bool,
    ratio_text: impl FnOnce(u32, u32) -> String,
) -> (result: Result<Vec<String>, &'static str>)
    requires
        old(context).wf(),
        cover matches Some(c) ==> call_requires(ratio_text, (c.width, c.height)),
    ensures
        final(context).wf(),
        final(context).requests == old(context).requests,
        response_refused(*authority, cover_state@, cover, identity, identity_valid, source_valid)
            ==> result == Err::<Vec<String>, &'static str>(LIBRARY_PRESENTATION_FAILED) && same_state(
            *old(context),
            *final(context),
        ),
        !response_refused(*authority, cover_state@, cover, identity, identity_valid, source_valid)
            && response_stale(*old(context), *authority, generation, cover, identity) ==> result
            == Err::<Vec<String>, &'static str>(LIBRARY_PRESENTATION_STALE) && same_state(
            *old(context),
            *final(context),
        ),
        !response_refused(*authority, cover_state@, cover, identity, identity_valid, source_valid)
            && response_full(*old(context), *authority, generation, cover, identity) ==> {
            &&& result == Err::<Vec<String>, &'static str>(LIBRARY_PRESENTATION_FAILED)
            &&& final(context).covers@ == covers_without_code(
                old(context).covers@,
                authority.category,
                authority.code@,
            )
            &&& final(context).metadata_seeds == old(context).metadata_seeds
            &&& final(context).identity_seeds == old(context).identity_seeds
            &&& final(context).failed_sources == old(context).failed_sources
            &&& final(context).next_sequence == old(context).next_sequence
        },
        result is Ok <==> !response_refused(
            *authority,
            cover_state@,
            cover,
            identity,
            identity_valid,
            source_valid,
        ) && !response_stale(*old(context), *authority, generation, cover, identity)
            && !response_full(*old(context), *authority, generation, cover, identity),
        result matches Ok(fields) ==> fields@.len() == 11 && response_ratio(ratio_text, cover, fields@[7]@)
            && crate::tv_scan::texts(fields@) == response_fields(
            *authority,
            generation,
            cover_state@,
            cover,
            identity,
            fields@[7]@,
        ),
        result is Ok && cover is Some ==> exists|c: PresentationCover|
            cover_for(
                c,
                *authority,
                generation,
                cover->0,
                bytes,
                sequence_after(old(context).next_sequence),
            ) && final(context).covers@ == bytes_trimmed(
                with_cover(
                    room_for_cover(
                        covers_without_code(old(context).covers@, authority.category, authority.code@),
                        old(context).requests@,
                    )->0,
                    c,
                ),
            ),
        result matches Ok(fields) ==> (cover is Some ==> only_cover_of_code(
            final(context).covers@,
            authority.category,
            authority.code@,
            fields@[6]@,
        ) && bytes_count(final(context).covers@) <= MAX_RETAINED_COVER_BYTES),
        result is Ok && cover is Some ==> final(context).failed_sources@ == failed_without(
            old(context).failed_sources@,
            authority.identity@,
        ),
        result is Ok && cover is None ==> final(context).covers == old(context).covers,
        result is Ok && cover is None ==> final(context).failed_sources == old(context).failed_sources,
        result is Ok && identity is Some ==> exists|seed: Seed<VerifiedDisplayIdentity>|
            seed_key_of(seed.key, *authority, generation) && seed.value == identity->0
                && seed.sequence == final(context).next_sequence && final(context).identity_seeds@
                == bounded_seeds(
                with_seed(old(context).identity_seeds@, *authority, generation, seed),
                old(context).requests@,
            ),
        result is Ok && identity is Some ==> final(context).metadata_seeds@ == bounded_seeds(
            old(context).metadata_seeds@,
            old(context).requests@,
        ),
        result is Ok && identity is None ==> final(context).metadata_seeds == old(context).metadata_seeds
            && final(context).identity_seeds == old(context).identity_seeds,
        result is Ok ==> final(context).next_sequence == response_sequence(
            old(context).next_sequence,
            cover,
            identity,
        ),
{
    proof {
        reveal_strlit("ready");
        reveal_strlit("missing");
        reveal_strlit("unavailable");
        reveal_strlit("library-cover-v3");
        reveal_strlit("");
    }
    if identity.is_some() && !identity_valid {
        return Err(LIBRARY_PRESENTATION_FAILED);
    }
    let contract = if same_text(cover_state, "ready") {
        match &cover {
            Some(source) => cover_identity_consistent(
                source,
                identity.as_ref(),
                authority.code.as_str(),
                source_valid,
            ),
            None => false,
        }
    } else if same_text(cover_state, "missing") || same_text(cover_state, "unavailable") {
        cover.is_none()
    } else {
        false
    };
    if !contract {
        return Err(LIBRARY_PRESENTATION_FAILED);
    }
    let ratio = match &cover {
        Some(source) => ratio_text(source.width, source.height),
        None => owned(DEFAULT_COVER_RATIO_TEXT),
    };
    let ghost ratio_view = ratio@;
    assert(response_ratio(ratio_text, cover, ratio_view));
    let mut fields: Vec<String> = Vec::new();
    fields.push(owned("library-cover-v3"));
    fields.push(owned(authority.category.value()));
    fields.push(owned(cover_state));
    let provider_text: &str = match &cover {
        Some(source) => source.provider.as_str(),
        None => "",
    };
    fields.push(owned(provider_text));
    fields.push(text_or_empty(
        match &cover {
            Some(source) => Some(&source.provider_id),
            None => None,
        },
    ));
    fields.push(text_or_empty(
        match &cover {
            Some(source) => Some(&source.display_code),
            None => None,
        },
    ));
    let ghost old_context = *context;
    let cover_id = match cover {
        Some(source) => match record_presentation_cover(
            context,
            authority,
            generation,
            source,
            bytes,
        ) {
            Ok(id) => id,
            Err(e) => return Err(e),
        },
        None => {
            if identity.is_some() && !cover_request_matches(
                context,
                authority.category,
                authority.code.as_str(),
                generation,
            ) {
                return Err(LIBRARY_PRESENTATION_STALE);
            }
            owned("")
        },
    };
    fields.push(cover_id);
    fields.push(ratio);
    let identity_provider: &str = match &identity {
        Some(i) => i.provider.as_str(),
        None => "",
    };
    fields.push(owned(identity_provider));
    fields.push(text_or_empty(
        match &identity {
            Some(i) => Some(&i.provider_id),
            None => None,
        },
    ));
    fields.push(text_or_empty(
        match &identity {
            Some(i) => Some(&i.display_code),
            None => None,
        },
    ));
    let ghost middle = *context;
    match identity {
        Some(i) => {
            let recorded = record_identity_seed(context, authority, generation, i);
            assert(recorded is Ok);
        },
        None => {},
    }
    proof {
        assert(""@ =~= Seq::<char>::empty());
        if cover is Some {
            let c = choose|c: PresentationCover|
                cover_for(
                    c,
                    *authority,
                    generation,
                    cover->0,
                    bytes,
                    sequence_after(old_context.next_sequence),
                ) && context.covers@ == bytes_trimmed(
                    with_cover(
                        room_for_cover(
                            covers_without_code(old_context.covers@, authority.category, authority.code@),
                            old_context.requests@,
                        )->0,
                        c,
                    ),
                );
            law_kept_cover_stands_alone(old_context.covers@, old_context.requests@, c);
        }
    }
    assert(crate::tv_scan::texts(fields@) =~= response_fields(
        *authority,
        generation,
        cover_state@,
        cover,
        identity,
        ratio_view,
    ));
    Ok(fields)
}

/// What a fetch of cover bytes gives the view: bytes that pass the cover checks, or a failure.
pub open spec fn checked_cover_bytes(bytes: Result<Seq<u8>, ProviderRequestError>) -> Result<
    Seq<u8>,
    &'static str,
> {
    match bytes {
        Ok(b) => if spec_presentation_cover(b) is Some {
            Ok(b)
        } else {
            Err(LIBRARY_PRESENTATION_FAILED)
        },
        Err(_) => Err(LIBRARY_PRESENTATION_FAILED),
    }
}

/// A fetch result with its bytes as a sequence.
pub open spec fn bytes_result_view<E>(r: Result<Vec<u8>, E>) -> Result<Seq<u8>, E> {
    match r {
        Ok(b) => Ok(b@),
        Err(e) => Err(e),
    }
}

/// Whether waiting cover `c` answers `authority`'s item.
pub open spec fn cover_answers(c: PresentationCover, authority: LibraryItemAuthority) -> bool {
    c.category == authority.category && c.code@ == authority.code@ && c.item_identity@
        == authority.identity@
}

fn checked_bytes(bytes: Result<Vec<u8>, ProviderRequestError>) -> (result: Result<Vec<u8>, &'static str>)
    ensures
        bytes_result_view(result) == checked_cover_bytes(bytes_result_view(bytes)),
{
    match bytes {
        Ok(b) => match validate_presentation_cover(b) {
            Ok((kept, _, _)) => Ok(kept),
            Err(_) => Err(LIBRARY_PRESENTATION_FAILED),
        },
        Err(_) => Err(LIBRARY_PRESENTATION_FAILED),
    }
}

/// Hands the view the bytes of waiting cover `cover_authority_id` of `authority`'s item,
/// consuming it: the bytes in hand, or those `fetch` brings from the cover's source, must
/// pass the cover checks. A cover that is not waiting for that item is stale.
pub fn fetch_cover_with(
    context: &mut LibraryPresentationContext,
    authority: &LibraryItemAuthority,
    cover_authority_id: &str,
    fetch: impl FnOnce(&CoverSource) -> Result<Vec<u8>, ProviderRequestError>,
) -> (result: Result<Vec<u8>, &'static str>)
    requires
        old(context).wf(),
        ({
            let i = cover_index(old(context).covers@, cover_authority_id@, 0);
            i < old(context).covers@.len() && cover_answers(old(context).covers@[i], *authority)
                && old(context).covers@[i].bytes is None ==> forall|source: &CoverSource|
                *source == old(context).covers@[i].source ==> call_requires(fetch, (source,))
        }),
    ensures
        final(context).wf(),
        final(context).requests == old(context).requests,
        final(context).metadata_seeds == old(context).metadata_seeds,
        final(context).identity_seeds == old(context).identity_seeds,
        final(context).failed_sources == old(context).failed_sources,
        final(context).next_sequence == old(context).next_sequence,
        ({
            let i = cover_index(old(context).covers@, cover_authority_id@, 0);
            if i < old(context).covers@.len() && cover_answers(old(context).covers@[i], *authority) {
                let c = old(context).covers@[i];
                &&& final(context).covers@ == old(context).covers@.remove(i)
                &&& c.bytes is Some ==> bytes_result_view(result) == checked_cover_bytes(
                    Ok(c.bytes->0@),
                )
                &&& c.bytes is None ==> exists|fetched: Result<Vec<u8>, ProviderRequestError>|
                    call_ensures(fetch, (&c.source,), fetched) && bytes_result_view(result)
                        == checked_cover_bytes(bytes_result_view(fetched))
            } else {
                &&& result == Err::<Vec<u8>, &'static str>(LIBRARY_PRESENTATION_STALE)
                &&& final(context).covers == old(context).covers
            }
        }),
{
    let i = find_cover(&context.covers, cover_authority_id);
    proof {
        lemma_cover_index_bounds(context.covers@, cover_authority_id@, 0);
    }
    if i >= context.covers.len() {
        return Err(LIBRARY_PRESENTATION_STALE);
    }
    let answers = context.covers[i].category == authority.category && context.covers[i].code
        == authority.code && context.covers[i].item_identity == authority.identity;
    if !answers {
        return Err(LIBRARY_PRESENTATION_STALE);
    }
    let cover = context.covers.remove(i);
    match cover.bytes {
        Some(bytes) => checked_bytes(Ok(bytes)),
        None => {
            let fetched = fetch(&cover.source);
            checked_bytes(fetched)
        },
    }
}

/// The seeds not kept under `authority`'s key for request `generation`, in order.
pub open spec fn seeds_without_key<T>(
    seeds: Seq<Seed<T>>,
    authority: LibraryItemAuthority,
    generation: u64,
) -> Seq<Seed<T>> {
    seeds.filter(|s: Seed<T>| !seed_key_of(s.key, authority, generation))
}

fn drop_seed_key<T>(seeds: &mut Vec<Seed<T>>, authority: &LibraryItemAuthority, generation: u64)
    ensures
        final(seeds)@ == seeds_without_key(old(seeds)@, *authority, generation),
{
    let ghost original = seeds@;
    let ghost keep = |s: Seed<T>| !seed_key_of(s.key, *authority, generation);
    let n = seeds.len();
    let mut kept: Vec<Seed<T>> = Vec::new();
    let mut i: usize = 0;
    while seeds.len() > 0
        invariant
            original.len() == n,
            i + seeds@.len() == original.len(),
            seeds@ == original.subrange(i as int, original.len() as int),
            kept@ == original.subrange(0, i as int).filter(keep),
            keep == (|s: Seed<T>| !seed_key_of(s.key, *authority, generation)),
        decreases seeds@.len(),
    {
        let s = seeds.remove(0);
        proof {
            lemma_filter_step(original, i as int, keep);
        }
        if !seed_key_of_exec(&s.key, authority, generation) {
            kept.push(s);
        }
        i = i + 1;
        assert(seeds@ =~= original.subrange(i as int, original.len() as int));
    }
    assert(original.subrange(0, original.len() as int) =~= original);
    *seeds = kept;
}

/// The index of the failed sources of item `identity`, or the number of entries.
pub open spec fn failed_index(failed: Seq<FailedCoverSources>, identity: Seq<char>, i: int) -> int
    decreases failed.len() - i,
{
    if i < 0 || i >= failed.len() {
        failed.len() as int
    } else if failed[i].item_identity@ == identity {
        i
    } else {
        failed_index(failed, identity, i + 1)
    }
}

/// The URLs once `url` is among them.
pub open spec fn with_url(urls: Seq<Seq<char>>, url: Seq<char>) -> Seq<Seq<char>> {
    if urls.contains(url) {
        urls
    } else {
        urls.push(url)
    }
}

/// Whether `entry` records `url` as failed for `authority`'s item at `sequence`, on top of
/// what `failed` held for it.
pub open spec fn failed_entry_for(
    entry: FailedCoverSources,
    failed: Seq<FailedCoverSources>,
    authority: LibraryItemAuthority,
    url: Seq<char>,
    sequence: u64,
) -> bool {
    let i = failed_index(failed, authority.identity@, 0);
    &&& entry.item_identity@ == authority.identity@
    &&& entry.sequence == sequence
    &&& if i < failed.len() {
        &&& entry.category == failed[i].category
        &&& entry.code == failed[i].code
        &&& texts(entry.urls@) == with_url(texts(failed[i].urls@), url)
    } else {
        &&& entry.category == authority.category
        &&& entry.code@ == authority.code@
        &&& texts(entry.urls@) == seq![url]
    }
}

/// The failed sources once `entry` replaces its item's, or is added last.
pub open spec fn with_failed(failed: Seq<FailedCoverSources>, entry: FailedCoverSources) -> Seq<
    FailedCoverSources,
> {
    let i = failed_index(failed, entry.item_identity@, 0);
    if i < failed.len() {
        failed.update(i, entry)
    } else {
        failed.push(entry)
    }
}

/// Whether an item's failed sources may be forgotten: its code has no open request.
pub open spec fn failed_inactive(f: FailedCoverSources, requests: Seq<CoverRequestAuthority>) -> bool {
    let held = held_request(requests, f.category, f.code@);
    !(held is Some && held->0.active)
}

/// Whether entry `k` is the one to forget first: inactive, and no other inactive entry is
/// older (ties go to the earlier one).
pub open spec fn oldest_inactive_failed(
    failed: Seq<FailedCoverSources>,
    requests: Seq<CoverRequestAuthority>,
    k: int,
) -> bool {
    &&& 0 <= k < failed.len()
    &&& failed_inactive(failed[k], requests)
    &&& forall|j: int|
        0 <= j < failed.len() && failed_inactive(#[trigger] failed[j], requests)
            ==> failed[k].sequence <= failed[j].sequence && (j < k ==> failed[k].sequence
            < failed[j].sequence)
}

proof fn lemma_oldest_inactive_failed_unique(
    failed: Seq<FailedCoverSources>,
    requests: Seq<CoverRequestAuthority>,
    a: int,
    b: int,
)
    requires
        oldest_inactive_failed(failed, requests, a),
        oldest_inactive_failed(failed, requests, b),
    ensures
        a == b,
{
    if a < b {
        assert(failed_inactive(failed[a], requests));
    } else if b < a {
        assert(failed_inactive(failed[b], requests));
    }
}

/// The failed sources once trimmed to `MAX_RETAINED_FAILED_COVER_ITEMS`: the oldest entries
/// of items without an open request go first.
pub open spec fn bounded_failed(
    failed: Seq<FailedCoverSources>,
    requests: Seq<CoverRequestAuthority>,
) -> Seq<FailedCoverSources>
    decreases failed.len(),
{
    if failed.len() <= MAX_RETAINED_FAILED_COVER_ITEMS {
        failed
    } else if exists|k: int| oldest_inactive_failed(failed, requests, k) {
        let k = choose|k: int| oldest_inactive_failed(failed, requests, k);
        bounded_failed(failed.remove(k), requests)
    } else {
        failed
    }
}

fn failed_inactive_exec(f: &FailedCoverSources, requests: &Vec<CoverRequestAuthority>) -> (inactive: bool)
    ensures
        inactive == failed_inactive(*f, requests@),
{
    let i = find_request(requests, f.category, f.code.as_str());
    !(i < requests.len() && requests[i].active)
}

fn bound_failed(failed: &mut Vec<FailedCoverSources>, requests: &Vec<CoverRequestAuthority>)
    ensures
        final(failed)@ == bounded_failed(old(failed)@, requests@),
{
    while failed.len() > MAX_RETAINED_FAILED_COVER_ITEMS
        invariant
            bounded_failed(failed@, requests@) == bounded_failed(old(failed)@, requests@),
        decreases failed@.len(),
    {
        let mut best: Option<usize> = None;
        let mut i: usize = 0;
        while i < failed.len()
            invariant
                i <= failed@.len(),
                match best {
                    Some(b) => b < i && failed_inactive(failed@[b as int], requests@) && forall|j: int|
                        0 <= j < i && failed_inactive(#[trigger] failed@[j], requests@)
                            ==> failed@[b as int].sequence <= failed@[j].sequence && (j < b
                            ==> failed@[b as int].sequence < failed@[j].sequence),
                    None => forall|j: int|
                        0 <= j < i ==> !failed_inactive(#[trigger] failed@[j], requests@),
                },
            decreases failed@.len() - i,
        {
            if failed_inactive_exec(&failed[i], requests) {
                match best {
                    Some(b) => {
                        if failed[i].sequence < failed[b].sequence {
                            best = Some(i);
                        }
                    },
                    None => {
                        best = Some(i);
                    },
                }
            }
            i = i + 1;
        }
        match best {
            None => {
                assert(!exists|k: int| oldest_inactive_failed(failed@, requests@, k));
                return;
            },
            Some(k) => {
                assert(oldest_inactive_failed(failed@, requests@, k as int));
                proof {
                    let c = choose|j: int| oldest_inactive_failed(failed@, requests@, j);
                    lemma_oldest_inactive_failed_unique(failed@, requests@, c, k as int);
                }
                failed.remove(k);
            },
        }
    }
}

fn add_url(urls: &mut Vec<String>, url: &str)
    ensures
        texts(final(urls)@) == with_url(texts(old(urls)@), url@),
{
    let mut i: usize = 0;
    while i < urls.len()
        invariant
            i <= urls@.len(),
            urls@ == old(urls)@,
            forall|j: int| 0 <= j < i ==> urls@[j]@ != url@,
        decreases urls@.len() - i,
    {
        if same_text(urls[i].as_str(), url) {
            assert(texts(urls@)[i as int] == url@);
            return;
        }
        i = i + 1;
    }
    assert(!texts(urls@).contains(url@)) by {
        if texts(urls@).contains(url@) {
            let j = choose|j: int| 0 <= j < texts(urls@).len() && texts(urls@)[j] == url@;
            assert(urls@[j]@ == url@);
        }
    }
    urls.push(owned(url));
    assert(texts(urls@) =~= texts(old(urls)@).push(url@));
}

fn record_failed_url(
    failed: &mut Vec<FailedCoverSources>,
    authority: &LibraryItemAuthority,
    url: &str,
    sequence: u64,
)
    ensures
        exists|entry: FailedCoverSources|
            failed_entry_for(entry, old(failed)@, *authority, url@, sequence) && final(failed)@
                == with_failed(old(failed)@, entry),
{
    let mut i: usize = 0;
    while i < failed.len()
        invariant
            i <= failed@.len(),
            failed@ == old(failed)@,
            failed_index(failed@, authority.identity@, 0) == failed_index(
                failed@,
                authority.identity@,
                i as int,
            ),
        decreases failed@.len() - i,
    {
        if same_text(failed[i].item_identity.as_str(), authority.identity.as_str()) {
            let mut entry = failed.remove(i);
            add_url(&mut entry.urls, url);
            entry.sequence = sequence;
            let ghost kept = entry;
            failed.insert(i, entry);
            assert(failed@ =~= old(failed)@.update(i as int, kept));
            assert(failed_index(old(failed)@, authority.identity@, 0) == i);
            assert(failed_entry_for(kept, old(failed)@, *authority, url@, sequence));
            assert(failed_index(old(failed)@, kept.item_identity@, 0) == i);
            assert(failed@ == with_failed(old(failed)@, kept));
            return;
        }
        i = i + 1;
    }
    let mut urls: Vec<String> = Vec::new();
    urls.push(owned(url));
    let entry = FailedCoverSources {
        item_identity: authority.identity.clone(),
        category: authority.category,
        code: authority.code.clone(),
        urls,
        sequence,
    };
    let ghost kept = entry;
    assert(texts(kept.urls@) =~= seq![url@]);
    failed.push(entry);
    assert(failed_index(old(failed)@, authority.identity@, 0) == old(failed)@.len());
    assert(failed_entry_for(kept, old(failed)@, *authority, url@, sequence));
    assert(failed@ == with_failed(old(failed)@, kept));
}

/// Retires a cover the view could not show, for request `generation` of `authority`'s item:
/// the request must be current; the waiting cover goes, with the seeds of that request. The
/// cache entry of the item must hold a ready cover whose URL (`cached_ready_url`, read from
/// the cache) gives `cover_authority_id`, else the retirement is stale; `mark_missing` then
/// rewrites that entry as missing, and when it did, the URL is remembered as failed.
pub fn invalidate_cover_with(
    context: &mut LibraryPresentationContext,
    authority: &LibraryItemAuthority,
    generation: u64,
    cover_authority_id: &str,
    cached_ready_url: Option<String>,
    mark_missing: impl FnOnce() -> bool,
) -> (result: Result<(), &'static str>)
    requires
        old(context).wf(),
        spec_cover_request_matches(old(context).requests@, authority.category, authority.code@, generation)
            && cached_ready_url is Some && spec_cover_authority_id(
            authority.identity@,
            cached_ready_url->0@,
            generation,
        ) == cover_authority_id@ ==> call_requires(mark_missing, ()),
    ensures
        final(context).wf(),
        final(context).requests == old(context).requests,
        !spec_cover_request_matches(old(context).requests@, authority.category, authority.code@, generation)
            ==> result == Err::<(), &'static str>(LIBRARY_PRESENTATION_STALE) && same_state(
            *old(context),
            *final(context),
        ),
        spec_cover_request_matches(old(context).requests@, authority.category, authority.code@, generation)
            ==> ({
            let i = cover_index(old(context).covers@, cover_authority_id@, 0);
            &&& final(context).covers@ == if i < old(context).covers@.len() && cover_answers(
                old(context).covers@[i],
                *authority,
            ) {
                old(context).covers@.remove(i)
            } else {
                old(context).covers@
            }
            &&& final(context).metadata_seeds@ == seeds_without_key(
                old(context).metadata_seeds@,
                *authority,
                generation,
            )
            &&& final(context).identity_seeds@ == seeds_without_key(
                old(context).identity_seeds@,
                *authority,
                generation,
            )
        }),
        spec_cover_request_matches(old(context).requests@, authority.category, authority.code@, generation)
            && (cached_ready_url is None || spec_cover_authority_id(
            authority.identity@,
            cached_ready_url->0@,
            generation,
        ) != cover_authority_id@) ==> result == Err::<(), &'static str>(LIBRARY_PRESENTATION_STALE)
            && final(context).failed_sources == old(context).failed_sources && final(context).next_sequence
            == old(context).next_sequence,
        spec_cover_request_matches(old(context).requests@, authority.category, authority.code@, generation)
            && cached_ready_url is Some && spec_cover_authority_id(
            authority.identity@,
            cached_ready_url->0@,
            generation,
        ) == cover_authority_id@ ==> exists|written: bool|
            call_ensures(mark_missing, (), written) && if written {
                &&& result is Ok
                &&& final(context).next_sequence == sequence_after(old(context).next_sequence)
                &&& exists|entry: FailedCoverSources|
                    failed_entry_for(
                        entry,
                        old(context).failed_sources@,
                        *authority,
                        cached_ready_url->0@,
                        final(context).next_sequence,
                    ) && final(context).failed_sources@ == bounded_failed(
                        with_failed(old(context).failed_sources@, entry),
                        old(context).requests@,
                    )
            } else {
                &&& result == Err::<(), &'static str>(LIBRARY_PRESENTATION_FAILED)
                &&& final(context).failed_sources == old(context).failed_sources
                &&& final(context).next_sequence == old(context).next_sequence
            },
{
    if !cover_request_matches(context, authority.category, authority.code.as_str(), generation) {
        return Err(LIBRARY_PRESENTATION_STALE);
    }
    let i = find_cover(&context.covers, cover_authority_id);
    proof {
        lemma_cover_index_bounds(context.covers@, cover_authority_id@, 0);
    }
    if i < context.covers.len() && context.covers[i].category == authority.category
        && context.covers[i].code == authority.code && context.covers[i].item_identity
        == authority.identity {
        context.covers.remove(i);
    }
    drop_seed_key(&mut context.metadata_seeds, authority, generation);
    drop_seed_key(&mut context.identity_seeds, authority, generation);
    let url = match cached_ready_url {
        None => return Err(LIBRARY_PRESENTATION_STALE),
        Some(url) => url,
    };
    let expected = self::cover_authority_id(authority.identity.as_str(), url.as_str(), generation);
    if !same_text(expected.as_str(), cover_authority_id) {
        return Err(LIBRARY_PRESENTATION_STALE);
    }
    let written = mark_missing();
    assert(call_ensures(mark_missing, (), written));
    if !written {
        return Err(LIBRARY_PRESENTATION_FAILED);
    }
    context.next_sequence = context.next_sequence.wrapping_add(1);
    let ghost before = context.failed_sources@;
    record_failed_url(&mut context.failed_sources, authority, url.as_str(), context.next_sequence);
    let ghost middle = context.failed_sources@;
    bound_failed(&mut context.failed_sources, &context.requests);
    proof {
        let entry = choose|e: FailedCoverSources|
            failed_entry_for(e, before, *authority, url@, context.next_sequence) && middle
                == with_failed(before, e);
        assert(failed_entry_for(entry, before, *authority, url@, context.next_sequence));
        assert(context.failed_sources@ == bounded_failed(with_failed(before, entry), context.requests@));
    }
    Ok(())
}

/// A cancellation of any other generation leaves a current request current.
pub proof fn law_obsolete_cancellation_keeps_current(
    before: Seq<CoverRequestAuthority>,
    after: Seq<CoverRequestAuthority>,
    category: LibraryPresentationCategory,
    code: Seq<char>,
    cancelled: u64,
    current: u64,
)
    requires
        cancelled_requests(before, after, category, code, cancelled),
        cancelled != current,
        spec_cover_request_matches(before, category, code, current),
    ensures
        spec_cover_request_matches(after, category, code, current),
{
    if current != 0 {
        lemma_request_index_same_codes(before, after, category, code, 0);
        lemma_request_index_found(before, category, code, 0);
    }
}

/// Once request `generation` of a code is open, no generation up to it can begin again for
/// that code: it is stale.
pub proof fn law_begin_needs_a_newer_generation(
    requests: Seq<CoverRequestAuthority>,
    category: LibraryPresentationCategory,
    code: Seq<char>,
    generation: u64,
    again: u64,
)
    requires
        spec_cover_request_matches(requests, category, code, generation),
        generation != 0,
        again <= generation,
    ensures
        begin_refusal(requests, category, code, again) == Some(LIBRARY_PRESENTATION_STALE),
{
}

/// Fetches a cover from `url` unless it already failed for the item (`failed_urls`): a
/// failed source is a provider error and is not fetched again.
pub fn fetch_current_cover_source(
    failed_urls: &Vec<String>,
    url: &str,
    fetch: impl FnOnce(&str) -> Result<Vec<u8>, ProviderRequestError>,
) -> (result: Result<Vec<u8>, ProviderRequestError>)
    requires
        !texts(failed_urls@).contains(url@) ==> call_requires(fetch, (url,)),
    ensures
        texts(failed_urls@).contains(url@) ==> result == Err::<Vec<u8>, ProviderRequestError>(
            ProviderRequestError::Provider,
        ),
        !texts(failed_urls@).contains(url@) ==> call_ensures(fetch, (url,), result),
{
    let mut i: usize = 0;
    while i < failed_urls.len()
        invariant
            i <= failed_urls@.len(),
            forall|j: int| 0 <= j < i ==> failed_urls@[j]@ != url@,
        decreases failed_urls@.len() - i,
    {
        if same_text(failed_urls[i].as_str(), url) {
            assert(texts(failed_urls@)[i as int] == url@);
            return Err(ProviderRequestError::Provider);
        }
        i = i + 1;
    }
    assert(!texts(failed_urls@).contains(url@)) by {
        if texts(failed_urls@).contains(url@) {
            let j = choose|j: int| 0 <= j < texts(failed_urls@).len() && texts(failed_urls@)[j] == url@;
            assert(failed_urls@[j]@ == url@);
        }
    }
    fetch(url)
}

} // verus!
