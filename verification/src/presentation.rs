//! How an adult or VR library item is presented: its category, the display identity a provider
//! has verified for it, the metadata shown beside it, and the checks its cover and provider
//! replies must pass.
use vstd::prelude::*;
use vstd::utf8::{decode_utf8, valid_utf8};

use crate::library_scan::{ascii_lower, ascii_lower_char};
use crate::provider::ProviderRequestError;
use crate::text::{
    chars_of, decimal_string, decimal_string_of, digit_char, is_digit, parse_unsigned, push_str,
    same_text,
    spec_parse_unsigned, string_from_chars, trim_space, trim_space_exec,
};
use crate::tv_scan::{owned, texts};
use crate::tv_store::optional_view;
use crate::tmdb_cover::{
    be16, be32, bytes_at, find_last_transport_marker, last_transport_marker_from, le24,
    starts_with_bytes,
};

verus! {

pub const LIBRARY_PRESENTATION_FAILED: &'static str = "library_presentation_failed";

pub const LIBRARY_PRESENTATION_STALE: &'static str = "library_presentation_stale";

/// Largest accepted cover, in bytes.
pub const PRESENTATION_COVER_MAX_BYTES: usize = 16777216;

/// Smallest accepted cover, in bytes; anything smaller is a placeholder.
pub const PRESENTATION_COVER_MIN_BYTES: usize = 6000;

/// The library an item belongs to.
#[derive(Clone, Copy, Debug, PartialEq, Eq, Hash, Structural)]
pub enum LibraryPresentationCategory {
    Adult,
    Vr,
}

impl LibraryPresentationCategory {
    pub open spec fn text(self) -> Seq<char> {
        match self {
            LibraryPresentationCategory::Adult => "adult"@,
            LibraryPresentationCategory::Vr => "vr"@,
        }
    }

    /// The category that `value` names, if any.
    pub fn parse(value: &str) -> (category: Option<Self>)
        ensures
            match category {
                Some(c) => c.text() == value@,
                None => value@ != "adult"@ && value@ != "vr"@,
            },
    {
        proof {
            reveal_strlit("adult");
            reveal_strlit("vr");
        }
        if same_text(value, "adult") {
            Some(LibraryPresentationCategory::Adult)
        } else if same_text(value, "vr") {
            Some(LibraryPresentationCategory::Vr)
        } else {
            None
        }
    }

    pub fn value(self) -> (text: &'static str)
        ensures
            text@ == self.text(),
    {
        match self {
            LibraryPresentationCategory::Adult => "adult",
            LibraryPresentationCategory::Vr => "vr",
        }
    }
}

/// A provider whose exact match can vouch for an item's display code.
#[derive(Clone, Copy, Debug, PartialEq, Eq, Hash, Structural)]
pub enum DisplayProvider {
    JavDb,
    Fanza,
}

impl DisplayProvider {
    pub open spec fn text(self) -> Seq<char> {
        match self {
            DisplayProvider::JavDb => "JavDB"@,
            DisplayProvider::Fanza => "FANZA"@,
        }
    }

    pub fn as_str(self) -> (text: &'static str)
        ensures
            text@ == self.text(),
    {
        match self {
            DisplayProvider::JavDb => "JavDB",
            DisplayProvider::Fanza => "FANZA",
        }
    }
}

/// The display code a provider verified for an item, with the provider's own id for it.
#[derive(Clone, Debug, PartialEq, Eq)]
pub struct VerifiedDisplayIdentity {
    pub provider: DisplayProvider,
    pub provider_id: String,
    pub display_code: String,
}

/// Whether two identities name the same provider, id and display code.
pub open spec fn same_identity(a: VerifiedDisplayIdentity, b: VerifiedDisplayIdentity) -> bool {
    a.provider == b.provider && a.provider_id@ == b.provider_id@ && a.display_code@
        == b.display_code@
}

/// A copy of `identity`.
pub fn copy_identity(identity: &VerifiedDisplayIdentity) -> (copy: VerifiedDisplayIdentity)
    ensures
        copy == *identity,
{
    VerifiedDisplayIdentity {
        provider: identity.provider,
        provider_id: identity.provider_id.clone(),
        display_code: identity.display_code.clone(),
    }
}

pub fn identities_equal(a: &VerifiedDisplayIdentity, b: &VerifiedDisplayIdentity) -> (equal: bool)
    ensures
        equal == same_identity(*a, *b),
{
    a.provider == b.provider && a.provider_id == b.provider_id && a.display_code
        == b.display_code
}

/// What is shown beside an item: the verified identity it rests on, whether providers
/// disagreed about it, where it came from, and its descriptive fields.
#[derive(Clone, Debug, PartialEq, Eq)]
pub struct PresentationMetadata {
    pub verified_identity: Option<VerifiedDisplayIdentity>,
    pub identity_conflict: bool,
    pub source: Option<String>,
    pub provider_id: Option<String>,
    pub display_code: Option<String>,
    pub title: Option<String>,
    pub date: Option<String>,
    pub runtime: Option<String>,
    pub cast: Vec<String>,
}

impl Default for PresentationMetadata {
    fn default() -> (metadata: Self)
        ensures
            metadata.verified_identity is None,
            !metadata.identity_conflict,
            metadata.source is None,
            metadata.provider_id is None,
            metadata.display_code is None,
            metadata.title is None,
            metadata.date is None,
            metadata.runtime is None,
            metadata.cast@.len() == 0,
    {
        PresentationMetadata {
            verified_identity: None,
            identity_conflict: false,
            source: None,
            provider_id: None,
            display_code: None,
            title: None,
            date: None,
            runtime: None,
            cast: Vec::new(),
        }
    }
}

impl PresentationMetadata {
    pub open spec fn spec_has_provider_fields(self) -> bool {
        self.source is Some && self.provider_id is Some && self.display_code is Some
    }

    pub open spec fn spec_has_descriptive_fields(self) -> bool {
        self.title is Some || self.date is Some || self.runtime is Some || self.cast@.len() > 0
    }

    /// Metadata may be shown once it names its provider, and either describes the item or
    /// rests on a verified identity.
    pub open spec fn spec_is_ready(self) -> bool {
        self.spec_has_provider_fields() && (self.spec_has_descriptive_fields()
            || self.verified_identity is Some)
    }

    pub fn has_provider_fields(&self) -> (result: bool)
        ensures
            result == self.spec_has_provider_fields(),
    {
        self.source.is_some() && self.provider_id.is_some() && self.display_code.is_some()
    }

    pub fn has_descriptive_fields(&self) -> (result: bool)
        ensures
            result == self.spec_has_descriptive_fields(),
    {
        self.title.is_some() || self.date.is_some() || self.runtime.is_some()
            || self.cast.len() > 0
    }

    pub fn is_ready(&self) -> (result: bool)
        ensures
            result == self.spec_is_ready(),
    {
        self.has_provider_fields() && (self.has_descriptive_fields()
            || self.verified_identity.is_some())
    }
}

/// A release date written `YYYY-MM-DD`: ten characters, `-` at the fifth and eighth, ASCII
/// digits elsewhere (the month and day are not range-checked).
pub open spec fn spec_valid_date(s: Seq<char>) -> bool {
    &&& s.len() == 10
    &&& s[4] == '-'
    &&& s[7] == '-'
    &&& forall|i: int| 0 <= i < 10 && i != 4 && i != 7 ==> is_digit(#[trigger] s[i])
}

pub fn valid_date(value: &str) -> (valid: bool)
    ensures
        valid == spec_valid_date(value@),
{
    let chars = chars_of(value);
    if chars.len() != 10 || chars[4] != '-' || chars[7] != '-' {
        return false;
    }
    let mut i: usize = 0;
    while i < 10
        invariant
            chars@ == value@,
            chars@.len() == 10,
            i <= 10,
            forall|k: int| 0 <= k < i && k != 4 && k != 7 ==> is_digit(#[trigger] chars@[k]),
        decreases 10 - i,
    {
        if i != 4 && i != 7 && !digit_char(chars[i]) {
            return false;
        }
        i = i + 1;
    }
    true
}

/// `t` with ASCII letters lower-cased.
pub open spec fn lower_text(t: Seq<char>) -> Seq<char> {
    t.map_values(|c: char| ascii_lower(c))
}

fn lower_chars(t: &[char]) -> (lowered: Vec<char>)
    ensures
        lowered@ == lower_text(t@),
{
    let mut lowered: Vec<char> = Vec::new();
    let mut i: usize = 0;
    while i < t.len()
        invariant
            i <= t@.len(),
            lowered@ == lower_text(t@.subrange(0, i as int)),
        decreases t@.len() - i,
    {
        lowered.push(ascii_lower_char(t[i]));
        assert(t@.subrange(0, i + 1) =~= t@.subrange(0, i as int).push(t@[i as int]));
        i = i + 1;
    }
    assert(t@.subrange(0, t@.len() as int) =~= t@);
    lowered
}

/// Whether `pattern` occurs in `t` at `i`.
pub open spec fn occurs_at(t: Seq<char>, pattern: Seq<char>, i: int) -> bool {
    0 <= i && i + pattern.len() <= t.len() && t.subrange(i, i + pattern.len()) == pattern
}

/// The first position at or after `from` where `pattern` occurs in `t`, or -1.
pub open spec fn first_occurrence(t: Seq<char>, pattern: Seq<char>, from: int) -> int
    decreases t.len() + 1 - from,
{
    if from < 0 || from + pattern.len() > t.len() {
        -1
    } else if occurs_at(t, pattern, from) {
        from
    } else {
        first_occurrence(t, pattern, from + 1)
    }
}

fn occurs_at_exec(t: &[char], pattern: &[char], i: usize) -> (found: bool)
    requires
        i + pattern@.len() <= t@.len(),
    ensures
        found == occurs_at(t@, pattern@, i as int),
{
    let n = t.len();
    let mut k: usize = 0;
    while k < pattern.len()
        invariant
            n == t@.len(),
            i + pattern@.len() <= t@.len(),
            k <= pattern@.len(),
            forall|j: int| 0 <= j < k ==> t@[i + j] == pattern@[j],
        decreases pattern@.len() - k,
    {
        assert(i + k < t@.len());
        if t[i + k] != pattern[k] {
            assert(t@.subrange(i as int, i + pattern@.len())[k as int] != pattern@[k as int]);
            return false;
        }
        k = k + 1;
    }
    assert(t@.subrange(i as int, i + pattern@.len()) =~= pattern@);
    true
}

proof fn lemma_first_occurrence(t: Seq<char>, pattern: Seq<char>, from: int)
    ensures
        first_occurrence(t, pattern, from) >= 0 ==> from <= first_occurrence(t, pattern, from)
            && occurs_at(t, pattern, first_occurrence(t, pattern, from)),
    decreases t.len() + 1 - from,
{
    if from >= 0 && from + pattern.len() <= t.len() && !occurs_at(t, pattern, from) {
        lemma_first_occurrence(t, pattern, from + 1);
    }
}

/// The first position at or after `from` where `pattern` occurs in `t`.
fn find_from(t: &[char], pattern: &[char], from: usize) -> (found: Option<usize>)
    ensures
        match found {
            Some(i) => first_occurrence(t@, pattern@, from as int) == i as int && from <= i && i
                + pattern@.len() <= t@.len() && occurs_at(t@, pattern@, i as int),
            None => first_occurrence(t@, pattern@, from as int) == -1,
        },
{
    if from > t.len() {
        return None;
    }
    let mut i = from;
    loop
        invariant
            from <= i <= t@.len(),
            first_occurrence(t@, pattern@, from as int) == first_occurrence(
                t@,
                pattern@,
                i as int,
            ),
        decreases t@.len() - i,
    {
        if pattern.len() > t.len() - i {
            return None;
        }
        if occurs_at_exec(t, pattern, i) {
            return Some(i);
        }
        if i == t.len() {
            assert(first_occurrence(t@, pattern@, i + 1) == -1);
            return None;
        }
        i = i + 1;
    }
}

/// The page title: the text between the first `<title>` and the first `</title>` after it
/// (tags matched without regard to ASCII case), without surrounding whitespace.
pub open spec fn spec_html_title(document: Seq<char>) -> Option<Seq<char>> {
    let lowered = lower_text(document);
    let open = first_occurrence(lowered, "<title>"@, 0);
    if open < 0 {
        None
    } else {
        let start = open + 7;
        let close = first_occurrence(lowered, "</title>"@, start);
        if close < 0 {
            None
        } else {
            Some(trim_space(document.subrange(start, close)))
        }
    }
}

pub fn html_title(document: &str) -> (title: Option<String>)
    ensures
        match title {
            Some(t) => spec_html_title(document@) == Some(t@),
            None => spec_html_title(document@) is None,
        },
{
    proof {
        reveal_strlit("<title>");
        reveal_strlit("</title>");
    }
    let chars = chars_of(document);
    let lowered = lower_chars(chars.as_slice());
    let open_tag = chars_of("<title>");
    let close_tag = chars_of("</title>");
    let open = match find_from(lowered.as_slice(), open_tag.as_slice(), 0) {
        None => return None,
        Some(open) => open,
    };
    let n = lowered.len();
    assert(open_tag@.len() == 7 && close_tag@.len() == 8 && n == lowered@.len());
    let start = open + 7;
    let close = match find_from(lowered.as_slice(), close_tag.as_slice(), start) {
        None => return None,
        Some(close) => close,
    };
    let inner = vstd::slice::slice_subrange(chars.as_slice(), start, close);
    let trimmed = trim_space_exec(inner);
    Some(string_from_chars(trimmed.as_slice()))
}

/// The JavDatabase page of a product code: the code lower-cased under `/movies/`.
pub open spec fn spec_javdatabase_url(code: Seq<char>) -> Seq<char> {
    "https://www.javdatabase.com/movies/"@ + lower_text(code) + "/"@
}

pub fn javdatabase_url(code: &str) -> (url: String)
    ensures
        url@ == spec_javdatabase_url(code@),
{
    let lowered = lower_chars(chars_of(code).as_slice());
    let mut url = String::new();
    push_str(&mut url, "https://www.javdatabase.com/movies/");
    push_str(&mut url, string_from_chars(lowered.as_slice()).as_str());
    push_str(&mut url, "/");
    url
}

/// The r18.dev JSON document of a product code.
pub open spec fn spec_legacy_url(code: Seq<char>) -> Seq<char> {
    "https://r18.dev/videos/vod/movies/detail/-/dvd_id="@ + code + "/json"@
}

pub fn legacy_url(code: &str) -> (url: String)
    ensures
        url@ == spec_legacy_url(code@),
{
    let mut url = String::new();
    push_str(&mut url, "https://r18.dev/videos/vod/movies/detail/-/dvd_id=");
    push_str(&mut url, code);
    push_str(&mut url, "/json");
    url
}

/// A character no legacy cover URL may hold: an ASCII control or space, or a backslash.
pub open spec fn url_forbidden(c: char) -> bool {
    c <= ' ' || c == '\u{7f}' || c == '\\'
}

/// A character no legacy cover path may hold.
pub open spec fn path_forbidden(c: char) -> bool {
    c == '?' || c == '#' || c == '@' || c == ':'
}

/// A legacy cover URL: an image on `https://pics.dmm.co.jp/` with a non-empty path, no query,
/// fragment, credentials or port, and no control, space or backslash anywhere.
pub open spec fn spec_valid_legacy_cover_url(url: Seq<char>) -> bool {
    let prefix = "https://pics.dmm.co.jp/"@;
    &&& forall|i: int| 0 <= i < url.len() ==> !url_forbidden(#[trigger] url[i])
    &&& url.len() > prefix.len()
    &&& url.subrange(0, prefix.len() as int) == prefix
    &&& forall|i: int| prefix.len() <= i < url.len() ==> !path_forbidden(#[trigger] url[i])
}

pub fn valid_legacy_cover_url(url: &str) -> (valid: bool)
    ensures
        valid == spec_valid_legacy_cover_url(url@),
{
    proof {
        reveal_strlit("https://pics.dmm.co.jp/");
    }
    let chars = chars_of(url);
    let prefix = chars_of("https://pics.dmm.co.jp/");
    let mut i: usize = 0;
    while i < chars.len()
        invariant
            chars@ == url@,
            i <= chars@.len(),
            forall|k: int| 0 <= k < i ==> !url_forbidden(#[trigger] chars@[k]),
        decreases chars@.len() - i,
    {
        let c = chars[i];
        if c <= ' ' || c == '\u{7f}' || c == '\\' {
            assert(url_forbidden(chars@[i as int]));
            return false;
        }
        i = i + 1;
    }
    if chars.len() <= prefix.len() || !occurs_at_exec(chars.as_slice(), prefix.as_slice(), 0) {
        return false;
    }
    let mut j: usize = prefix.len();
    while j < chars.len()
        invariant
            chars@ == url@,
            prefix@ == "https://pics.dmm.co.jp/"@,
            prefix@.len() <= j <= chars@.len(),
            forall|k: int| prefix@.len() <= k < j ==> !path_forbidden(#[trigger] chars@[k]),
        decreases chars@.len() - j,
    {
        let c = chars[j];
        if c == '?' || c == '#' || c == '@' || c == ':' {
            assert(path_forbidden(chars@[j as int]));
            return false;
        }
        j = j + 1;
    }
    true
}

/// How the identity already held and a newly verified one combine: either alone stands; two
/// from one provider must agree exactly; from two providers they must show the same display
/// code, and JavDB's identity is kept. Any disagreement is a conflict (`Err`).
pub open spec fn spec_reconcile_verified_identities(
    current: Option<VerifiedDisplayIdentity>,
    candidate: Option<VerifiedDisplayIdentity>,
) -> Result<Option<VerifiedDisplayIdentity>, ()> {
    if current is Some && candidate is Some {
        let c = current->0;
        let d = candidate->0;
        if c.provider == d.provider {
            if c.provider_id@ == d.provider_id@ && c.display_code@ == d.display_code@ {
                Ok(Some(c))
            } else {
                Err(())
            }
        } else if c.display_code@ != d.display_code@ {
            Err(())
        } else if c.provider == DisplayProvider::JavDb {
            Ok(Some(c))
        } else if d.provider == DisplayProvider::JavDb {
            Ok(Some(d))
        } else {
            Err(())
        }
    } else if current is Some {
        Ok(current)
    } else {
        Ok(candidate)
    }
}

pub fn reconcile_verified_identities(
    current: Option<VerifiedDisplayIdentity>,
    candidate: Option<VerifiedDisplayIdentity>,
) -> (reconciled: Result<Option<VerifiedDisplayIdentity>, ()>)
    ensures
        reconciled == spec_reconcile_verified_identities(current, candidate),
{
    let (c, d) = match (current, candidate) {
        (Some(c), Some(d)) => (c, d),
        (Some(c), None) => return Ok(Some(c)),
        (None, d) => return Ok(d),
    };
    if c.provider == d.provider {
        if c.provider_id == d.provider_id && c.display_code == d.display_code {
            return Ok(Some(c));
        }
        return Err(());
    }
    if c.display_code != d.display_code {
        return Err(());
    }
    if c.provider == DisplayProvider::JavDb {
        Ok(Some(c))
    } else if d.provider == DisplayProvider::JavDb {
        Ok(Some(d))
    } else {
        Err(())
    }
}

/// Whether a metadata source is JavDB's (alone or merged with others after it).
pub open spec fn from_javdb(source: Option<String>) -> bool {
    source is Some && source->0@.len() >= 5 && source->0@.subrange(0, 5) == "JavDB"@
}

/// Whether metadata may be shown for an item whose verified identity is `identity` and whose
/// code is `code`: it records no conflict, any identity it rests on is that identity, it shows
/// the verified display code (or the item's code when none is verified), and JavDB metadata
/// carries the verified JavDB id.
pub open spec fn spec_metadata_identity_consistent(
    metadata: PresentationMetadata,
    identity: Option<VerifiedDisplayIdentity>,
    code: Seq<char>,
) -> bool {
    let expected = if identity is Some {
        identity->0.display_code@
    } else {
        code
    };
    &&& !metadata.identity_conflict
    &&& metadata.verified_identity is Some ==> identity is Some && same_identity(
        metadata.verified_identity->0,
        identity->0,
    )
    &&& metadata.display_code is Some && metadata.display_code->0@ == expected
    &&& from_javdb(metadata.source) ==> identity is Some && identity->0.provider
        == DisplayProvider::JavDb && metadata.provider_id is Some && metadata.provider_id->0@
        == identity->0.provider_id@
}

fn starts_with_text(text: &str, prefix: &str) -> (result: bool)
    ensures
        result == (text@.len() >= prefix@.len() && text@.subrange(0, prefix@.len() as int)
            == prefix@),
{
    let t = chars_of(text);
    let p = chars_of(prefix);
    if p.len() > t.len() {
        return false;
    }
    occurs_at_exec(t.as_slice(), p.as_slice(), 0)
}

pub fn metadata_identity_consistent(
    metadata: &PresentationMetadata,
    identity: Option<&VerifiedDisplayIdentity>,
    code: &str,
) -> (consistent: bool)
    ensures
        consistent == spec_metadata_identity_consistent(
            *metadata,
            match identity {
                Some(i) => Some(*i),
                None => None,
            },
            code@,
        ),
{
    proof {
        reveal_strlit("JavDB");
    }
    if metadata.identity_conflict {
        return false;
    }
    match &metadata.verified_identity {
        Some(held) => match identity {
            Some(i) => {
                if !identities_equal(held, i) {
                    return false;
                }
            },
            None => return false,
        },
        None => {},
    }
    let expected: &str = match identity {
        Some(i) => i.display_code.as_str(),
        None => code,
    };
    match &metadata.display_code {
        Some(shown) => {
            if !same_text(shown.as_str(), expected) {
                return false;
            }
        },
        None => return false,
    }
    let javdb_source = match &metadata.source {
        Some(source) => starts_with_text(source.as_str(), "JavDB"),
        None => false,
    };
    if javdb_source {
        return match identity {
            Some(i) => i.provider == DisplayProvider::JavDb && match &metadata.provider_id {
                Some(id) => same_text(id.as_str(), i.provider_id.as_str()),
                None => false,
            },
            None => false,
        };
    }
    true
}

/// Rests `metadata` on `identity`: a verified identity also sets the display code shown; none
/// clears the identity and leaves the rest as it was.
pub fn attach_verified_identity(
    metadata: &mut PresentationMetadata,
    identity: Option<VerifiedDisplayIdentity>,
)
    ensures
        match identity {
            Some(i) => final(metadata).verified_identity == Some(i) && final(metadata).display_code
                == Some(i.display_code),
            None => final(metadata).verified_identity is None && final(metadata).display_code
                == old(metadata).display_code,
        },
        final(metadata).identity_conflict == old(metadata).identity_conflict,
        final(metadata).source == old(metadata).source,
        final(metadata).provider_id == old(metadata).provider_id,
        final(metadata).title == old(metadata).title,
        final(metadata).date == old(metadata).date,
        final(metadata).runtime == old(metadata).runtime,
        final(metadata).cast == old(metadata).cast,
{
    match identity {
        Some(i) => {
            metadata.display_code = Some(i.display_code.clone());
            metadata.verified_identity = Some(i);
        },
        None => {
            metadata.verified_identity = None;
        },
    }
}

/// The dimensions (width, height) found by walking JPEG segments from `offset`: the first
/// start-of-frame segment (markers `c0` to `cf`, except `c4`, `c8` and `cc`) gives them; bytes
/// other than `ff` are skipped; a segment length below 2, or a walk that leaves the last ten
/// bytes, ends without dimensions.
pub open spec fn cover_jpeg_dimensions(b: Seq<u8>, offset: int) -> Option<(nat, nat)>
    decreases b.len() - offset,
{
    if offset < 0 || offset + 9 >= b.len() {
        None
    } else if b[offset] != 0xff {
        cover_jpeg_dimensions(b, offset + 1)
    } else {
        let marker = b[offset + 1];
        if 0xc0 <= marker <= 0xcf && marker != 0xc4 && marker != 0xc8 && marker != 0xcc {
            Some((be16(b[offset + 7], b[offset + 8]), be16(b[offset + 5], b[offset + 6])))
        } else {
            let segment = be16(b[offset + 2], b[offset + 3]);
            if segment < 2 || offset + segment + 2 > b.len() {
                None
            } else {
                cover_jpeg_dimensions(b, offset + segment + 2)
            }
        }
    }
}

/// The dimensions (width, height) of a cover of at least 24 bytes: a JPEG, PNG, or WebP
/// (extended, lossy or lossless), read from its header.
pub open spec fn spec_cover_image_dimensions(b: Seq<u8>) -> Option<(nat, nat)> {
    if b.len() < 24 {
        None
    } else if starts_with_bytes(b, seq![0xffu8, 0xd8]) {
        cover_jpeg_dimensions(b, 2)
    } else if starts_with_bytes(b, seq![0x89u8, 0x50, 0x4e, 0x47, 0x0d, 0x0a, 0x1a, 0x0a]) {
        Some((be32(b[16], b[17], b[18], b[19]), be32(b[20], b[21], b[22], b[23])))
    } else if starts_with_bytes(b, seq![0x52u8, 0x49, 0x46, 0x46]) && b.subrange(8, 12) == seq![
        0x57u8,
        0x45,
        0x42,
        0x50,
    ] {
        if b.len() >= 30 && b.subrange(12, 16) == seq![0x56u8, 0x50, 0x38, 0x58] {
            Some((1 + le24(b[24], b[25], b[26]), 1 + le24(b[27], b[28], b[29])))
        } else if b.len() >= 30 && b.subrange(12, 16) == seq![0x56u8, 0x50, 0x38, 0x20] {
            Some((be16(b[27], b[26]) % 16384, be16(b[29], b[28]) % 16384))
        } else if b.len() >= 25 && b.subrange(12, 16) == seq![0x56u8, 0x50, 0x38, 0x4c] {
            let bits = be32(b[24], b[23], b[22], b[21]);
            Some((bits % 16384 + 1, (bits / 16384) % 16384 + 1))
        } else {
            None
        }
    } else {
        None
    }
}

fn cover_jpeg_dimensions_exec(b: &[u8]) -> (dims: Option<(u32, u32)>)
    ensures
        match dims {
            Some((w, h)) => cover_jpeg_dimensions(b@, 2) == Some((w as nat, h as nat)),
            None => cover_jpeg_dimensions(b@, 2) is None,
        },
{
    let n = b.len();
    let mut offset: usize = 2;
    while offset < n && n - offset > 9
        invariant
            n == b@.len(),
            2 <= offset,
            cover_jpeg_dimensions(b@, 2) == cover_jpeg_dimensions(b@, offset as int),
        decreases b@.len() - offset,
    {
        if b[offset] != 0xff {
            offset = offset + 1;
            continue;
        }
        let marker = b[offset + 1];
        if 0xc0 <= marker && marker <= 0xcf && marker != 0xc4 && marker != 0xc8 && marker != 0xcc {
            let width = (b[offset + 7] as u32) * 256 + (b[offset + 8] as u32);
            let height = (b[offset + 5] as u32) * 256 + (b[offset + 6] as u32);
            return Some((width, height));
        }
        let segment: usize = (b[offset + 2] as usize) * 256 + (b[offset + 3] as usize);
        if segment < 2 {
            return None;
        }
        if segment + 2 > n - offset {
            return None;
        }
        offset = offset + segment + 2;
    }
    None
}

/// The dimensions (width, height) of a cover image, read from its header.
pub fn cover_image_dimensions(bytes: &[u8]) -> (dims: Option<(u32, u32)>)
    ensures
        match dims {
            Some((w, h)) => spec_cover_image_dimensions(bytes@) == Some((w as nat, h as nat)),
            None => spec_cover_image_dimensions(bytes@) is None,
        },
{
    let jpeg: [u8; 2] = [0xff, 0xd8];
    let png: [u8; 8] = [0x89, 0x50, 0x4e, 0x47, 0x0d, 0x0a, 0x1a, 0x0a];
    let riff: [u8; 4] = [0x52, 0x49, 0x46, 0x46];
    let webp: [u8; 4] = [0x57, 0x45, 0x42, 0x50];
    let vp8x: [u8; 4] = [0x56, 0x50, 0x38, 0x58];
    let vp8: [u8; 4] = [0x56, 0x50, 0x38, 0x20];
    let vp8l: [u8; 4] = [0x56, 0x50, 0x38, 0x4c];
    assert(jpeg@ =~= seq![0xffu8, 0xd8]);
    assert(png@ =~= seq![0x89u8, 0x50, 0x4e, 0x47, 0x0d, 0x0a, 0x1a, 0x0a]);
    assert(riff@ =~= seq![0x52u8, 0x49, 0x46, 0x46]);
    assert(webp@ =~= seq![0x57u8, 0x45, 0x42, 0x50]);
    assert(vp8x@ =~= seq![0x56u8, 0x50, 0x38, 0x58]);
    assert(vp8@ =~= seq![0x56u8, 0x50, 0x38, 0x20]);
    assert(vp8l@ =~= seq![0x56u8, 0x50, 0x38, 0x4c]);
    if bytes.len() < 24 {
        return None;
    }
    if bytes_at(bytes, 0, &jpeg) {
        return cover_jpeg_dimensions_exec(bytes);
    }
    if bytes_at(bytes, 0, &png) {
        let width = (bytes[16] as u32) * 16777216 + (bytes[17] as u32) * 65536 + (bytes[18] as u32)
            * 256 + (bytes[19] as u32);
        let height = (bytes[20] as u32) * 16777216 + (bytes[21] as u32) * 65536 + (bytes[22] as u32)
            * 256 + (bytes[23] as u32);
        return Some((width, height));
    }
    if bytes_at(bytes, 0, &riff) && bytes_at(bytes, 8, &webp) {
        if bytes.len() >= 30 && bytes_at(bytes, 12, &vp8x) {
            let width = 1 + (bytes[24] as u32) + (bytes[25] as u32) * 256 + (bytes[26] as u32) * 65536;
            let height = 1 + (bytes[27] as u32) + (bytes[28] as u32) * 256 + (bytes[29] as u32) * 65536;
            return Some((width, height));
        }
        if bytes.len() >= 30 && bytes_at(bytes, 12, &vp8) {
            let width = ((bytes[27] as u32) * 256 + (bytes[26] as u32)) % 16384;
            let height = ((bytes[29] as u32) * 256 + (bytes[28] as u32)) % 16384;
            return Some((width, height));
        }
        if bytes.len() >= 25 && bytes_at(bytes, 12, &vp8l) {
            let bits = (bytes[24] as u32) * 16777216 + (bytes[23] as u32) * 65536 + (bytes[22] as u32)
                * 256 + (bytes[21] as u32);
            return Some((bits % 16384 + 1, (bits / 16384) % 16384 + 1));
        }
    }
    None
}

/// The dimensions of a cover that may be shown: 6000 bytes to 16 MiB, an image with positive
/// dimensions that is not the 590 x 800 placeholder and is at most four times as wide as high.
pub open spec fn spec_presentation_cover(bytes: Seq<u8>) -> Option<(nat, nat)> {
    if bytes.len() < PRESENTATION_COVER_MIN_BYTES || bytes.len() > PRESENTATION_COVER_MAX_BYTES {
        None
    } else {
        match spec_cover_image_dimensions(bytes) {
            None => None,
            Some((w, h)) => if w == 0 || h == 0 || (w == 590 && h == 800) || w > 4 * h {
                None
            } else {
                Some((w, h))
            },
        }
    }
}

/// Checks a fetched cover and gives it back with its width and height (whose ratio is the
/// cover's aspect ratio); anything else is a provider error.
pub fn validate_presentation_cover(bytes: Vec<u8>) -> (result: Result<
    (Vec<u8>, u32, u32),
    ProviderRequestError,
>)
    ensures
        match result {
            Ok((kept, w, h)) => kept@ == bytes@ && spec_presentation_cover(bytes@) == Some(
                (w as nat, h as nat),
            ),
            Err(e) => spec_presentation_cover(bytes@) is None && e == ProviderRequestError::Provider,
        },
{
    if bytes.len() < PRESENTATION_COVER_MIN_BYTES || bytes.len() > PRESENTATION_COVER_MAX_BYTES {
        return Err(ProviderRequestError::Provider);
    }
    let (width, height) = match cover_image_dimensions(bytes.as_slice()) {
        None => return Err(ProviderRequestError::Provider),
        Some(dims) => dims,
    };
    if width == 0 || height == 0 || (width == 590 && height == 800) || (width as u64) > 4
        * (height as u64) {
        return Err(ProviderRequestError::Provider);
    }
    Ok((bytes, width, height))
}

/// What a fetch printed: the output must hold the status marker, and the text after its last
/// occurrence must be UTF-8 that reads, once trimmed, as a `u16` HTTP status. A 2xx status
/// with a non-empty body of at most `maximum` bytes gives the body; 404, 410 and 451 mean the
/// source is gone; status 0 is a network failure; anything else is a provider error.
pub open spec fn spec_http_response(output: Seq<u8>, maximum: nat) -> Result<
    Seq<u8>,
    ProviderRequestError,
> {
    let k = last_transport_marker_from(output, output.len() - 24);
    if k < 0 {
        Err(ProviderRequestError::Provider)
    } else {
        let rest = output.subrange(k + 24, output.len() as int);
        if !valid_utf8(rest) {
            Err(ProviderRequestError::Provider)
        } else {
            match spec_parse_unsigned(trim_space(decode_utf8(rest)), 65535) {
                None => Err(ProviderRequestError::Provider),
                Some(status) => if 200 <= status <= 299 && 0 < k <= maximum {
                    Ok(output.subrange(0, k))
                } else if status == 404 || status == 410 || status == 451 {
                    Err(ProviderRequestError::SourceUnavailable)
                } else if status == 0 {
                    Err(ProviderRequestError::Network)
                } else {
                    Err(ProviderRequestError::Provider)
                },
            }
        }
    }
}

pub fn parse_http_response(output: &[u8], maximum: usize) -> (result: Result<
    Vec<u8>,
    ProviderRequestError,
>)
    ensures
        match result {
            Ok(body) => spec_http_response(output@, maximum as nat) == Ok::<
                Seq<u8>,
                ProviderRequestError,
            >(body@),
            Err(e) => spec_http_response(output@, maximum as nat) == Err::<
                Seq<u8>,
                ProviderRequestError,
            >(e),
        },
{
    let m = match find_last_transport_marker(output) {
        None => return Err(ProviderRequestError::Provider),
        Some(m) => m,
    };
    let n = output.len();
    assert(n == output@.len());
    let rest = vstd::slice::slice_subrange(output, m + 24, n);
    let text = match crate::hex::string_from_utf8(vstd::slice::slice_to_vec(rest)) {
        None => return Err(ProviderRequestError::Provider),
        Some(text) => text,
    };
    let chars = chars_of(text.as_str());
    let trimmed = trim_space_exec(chars.as_slice());
    let status = match parse_unsigned(trimmed.as_slice(), 65535) {
        None => return Err(ProviderRequestError::Provider),
        Some(status) => status,
    };
    if 200 <= status && status <= 299 && m > 0 && m <= maximum {
        Ok(vstd::slice::slice_to_vec(vstd::slice::slice_subrange(output, 0, m)))
    } else if status == 404 || status == 410 || status == 451 {
        Err(ProviderRequestError::SourceUnavailable)
    } else if status == 0 {
        Err(ProviderRequestError::Network)
    } else {
        Err(ProviderRequestError::Provider)
    }
}

/// An identity as plain values.
#[verifier::ext_equal]
pub struct IdentityView {
    pub provider: DisplayProvider,
    pub provider_id: Seq<char>,
    pub display_code: Seq<char>,
}

impl View for VerifiedDisplayIdentity {
    type V = IdentityView;

    open spec fn view(&self) -> IdentityView {
        IdentityView {
            provider: self.provider,
            provider_id: self.provider_id@,
            display_code: self.display_code@,
        }
    }
}

/// Metadata as plain values.
#[verifier::ext_equal]
pub struct MetadataView {
    pub verified_identity: Option<IdentityView>,
    pub identity_conflict: bool,
    pub source: Option<Seq<char>>,
    pub provider_id: Option<Seq<char>>,
    pub display_code: Option<Seq<char>>,
    pub title: Option<Seq<char>>,
    pub date: Option<Seq<char>>,
    pub runtime: Option<Seq<char>>,
    pub cast: Seq<Seq<char>>,
}

impl View for PresentationMetadata {
    type V = MetadataView;

    open spec fn view(&self) -> MetadataView {
        MetadataView {
            verified_identity: match self.verified_identity {
                Some(i) => Some(i@),
                None => None,
            },
            identity_conflict: self.identity_conflict,
            source: optional_view(self.source),
            provider_id: optional_view(self.provider_id),
            display_code: optional_view(self.display_code),
            title: optional_view(self.title),
            date: optional_view(self.date),
            runtime: optional_view(self.runtime),
            cast: texts(self.cast@),
        }
    }
}

/// Metadata that may be shown (the view of `spec_is_ready`).
pub open spec fn view_ready(m: MetadataView) -> bool {
    m.source is Some && m.provider_id is Some && m.display_code is Some && (m.title is Some
        || m.date is Some || m.runtime is Some || m.cast.len() > 0 || m.verified_identity is Some)
}

/// A provider result with its metadata as plain values.
pub open spec fn metadata_result_view<T: View>(r: Result<Option<T>, ProviderRequestError>) -> Result<
    Option<T::V>,
    ProviderRequestError,
> {
    match r {
        Ok(Some(m)) => Ok(Some(m@)),
        Ok(None) => Ok(None),
        Err(e) => Err(e),
    }
}

/// Optional metadata as plain values.
pub open spec fn opt_metadata_view(o: Option<PresentationMetadata>) -> Option<MetadataView> {
    match o {
        Some(m) => Some(m@),
        None => None,
    }
}

/// What JavDB's exact match contributes: its metadata when ready; a failure other than a gone
/// source counts as transient.
pub open spec fn javdb_step(javdb: Result<Option<MetadataView>, ProviderRequestError>) -> (
    Option<MetadataView>,
    bool,
) {
    match javdb {
        Ok(Some(m)) => (if view_ready(m) {
            Some(m)
        } else {
            None
        }, false),
        Ok(None) => (None, false),
        Err(e) => (None, e != ProviderRequestError::SourceUnavailable),
    }
}

/// The first of two optional values that is present.
pub open spec fn first_present(a: Option<Seq<char>>, b: Option<Seq<char>>) -> Option<Seq<char>> {
    if a is Some {
        a
    } else {
        b
    }
}

/// JavDB metadata completed by r18.dev's: missing descriptive fields and an empty cast are
/// taken from it, and the source names both.
pub open spec fn merged_with_legacy(current: MetadataView, legacy: MetadataView) -> MetadataView {
    MetadataView {
        title: first_present(current.title, legacy.title),
        date: first_present(current.date, legacy.date),
        runtime: first_present(current.runtime, legacy.runtime),
        cast: if current.cast.len() == 0 {
            legacy.cast
        } else {
            current.cast
        },
        source: Some("JavDB + r18.dev"@),
        ..current
    }
}

/// What the r18.dev document contributes: its metadata completes what is held, or stands
/// alone; a failure other than a gone source counts as transient.
pub open spec fn legacy_step(
    accepted: Option<MetadataView>,
    transient: bool,
    legacy: Result<Option<MetadataView>, ProviderRequestError>,
) -> (Option<MetadataView>, bool) {
    match legacy {
        Ok(Some(m)) => (Some(if accepted is Some {
            merged_with_legacy(accepted->0, m)
        } else {
            m
        }), transient),
        Ok(None) => (accepted, transient),
        Err(e) => (accepted, transient || e != ProviderRequestError::SourceUnavailable),
    }
}

/// Whether the romanized cast is looked up: nothing is held, or what is held has no cast.
pub open spec fn needs_cast(accepted: Option<MetadataView>) -> bool {
    accepted is None || accepted->0.cast.len() == 0
}

/// What is held once JavDatabase's romanized cast is added: it joins the cast and the source,
/// or stands alone for the item.
pub open spec fn with_cast(
    accepted: Option<MetadataView>,
    cast: Seq<char>,
    code: Seq<char>,
    product_identity: Seq<char>,
) -> MetadataView {
    if accepted is Some {
        let m = accepted->0;
        MetadataView {
            cast: m.cast.push(cast),
            source: Some(if m.source is Some {
                m.source->0 + " + JavDatabase"@
            } else {
                "JavDatabase"@
            }),
            ..m
        }
    } else {
        MetadataView {
            verified_identity: None,
            identity_conflict: false,
            source: Some("JavDatabase"@),
            provider_id: Some(product_identity),
            display_code: Some(code),
            title: None,
            date: None,
            runtime: None,
            cast: seq![cast],
        }
    }
}

/// What the JavDatabase lookup contributes.
pub open spec fn cast_step(
    accepted: Option<MetadataView>,
    transient: bool,
    cast: Result<Option<Seq<char>>, ProviderRequestError>,
    code: Seq<char>,
    product_identity: Seq<char>,
) -> (Option<MetadataView>, bool) {
    match cast {
        Ok(Some(c)) => (Some(with_cast(accepted, c, code, product_identity)), transient),
        Ok(None) => (accepted, transient),
        Err(e) => (accepted, transient || e != ProviderRequestError::SourceUnavailable),
    }
}

/// The resolution: what is held, else a network error when a lookup failed transiently,
/// else nothing.
pub open spec fn metadata_outcome(step: (Option<MetadataView>, bool)) -> Result<
    Option<MetadataView>,
    ProviderRequestError,
> {
    if step.0 is Some {
        Ok(step.0)
    } else if step.1 {
        Err(ProviderRequestError::Network)
    } else {
        Ok(None)
    }
}

fn first_present_exec(a: Option<String>, b: Option<String>) -> (r: Option<String>)
    ensures
        optional_view(r) == first_present(optional_view(a), optional_view(b)),
{
    match a {
        Some(x) => Some(x),
        None => b,
    }
}

fn merge_legacy(current: PresentationMetadata, legacy: PresentationMetadata) -> (merged: PresentationMetadata)
    ensures
        merged@ == merged_with_legacy(current@, legacy@),
{
    proof {
        reveal_strlit("JavDB + r18.dev");
    }
    let cast = if current.cast.len() == 0 {
        legacy.cast
    } else {
        current.cast
    };
    let merged = PresentationMetadata {
        verified_identity: current.verified_identity,
        identity_conflict: current.identity_conflict,
        source: Some(owned("JavDB + r18.dev")),
        provider_id: current.provider_id,
        display_code: current.display_code,
        title: first_present_exec(current.title, legacy.title),
        date: first_present_exec(current.date, legacy.date),
        runtime: first_present_exec(current.runtime, legacy.runtime),
        cast,
    };
    assert(merged@ =~= merged_with_legacy(current@, legacy@));
    merged
}

fn add_cast(
    accepted: Option<PresentationMetadata>,
    cast: String,
    authority_code: &str,
    product_identity: &str,
) -> (m: PresentationMetadata)
    ensures
        m@ == with_cast(
            match accepted {
                Some(a) => Some(a@),
                None => None,
            },
            cast@,
            authority_code@,
            product_identity@,
        ),
{
    proof {
        reveal_strlit(" + JavDatabase");
        reveal_strlit("JavDatabase");
    }
    match accepted {
        Some(mut m) => {
            let ghost before = m@;
            m.cast.push(cast);
            let source = match m.source {
                Some(s) => {
                    let mut joined = s;
                    push_str(&mut joined, " + JavDatabase");
                    joined
                },
                None => owned("JavDatabase"),
            };
            m.source = Some(source);
            assert(texts(m.cast@) =~= before.cast.push(cast@));
            assert(m@ =~= with_cast(Some(before), cast@, authority_code@, product_identity@));
            m
        },
        None => {
            let mut list: Vec<String> = Vec::new();
            list.push(cast);
            let m = PresentationMetadata {
                verified_identity: None,
                identity_conflict: false,
                source: Some(owned("JavDatabase")),
                provider_id: Some(owned(product_identity)),
                display_code: Some(owned(authority_code)),
                title: None,
                date: None,
                runtime: None,
                cast: list,
            };
            assert(texts(m.cast@) =~= seq![cast@]);
            assert(m@ =~= with_cast(None, cast@, authority_code@, product_identity@));
            m
        },
    }
}

/// A transient failure: anything but a source that is gone.
fn transient_error(e: ProviderRequestError) -> (t: bool)
    ensures
        t == (e != ProviderRequestError::SourceUnavailable),
{
    match e {
        ProviderRequestError::SourceUnavailable => false,
        _ => true,
    }
}

/// Resolves an item's metadata from what its providers gave: JavDB's exact match (`javdb`,
/// its metadata), then r18.dev's document (`legacy`, its metadata when the document had one),
/// and, when nothing with a cast is held, JavDatabase's romanized cast (`javdatabase_cast`,
/// asked only then).
pub fn resolve_metadata_from(
    code: &str,
    product_identity: &str,
    javdb: Result<Option<PresentationMetadata>, ProviderRequestError>,
    legacy: Result<Option<PresentationMetadata>, ProviderRequestError>,
    javdatabase_cast: impl FnOnce() -> Result<Option<String>, ProviderRequestError>,
) -> (result: Result<Option<PresentationMetadata>, ProviderRequestError>)
    requires
        needs_cast(
            legacy_step(
                javdb_step(metadata_result_view(javdb)).0,
                javdb_step(metadata_result_view(javdb)).1,
                metadata_result_view(legacy),
            ).0,
        ) ==> call_requires(javdatabase_cast, ()),
    ensures
        ({
            let first = javdb_step(metadata_result_view(javdb));
            let second = legacy_step(first.0, first.1, metadata_result_view(legacy));
            if needs_cast(second.0) {
                exists|cast: Result<Option<String>, ProviderRequestError>|
                    call_ensures(javdatabase_cast, (), cast) && metadata_result_view(result)
                        == metadata_outcome(
                        cast_step(
                            second.0,
                            second.1,
                            metadata_result_view(cast),
                            code@,
                            product_identity@,
                        ),
                    )
            } else {
                metadata_result_view(result) == metadata_outcome(second)
            }
        }),
{
    let mut transient = false;
    let mut accepted: Option<PresentationMetadata> = None;
    match javdb {
        Ok(Some(m)) => {
            if m.is_ready() {
                accepted = Some(m);
            }
        },
        Ok(None) => {},
        Err(e) => {
            transient = transient_error(e);
        },
    }
    let ghost first = (opt_metadata_view(accepted), transient);
    assert(first == javdb_step(metadata_result_view(javdb)));
    match legacy {
        Ok(Some(m)) => {
            accepted = Some(match accepted {
                Some(current) => merge_legacy(current, m),
                None => m,
            });
        },
        Ok(None) => {},
        Err(e) => {
            transient = transient || transient_error(e);
        },
    }
    let ghost second = (opt_metadata_view(accepted), transient);
    assert(second == legacy_step(first.0, first.1, metadata_result_view(legacy)));
    let lookup = match &accepted {
        Some(m) => m.cast.len() == 0,
        None => true,
    };
    let ghost mut witness: Result<Option<String>, ProviderRequestError> = Err(
        ProviderRequestError::Network,
    );
    if lookup {
        let cast = javdatabase_cast();
        proof {
            witness = cast;
        }
        match cast {
            Ok(Some(c)) => {
                accepted = Some(add_cast(accepted, c, code, product_identity));
            },
            Ok(None) => {},
            Err(e) => {
                transient = transient || transient_error(e);
            },
        }
        assert(call_ensures(javdatabase_cast, (), witness));
    }
    assert(lookup ==> (opt_metadata_view(accepted), transient) == cast_step(
        second.0,
        second.1,
        metadata_result_view(witness),
        code@,
        product_identity@,
    ));
    assert(!lookup ==> (opt_metadata_view(accepted), transient) == second);
    match accepted {
        Some(m) => Ok(Some(m)),
        None => if transient {
            Err(ProviderRequestError::Network)
        } else {
            Ok(None)
        },
    }
}

/// The text of an optional field: its characters, or nothing.
pub open spec fn field_text(value: Option<Seq<char>>) -> Seq<char> {
    if value is Some {
        value->0
    } else {
        Seq::empty()
    }
}

/// The metadata response for `category`: the format tag, the category, the metadata state,
/// whether providers disagreed, the verified identity's provider, id and display code, the
/// metadata's source, provider id, display code, title, date and runtime (each empty when
/// absent), the number of cast members, then the cast.
pub open spec fn spec_metadata_response(
    category: LibraryPresentationCategory,
    state: Seq<char>,
    metadata: MetadataView,
    identity: Option<IdentityView>,
    identity_conflict: bool,
) -> Seq<Seq<char>> {
    seq![
        "library-metadata-v3"@,
        category.text(),
        state,
        if identity_conflict { "conflict"@ } else { "current"@ },
        if identity is Some { identity->0.provider.text() } else { Seq::empty() },
        if identity is Some { identity->0.provider_id } else { Seq::empty() },
        if identity is Some { identity->0.display_code } else { Seq::empty() },
        field_text(metadata.source),
        field_text(metadata.provider_id),
        field_text(metadata.display_code),
        field_text(metadata.title),
        field_text(metadata.date),
        field_text(metadata.runtime),
        decimal_string(metadata.cast.len()),
    ] + metadata.cast
}

fn field_or_empty(value: &Option<String>) -> (text: String)
    ensures
        text@ == field_text(optional_view(*value)),
{
    match value {
        Some(s) => s.clone(),
        None => {
            proof {
                reveal_strlit("");
            }
            owned("")
        },
    }
}

/// The metadata response for `category` in `state`.
pub fn metadata_response(
    category: LibraryPresentationCategory,
    state: &str,
    metadata: &PresentationMetadata,
    identity: Option<&VerifiedDisplayIdentity>,
    identity_conflict: bool,
) -> (response: Vec<String>)
    ensures
        texts(response@) == spec_metadata_response(
            category,
            state@,
            metadata@,
            match identity {
                Some(i) => Some(i@),
                None => None,
            },
            identity_conflict,
        ),
{
    proof {
        reveal_strlit("library-metadata-v3");
        reveal_strlit("conflict");
        reveal_strlit("current");
        reveal_strlit("");
    }
    let mut response: Vec<String> = Vec::new();
    response.push(owned("library-metadata-v3"));
    response.push(owned(category.value()));
    response.push(owned(state));
    response.push(owned(if identity_conflict { "conflict" } else { "current" }));
    match identity {
        Some(i) => {
            response.push(owned(i.provider.as_str()));
            response.push(i.provider_id.clone());
            response.push(i.display_code.clone());
        },
        None => {
            response.push(owned(""));
            response.push(owned(""));
            response.push(owned(""));
        },
    }
    response.push(field_or_empty(&metadata.source));
    response.push(field_or_empty(&metadata.provider_id));
    response.push(field_or_empty(&metadata.display_code));
    response.push(field_or_empty(&metadata.title));
    response.push(field_or_empty(&metadata.date));
    response.push(field_or_empty(&metadata.runtime));
    response.push(decimal_string_of(metadata.cast.len() as u64));
    let ghost head = response@;
    assert(""@ =~= Seq::<char>::empty());
    let mut i: usize = 0;
    while i < metadata.cast.len()
        invariant
            i <= metadata.cast@.len(),
            response@ == head + metadata.cast@.subrange(0, i as int),
        decreases metadata.cast@.len() - i,
    {
        response.push(metadata.cast[i].clone());
        assert(response@ =~= head + metadata.cast@.subrange(0, i + 1));
        i = i + 1;
    }
    assert(metadata.cast@.subrange(0, metadata.cast@.len() as int) =~= metadata.cast@);
    assert(texts(response@) =~= texts(head) + texts(metadata.cast@));
    assert(texts(response@) =~= spec_metadata_response(
        category,
        state@,
        metadata@,
        match identity {
            Some(i) => Some(i@),
            None => None,
        },
        identity_conflict,
    ));
    response
}

} // verus!
