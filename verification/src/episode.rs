//! Conservative recognition of a single TV episode from a library-relative path.
use vstd::prelude::*;

use crate::text::{
    chars_equal, chars_of, decimal_chars, digit_to_char_exec, string_from_chars,
    all_digits, alphanumeric_char, ascii_alnum_char, copy_range, decimal_value, digit_char,
    decimal_string, digit_to_char, digit_value, is_ascii_alnum, is_unicode_whitespace, unicode_alphanumeric, whitespace_char, is_digit, lemma_decimal_value_grows, lemma_decimal_string};

verus! {

/// Largest integer a JavaScript client represents exactly.
pub const MAXIMUM_SAFE_INTEGER: u64 = 9_007_199_254_740_991;

/// Whether position `i` of `s` holds an ASCII digit.
pub open spec fn digit_at(s: Seq<char>, i: int) -> bool {
    0 <= i < s.len() && is_digit(s[i])
}

/// The first position at or after `i` that does not hold a digit.
pub open spec fn digit_run_end(s: Seq<char>, i: int) -> int
    decreases s.len() - i,
{
    if 0 <= i < s.len() && is_digit(s[i]) {
        digit_run_end(s, i + 1)
    } else {
        i
    }
}

/// Where a season or episode number that starts at `start` ends: a digit run that does not
/// start with `0`, or a `0` followed by exactly one nonzero digit.
pub open spec fn spec_component_end(s: Seq<char>, start: int) -> Option<int> {
    if !(0 <= start < s.len()) {
        None
    } else if s[start] == '0' {
        if digit_at(s, start + 1) && s[start + 1] != '0' && !digit_at(s, start + 2) {
            Some(start + 2)
        } else {
            None
        }
    } else if is_digit(s[start]) {
        Some(digit_run_end(s, start + 1))
    } else {
        None
    }
}

pub proof fn lemma_digit_run_end(s: Seq<char>, i: int)
    requires
        0 <= i <= s.len(),
    ensures
        i <= digit_run_end(s, i) <= s.len(),
        forall|k: int| i <= k < digit_run_end(s, i) ==> is_digit(#[trigger] s[k]),
        !digit_at(s, digit_run_end(s, i)),
    decreases s.len() - i,
{
    if i < s.len() && is_digit(s[i]) {
        lemma_digit_run_end(s, i + 1);
    }
}

fn digit_run_end_exec(s: &[char], i: usize) -> (end: usize)
    requires
        i <= s@.len(),
    ensures
        end == digit_run_end(s@, i as int),
{
    let mut j = i;
    while j < s.len() && digit_char(s[j])
        invariant
            i <= j <= s@.len(),
            digit_run_end(s@, j as int) == digit_run_end(s@, i as int),
        decreases s@.len() - j,
    {
        j = j + 1;
    }
    j
}

/// Where a season or episode number starting at `start` ends.
pub fn episode_component_end(s: &[char], start: usize) -> (end: Option<usize>)
    ensures
        match end {
            Some(e) => spec_component_end(s@, start as int) == Some(e as int),
            None => spec_component_end(s@, start as int) is None,
        },
{
    if start >= s.len() {
        return None;
    }
    if s[start] == '0' {
        if start + 1 < s.len() && digit_char(s[start + 1]) && s[start + 1] != '0' && !(start
            + 2 < s.len() && digit_char(s[start + 2])) {
            Some(start + 2)
        } else {
            None
        }
    } else if digit_char(s[start]) {
        Some(digit_run_end_exec(s, start + 1))
    } else {
        None
    }
}

/// The number written by the digits `s[start..end]`, when it is a safe integer.
pub open spec fn spec_episode_component(s: Seq<char>, start: int, end: int) -> Option<u64> {
    let v = decimal_value(s.subrange(start, end));
    if v <= MAXIMUM_SAFE_INTEGER {
        Some(v as u64)
    } else {
        None
    }
}

/// Reads the digits `s[start..end]` as a number no larger than `MAXIMUM_SAFE_INTEGER`.
pub fn episode_component(s: &[char], start: usize, end: usize) -> (value: Option<u64>)
    requires
        start <= end <= s@.len(),
        forall|k: int| start <= k < end ==> is_digit(#[trigger] s@[k]),
    ensures
        value == spec_episode_component(s@, start as int, end as int),
{
    let ghost digits = s@.subrange(start as int, end as int);
    let mut value: u64 = 0;
    let mut i = start;
    while i < end
        invariant
            start <= i <= end <= s@.len(),
            digits == s@.subrange(start as int, end as int),
            all_digits(digits),
            forall|k: int| start <= k < end ==> is_digit(#[trigger] s@[k]),
            value == decimal_value(digits.subrange(0, i - start)),
            value <= MAXIMUM_SAFE_INTEGER,
        decreases end - i,
    {
        assert(is_digit(s@[i as int]));
        let d = (s[i] as u32 - '0' as u32) as u64;
        assert(d == digit_value(digits[i - start]));
        assert(digits.subrange(0, i + 1 - start).drop_last() =~= digits.subrange(0, i - start));
        assert(digits[i - start] == s@[i as int]);
        if value > (MAXIMUM_SAFE_INTEGER - d) / 10 {
            proof {
                lemma_decimal_value_grows(digits, i + 1 - start, digits.len() as int);
                assert(digits.subrange(0, digits.len() as int) =~= digits);
            }
            return None;
        }
        value = value * 10 + d;
        i = i + 1;
    }
    assert(digits.subrange(0, end - start) =~= digits);
    Some(value)
}


/// A season and episode marker found in a name: `S<season>E<episode>` or
/// `<season>x<episode>`, with `start..end` the positions it covers.
#[derive(Clone, Copy, Debug, PartialEq, Eq)]
pub struct EpisodeMarker {
    pub start: usize,
    pub end: usize,
    pub season: u64,
    pub episode: u64,
}

pub open spec fn is_season_letter(c: char) -> bool {
    c == 'S' || c == 's'
}

pub open spec fn is_episode_letter(c: char) -> bool {
    c == 'E' || c == 'e'
}

pub open spec fn is_cross_letter(c: char) -> bool {
    c == 'X' || c == 'x'
}

/// The digit runs of a marker that starts at `start`: season start and end, episode start
/// and end.
pub open spec fn spec_marker_parts(s: Seq<char>, start: int) -> Option<(int, int, int, int)> {
    if 0 <= start < s.len() && is_season_letter(s[start]) {
        match spec_component_end(s, start + 1) {
            Some(season_end) => if season_end < s.len() && is_episode_letter(s[season_end]) {
                match spec_component_end(s, season_end + 1) {
                    Some(end) => Some((start + 1, season_end, season_end + 1, end)),
                    None => None,
                }
            } else {
                None
            },
            None => None,
        }
    } else {
        match spec_component_end(s, start) {
            Some(season_end) => if season_end < s.len() && is_cross_letter(s[season_end]) {
                match spec_component_end(s, season_end + 1) {
                    Some(end) => Some((start, season_end, season_end + 1, end)),
                    None => None,
                }
            } else {
                None
            },
            None => None,
        }
    }
}

/// The marker that starts at `start`, if one does: it must not continue a word on either
/// side, and both numbers must be safe integers.
pub open spec fn spec_marker_at(s: Seq<char>, start: int) -> Option<EpisodeMarker> {
    if start > 0 && is_ascii_alnum(s[start - 1]) {
        None
    } else {
        match spec_marker_parts(s, start) {
            Some((season_start, season_end, episode_start, end)) => if end < s.len()
                && is_ascii_alnum(s[end]) {
                None
            } else {
                match (
                    spec_episode_component(s, season_start, season_end),
                    spec_episode_component(s, episode_start, end),
                ) {
                    (Some(season), Some(episode)) => Some(
                        EpisodeMarker {
                            start: start as usize,
                            end: end as usize,
                            season,
                            episode,
                        },
                    ),
                    _ => None,
                }
            },
            None => None,
        }
    }
}

/// The markers that start before position `n`, in order of their start.
pub open spec fn spec_markers_before(s: Seq<char>, n: int) -> Seq<EpisodeMarker>
    decreases n,
{
    if n <= 0 {
        Seq::empty()
    } else {
        match spec_marker_at(s, n - 1) {
            Some(marker) => spec_markers_before(s, n - 1).push(marker),
            None => spec_markers_before(s, n - 1),
        }
    }
}

/// All markers of `s`, in order of their start.
pub open spec fn spec_episode_markers(s: Seq<char>) -> Seq<EpisodeMarker> {
    spec_markers_before(s, s.len() as int)
}

proof fn lemma_component_end_bounds(s: Seq<char>, start: int)
    ensures
        spec_component_end(s, start) matches Some(end) ==> (0 <= start < end <= s.len() && forall|
            k: int,
        | start <= k < end ==> is_digit(#[trigger] s[k])),
{
    if 0 <= start < s.len() && s[start] != '0' && is_digit(s[start]) {
        lemma_digit_run_end(s, start + 1);
    }
}

fn marker_parts(s: &[char], start: usize) -> (parts: Option<(usize, usize, usize, usize)>)
    requires
        start < s@.len(),
    ensures
        match parts {
            Some((a, b, c, d)) => spec_marker_parts(s@, start as int) == Some(
                (a as int, b as int, c as int, d as int),
            ),
            None => spec_marker_parts(s@, start as int) is None,
        },
{
    if s[start] == 'S' || s[start] == 's' {
        match episode_component_end(s, start + 1) {
            Some(season_end) => {
                if season_end < s.len() && (s[season_end] == 'E' || s[season_end] == 'e') {
                    match episode_component_end(s, season_end + 1) {
                        Some(end) => Some((start + 1, season_end, season_end + 1, end)),
                        None => None,
                    }
                } else {
                    None
                }
            },
            None => None,
        }
    } else {
        match episode_component_end(s, start) {
            Some(season_end) => {
                proof {
                    lemma_component_end_bounds(s@, start as int);
                }
                if season_end < s.len() && (s[season_end] == 'X' || s[season_end] == 'x') {
                    match episode_component_end(s, season_end + 1) {
                        Some(end) => Some((start, season_end, season_end + 1, end)),
                        None => None,
                    }
                } else {
                    None
                }
            },
            None => None,
        }
    }
}

/// The marker that starts at `start`, if one does.
pub fn episode_marker_at(s: &[char], start: usize) -> (marker: Option<EpisodeMarker>)
    requires
        start < s@.len(),
    ensures
        marker == spec_marker_at(s@, start as int),
{
    if start > 0 && ascii_alnum_char(s[start - 1]) {
        return None;
    }
    match marker_parts(s, start) {
        Some((season_start, season_end, episode_start, end)) => {
            proof {
                lemma_component_end_bounds(s@, season_start as int);
                lemma_component_end_bounds(s@, episode_start as int);
                lemma_component_end_bounds(s@, start as int);
                lemma_component_end_bounds(s@, start as int + 1);
            }
            if end < s.len() && ascii_alnum_char(s[end]) {
                return None;
            }
            let season = episode_component(s, season_start, season_end);
            let episode = episode_component(s, episode_start, end);
            match (season, episode) {
                (Some(season), Some(episode)) => Some(
                    EpisodeMarker { start, end, season, episode },
                ),
                _ => None,
            }
        },
        None => None,
    }
}

/// Every season and episode marker of `value`, in order of position.
pub fn episode_markers(value: &[char]) -> (markers: Vec<EpisodeMarker>)
    ensures
        markers@ == spec_episode_markers(value@),
{
    let mut markers: Vec<EpisodeMarker> = Vec::new();
    let mut start: usize = 0;
    while start < value.len()
        invariant
            start <= value@.len(),
            markers@ == spec_markers_before(value@, start as int),
        decreases value@.len() - start,
    {
        if let Some(marker) = episode_marker_at(value, start) {
            markers.push(marker);
        }
        start = start + 1;
    }
    markers
}


/// A separator between an episode marker and what follows it: whitespace or any character
/// that is not alphanumeric.
pub open spec fn is_continuation_separator(c: char) -> bool {
    is_unicode_whitespace(c) || !unicode_alphanumeric(c)
}

/// Whether `c` separates an episode marker from what follows it.
pub fn continuation_separator(c: char) -> (b: bool)
    ensures
        b == is_continuation_separator(c),
{
    whitespace_char(c) || !alphanumeric_char(c)
}

/// The first position at or after `i` that does not hold a separator.
pub open spec fn skip_separators(t: Seq<char>, i: int) -> int
    decreases t.len() - i,
{
    if 0 <= i < t.len() && is_continuation_separator(t[i]) {
        skip_separators(t, i + 1)
    } else {
        i
    }
}

/// Whether a video codec name (`264`, `265` or `266`) stands at `k`, ending the text or
/// followed by a separator.
pub open spec fn codec_at(t: Seq<char>, k: int) -> bool {
    &&& 0 <= k
    &&& k + 3 <= t.len()
    &&& t[k] == '2'
    &&& t[k + 1] == '6'
    &&& (t[k + 2] == '4' || t[k + 2] == '5' || t[k + 2] == '6')
    &&& (k + 3 == t.len() || is_continuation_separator(t[k + 3]))
}

/// Whether a number starts at `start` and is not glued to a following letter or digit.
pub open spec fn number_ends_cleanly(t: Seq<char>, start: int) -> bool {
    let end = digit_run_end(t, start);
    end > start && (end == t.len() || !is_ascii_alnum(t[end]))
}

/// Whether the text after an episode marker continues it with a further episode number:
/// after separators, an optional `E` or `x` (but not an `x26[4-6]` codec name), more
/// separators, then a number.
pub open spec fn spec_compact_episode_continuation(t: Seq<char>) -> bool {
    if t.len() == 0 || !is_continuation_separator(t[0]) {
        false
    } else {
        let i = skip_separators(t, 0);
        if i < t.len() && (is_episode_letter(t[i]) || is_cross_letter(t[i])) {
            if is_cross_letter(t[i]) && codec_at(t, i + 1) {
                false
            } else {
                number_ends_cleanly(t, skip_separators(t, i + 1))
            }
        } else {
            number_ends_cleanly(t, i)
        }
    }
}

proof fn lemma_skip_separators(t: Seq<char>, i: int)
    requires
        0 <= i <= t.len(),
    ensures
        i <= skip_separators(t, i) <= t.len(),
    decreases t.len() - i,
{
    if i < t.len() && is_continuation_separator(t[i]) {
        lemma_skip_separators(t, i + 1);
    }
}

fn skip_separators_exec(t: &[char], i: usize) -> (j: usize)
    requires
        i <= t@.len(),
    ensures
        j == skip_separators(t@, i as int),
        i <= j <= t@.len(),
{
    let mut j = i;
    while j < t.len() && continuation_separator(t[j])
        invariant
            i <= j <= t@.len(),
            skip_separators(t@, j as int) == skip_separators(t@, i as int),
        decreases t@.len() - j,
    {
        j = j + 1;
    }
    j
}

fn number_ends_cleanly_exec(t: &[char], start: usize) -> (b: bool)
    requires
        start <= t@.len(),
    ensures
        b == number_ends_cleanly(t@, start as int),
{
    let end = digit_run_end_exec(t, start);
    proof {
        lemma_digit_run_end(t@, start as int);
    }
    end > start && (end == t.len() || !ascii_alnum_char(t[end]))
}

/// Whether `value`, the text after an episode marker, continues it with another episode
/// number (as in `S01E02-03` or `S01E02 E03`).
pub fn compact_episode_continuation(value: &[char]) -> (b: bool)
    ensures
        b == spec_compact_episode_continuation(value@),
{
    if value.len() == 0 || !continuation_separator(value[0]) {
        return false;
    }
    let i = skip_separators_exec(value, 0);
    if i < value.len() && (value[i] == 'E' || value[i] == 'e' || value[i] == 'X' || value[i]
        == 'x') {
        if (value[i] == 'X' || value[i] == 'x') && value.len() - i >= 4 && value[i + 1] == '2'
            && value[i + 2] == '6' && (value[i + 3] == '4' || value[i + 3] == '5' || value[i + 3]
            == '6') && (i + 4 == value.len() || continuation_separator(value[i + 4])) {
            return false;
        }
        let start = skip_separators_exec(value, i + 1);
        number_ends_cleanly_exec(value, start)
    } else {
        number_ends_cleanly_exec(value, i)
    }
}

/// Characters trimmed from both ends of a title: whitespace, `.`, `_` and `-`.
pub open spec fn is_title_trim(c: char) -> bool {
    is_unicode_whitespace(c) || c == '.' || c == '_' || c == '-'
}

fn title_trim_char(c: char) -> (b: bool)
    ensures
        b == is_title_trim(c),
{
    whitespace_char(c) || c == '.' || c == '_' || c == '-'
}

/// The first position at or after `i` that is not trimmed.
pub open spec fn trim_front(t: Seq<char>, i: int) -> int
    decreases t.len() - i,
{
    if 0 <= i < t.len() && is_title_trim(t[i]) {
        trim_front(t, i + 1)
    } else {
        i
    }
}

/// The end of `t[lo..j]` once trimmed characters are dropped from its end.
pub open spec fn trim_back(t: Seq<char>, lo: int, j: int) -> int
    decreases j - lo,
{
    if j > lo && is_title_trim(t[j - 1]) {
        trim_back(t, lo, j - 1)
    } else {
        j
    }
}

/// `t` without the trimmed characters at either end.
pub open spec fn trim_title(t: Seq<char>) -> Seq<char> {
    let a = trim_front(t, 0);
    t.subrange(a, trim_back(t, a, t.len() as int))
}

fn trim_title_exec(t: &[char]) -> (result: Vec<char>)
    ensures
        result@ == trim_title(t@),
{
    let mut a: usize = 0;
    while a < t.len() && title_trim_char(t[a])
        invariant
            a <= t@.len(),
            trim_front(t@, a as int) == trim_front(t@, 0),
        decreases t@.len() - a,
    {
        a = a + 1;
    }
    let mut b: usize = t.len();
    while b > a && title_trim_char(t[b - 1])
        invariant
            a <= b <= t@.len(),
            trim_back(t@, a as int, b as int) == trim_back(t@, a as int, t@.len() as int),
        decreases b - a,
    {
        b = b - 1;
    }
    copy_range(t, a, b)
}

pub open spec fn is_letter_either_case(c: char, lower: char, upper: char) -> bool {
    c == lower || c == upper
}

/// Whether `t` starts with the word `season`, in any ASCII case.
pub open spec fn starts_with_season_word(t: Seq<char>) -> bool {
    &&& t.len() >= 6
    &&& is_letter_either_case(t[0], 's', 'S')
    &&& is_letter_either_case(t[1], 'e', 'E')
    &&& is_letter_either_case(t[2], 'a', 'A')
    &&& is_letter_either_case(t[3], 's', 'S')
    &&& is_letter_either_case(t[4], 'o', 'O')
    &&& is_letter_either_case(t[5], 'n', 'N')
}

/// Whether a name only says which season it is: `Season 2`, `season.02`, `S2`.
pub open spec fn names_only_a_season(t: Seq<char>) -> bool {
    ||| (starts_with_season_word(t) && {
        let a = trim_front(t, 6);
        a < t.len() && all_digits(t.subrange(a, t.len() as int))
    })
    ||| (t.len() > 1 && is_season_letter(t[0]) && all_digits(t.subrange(1, t.len() as int)))
}

/// Whether a name can serve as a show title: it holds an alphanumeric character, does not
/// only name a season and holds no episode marker.
pub open spec fn spec_usable_show_title(t: Seq<char>) -> bool {
    &&& exists|i: int| 0 <= i < t.len() && #[trigger] unicode_alphanumeric(t[i])
    &&& !names_only_a_season(t)
    &&& spec_episode_markers(t).len() == 0
}

fn all_digits_from(t: &[char], start: usize) -> (b: bool)
    requires
        start <= t@.len(),
    ensures
        b == all_digits(t@.subrange(start as int, t@.len() as int)),
{
    let mut i = start;
    while i < t.len()
        invariant
            start <= i <= t@.len(),
            forall|k: int| start <= k < i ==> is_digit(#[trigger] t@[k]),
        decreases t@.len() - i,
    {
        if !digit_char(t[i]) {
            assert(!is_digit(t@.subrange(start as int, t@.len() as int)[i - start]));
            return false;
        }
        i = i + 1;
    }
    assert forall|k: int| 0 <= k < t@.len() - start implies #[trigger] is_digit(
        t@.subrange(start as int, t@.len() as int)[k],
    ) by {
        assert(is_digit(t@[start + k]));
    }
    true
}

/// Whether `value` can serve as a show title.
pub fn usable_show_title(value: &[char]) -> (b: bool)
    ensures
        b == spec_usable_show_title(value@),
{
    let mut has_alphanumeric = false;
    let mut i: usize = 0;
    while i < value.len()
        invariant
            i <= value@.len(),
            has_alphanumeric == exists|k: int| 0 <= k < i && #[trigger] unicode_alphanumeric(
                value@[k],
            ),
        decreases value@.len() - i,
    {
        if alphanumeric_char(value[i]) {
            has_alphanumeric = true;
        }
        i = i + 1;
    }
    let season_word = value.len() >= 6 && (value[0] == 's' || value[0] == 'S') && (value[1]
        == 'e' || value[1] == 'E') && (value[2] == 'a' || value[2] == 'A') && (value[3] == 's'
        || value[3] == 'S') && (value[4] == 'o' || value[4] == 'O') && (value[5] == 'n'
        || value[5] == 'N');
    let season_only = if season_word {
        let mut a: usize = 6;
        while a < value.len() && title_trim_char(value[a])
            invariant
                6 <= a <= value@.len(),
                trim_front(value@, a as int) == trim_front(value@, 6),
            decreases value@.len() - a,
        {
            a = a + 1;
        }
        a < value.len() && all_digits_from(value, a)
    } else {
        false
    };
    let numbered_season = value.len() > 1 && (value[0] == 's' || value[0] == 'S')
        && all_digits_from(value, 1);
    if !has_alphanumeric || season_only || numbered_season {
        return false;
    }
    let markers = episode_markers(value);
    markers.len() == 0
}


/// The show, season and episode that a library file was recognised as.
#[derive(Clone, Debug, PartialEq, Eq)]
pub struct TvLibraryIdentity {
    pub show_title: String,
    pub season: u64,
    pub episode: u64,
}

pub open spec fn is_path_separator(c: char) -> bool {
    c == '/' || c == '\\'
}

/// The ranges of the path components of `t`, split on `/` and `\\`, for the component that
/// began at `start` while scanning position `i`.
pub open spec fn component_ranges_from(t: Seq<char>, start: int, i: int) -> Seq<(int, int)>
    decreases t.len() - i,
{
    if i >= t.len() {
        seq![(start, t.len() as int)]
    } else if is_path_separator(t[i]) {
        seq![(start, i)] + component_ranges_from(t, i + 1, i + 1)
    } else {
        component_ranges_from(t, start, i + 1)
    }
}

/// The ranges of the components of `t`, split on `/` and `\\` (empty components included).
pub open spec fn component_ranges(t: Seq<char>) -> Seq<(int, int)> {
    component_ranges_from(t, 0, 0)
}

/// The components of `t`, split on `/` and `\\`.
pub open spec fn path_components(t: Seq<char>) -> Seq<Seq<char>> {
    component_ranges(t).map_values(|r: (int, int)| t.subrange(r.0, r.1))
}

/// A relative path whose components are all plain names.
pub open spec fn plain_relative_path(t: Seq<char>) -> bool {
    &&& t.len() > 0
    &&& !is_path_separator(t[0])
    &&& forall|k: int|
        0 <= k < path_components(t).len() ==> {
            let c = #[trigger] path_components(t)[k];
            c.len() > 0 && c != seq!['.'] && c != seq!['.', '.']
        }
}

/// The position of the last `.` in `f[..j]`, or -1.
pub open spec fn last_dot_before(f: Seq<char>, j: int) -> int
    decreases j,
{
    if j <= 0 {
        -1
    } else if f[j - 1] == '.' {
        j - 1
    } else {
        last_dot_before(f, j - 1)
    }
}

/// A file name without its extension (a leading dot starts no extension).
pub open spec fn file_stem(f: Seq<char>) -> Seq<char> {
    let d = last_dot_before(f, f.len() as int);
    if d > 0 {
        f.subrange(0, d)
    } else {
        f
    }
}

/// The name of a season folder: `Season ` and the season number, zero-padded to two digits.
pub open spec fn season_directory(season: u64) -> Seq<char> {
    seq!['S', 'e', 'a', 's', 'o', 'n', ' '] + if season < 10 {
        seq!['0', digit_to_char(season as nat)]
    } else {
        decimal_string(season as nat)
    }
}

/// The show title, season and episode recognised in a library-relative path: the path must
/// consist of plain names, the file stem must hold exactly one episode marker that no further
/// episode number continues, and the title comes from the stem before the marker, else from
/// the parent folder, else from the grandparent when the parent is the matching
/// `Season NN` folder.
pub open spec fn spec_tv_identity(path: Seq<char>) -> Option<(Seq<char>, u64, u64)> {
    if !plain_relative_path(path) {
        None
    } else {
        let components = path_components(path);
        let n = components.len();
        let stem = file_stem(components[n - 1]);
        let markers = spec_episode_markers(stem);
        if markers.len() != 1 {
            None
        } else {
            let marker = markers[0];
            if spec_compact_episode_continuation(stem.subrange(marker.end as int, stem.len() as int)) {
                None
            } else {
                let filename_title = trim_title(stem.subrange(0, marker.start as int));
                if filename_title.len() > 0 && spec_usable_show_title(filename_title) {
                    Some((filename_title, marker.season, marker.episode))
                } else if n < 2 {
                    None
                } else if spec_usable_show_title(components[n - 2]) {
                    Some((components[n - 2], marker.season, marker.episode))
                } else if n < 3 {
                    None
                } else if components[n - 2] == season_directory(marker.season)
                    && spec_usable_show_title(components[n - 3]) {
                    Some((components[n - 3], marker.season, marker.episode))
                } else {
                    None
                }
            }
        }
    }
}

/// The show title comes first from the file name: when the trimmed part of the stem before
/// the episode's only marker names a show, that is the title; otherwise a parent folder that
/// names a show is the title.
pub proof fn law_tv_title_prefers_file_name_then_parent(path: Seq<char>)
    requires
        plain_relative_path(path),
        spec_episode_markers(file_stem(path_components(path)[path_components(path).len() - 1])).len() == 1,
        ({
            let components = path_components(path);
            let stem = file_stem(components[components.len() - 1]);
            let marker = spec_episode_markers(stem)[0];
            !spec_compact_episode_continuation(stem.subrange(marker.end as int, stem.len() as int))
        }),
    ensures
        ({
            let components = path_components(path);
            let n = components.len();
            let stem = file_stem(components[n - 1]);
            let marker = spec_episode_markers(stem)[0];
            let title = trim_title(stem.subrange(0, marker.start as int));
            &&& title.len() > 0 && spec_usable_show_title(title) ==> spec_tv_identity(path) == Some(
                (title, marker.season, marker.episode),
            )
            &&& !(title.len() > 0 && spec_usable_show_title(title)) && n >= 2 && spec_usable_show_title(
                components[n - 2],
            ) ==> spec_tv_identity(path) == Some((components[n - 2], marker.season, marker.episode))
        }),
{
}

/// A season folder's name only says which season it is, so it never serves as a show title.
pub proof fn lemma_season_directory_not_a_title(season: u64)
    ensures
        !spec_usable_show_title(season_directory(season)),
{
    let t = season_directory(season);
    let digits = if season < 10 {
        seq!['0', digit_to_char(season as nat)]
    } else {
        decimal_string(season as nat)
    };
    lemma_decimal_string(season as nat);
    assert(t == seq!['S', 'e', 'a', 's', 'o', 'n', ' '] + digits);
    assert(t[0] == 'S' && t[1] == 'e' && t[2] == 'a' && t[3] == 's' && t[4] == 'o' && t[5] == 'n');
    assert(t[6] == ' ');
    assert(is_digit(digits[0])) by {
        if season >= 10 {
            assert(is_digit(decimal_string(season as nat)[0]));
        }
    }
    assert(t[7] == digits[0]);
    assert(trim_front(t, 7) == 7);
    assert(trim_front(t, 6) == 7);
    assert(t.subrange(7, t.len() as int) =~= digits);
    assert(all_digits(digits)) by {
        if season < 10 {
            assert forall|i: int| 0 <= i < digits.len() implies #[trigger] is_digit(digits[i]) by {
                if i == 1 {
                    assert(digits[1] == digit_to_char(season as nat));
                }
            }
        }
    }
    assert(names_only_a_season(t));
}

/// The title recognised for an episode is always a usable show title taken from the path
/// itself: the trimmed part of the file stem before the marker, the parent folder's name, or
/// the grandparent folder's name.
pub proof fn law_tv_title_comes_from_the_path(path: Seq<char>)
    ensures
        spec_tv_identity(path) matches Some((title, season, episode)) ==> {
            let components = path_components(path);
            let n = components.len();
            let stem = file_stem(components[n - 1]);
            let marker = spec_episode_markers(stem)[0];
            &&& spec_usable_show_title(title)
            &&& title.len() > 0
            &&& season == marker.season && episode == marker.episode
            &&& title == trim_title(stem.subrange(0, marker.start as int)) || (n >= 2 && title
                == components[n - 2]) || (n >= 3 && title == components[n - 3])
        },
{
    if spec_tv_identity(path) is Some {
        let title = match spec_tv_identity(path) {
            Some((t, _, _)) => t,
            None => Seq::empty(),
        };
        assert(title.len() > 0) by {
            if title.len() == 0 {
                assert(!(exists|i: int| 0 <= i < title.len() && #[trigger] unicode_alphanumeric(title[i])));
            }
        }
    }
}

/// When the file stem gives no title, the parent is the zero-padded `Season NN` folder of the
/// episode's season and the grandparent names a show, the show is the grandparent folder's
/// name (never the season folder's).
pub proof fn law_tv_title_skips_the_season_folder(path: Seq<char>)
    requires
        plain_relative_path(path),
        path_components(path).len() >= 3,
        spec_episode_markers(file_stem(path_components(path)[path_components(path).len() - 1])).len() == 1,
        ({
            let components = path_components(path);
            let n = components.len();
            let stem = file_stem(components[n - 1]);
            let marker = spec_episode_markers(stem)[0];
            let title = trim_title(stem.subrange(0, marker.start as int));
            &&& !spec_compact_episode_continuation(stem.subrange(marker.end as int, stem.len() as int))
            &&& !(title.len() > 0 && spec_usable_show_title(title))
            &&& components[n - 2] == season_directory(marker.season)
            &&& spec_usable_show_title(components[n - 3])
        }),
    ensures
        ({
            let components = path_components(path);
            let n = components.len();
            let marker = spec_episode_markers(file_stem(components[n - 1]))[0];
            &&& spec_tv_identity(path) == Some((components[n - 3], marker.season, marker.episode))
            &&& (spec_tv_identity(path) matches Some((t, _, _)) ==> t != components[n - 2])
        }),
{
    let components = path_components(path);
    let n = components.len();
    let marker = spec_episode_markers(file_stem(components[n - 1]))[0];
    lemma_season_directory_not_a_title(marker.season);
}

proof fn lemma_component_ranges_from(t: Seq<char>, start: int, i: int)
    requires
        0 <= start <= i <= t.len(),
    ensures
        component_ranges_from(t, start, i).len() >= 1,
        forall|k: int|
            0 <= k < component_ranges_from(t, start, i).len() ==> {
                let r = #[trigger] component_ranges_from(t, start, i)[k];
                start <= r.0 <= r.1 <= t.len()
            },
    decreases t.len() - i,
{
    if i < t.len() {
        if is_path_separator(t[i]) {
            lemma_component_ranges_from(t, i + 1, i + 1);
        } else {
            lemma_component_ranges_from(t, start, i + 1);
        }
    }
}

/// Splits `t` into component ranges on `/` and `\\`.
fn component_ranges_exec(t: &[char]) -> (ranges: Vec<(usize, usize)>)
    ensures
        ranges@.len() == component_ranges(t@).len(),
        forall|k: int|
            0 <= k < ranges@.len() ==> (#[trigger] ranges@[k]).0 as int == component_ranges(
                t@,
            )[k].0 && ranges@[k].1 as int == component_ranges(t@)[k].1,
{
    let mut ranges: Vec<(usize, usize)> = Vec::new();
    let mut start: usize = 0;
    let mut i: usize = 0;
    let ghost whole = component_ranges(t@);
    while i < t.len()
        invariant
            start <= i <= t@.len(),
            whole == component_ranges(t@),
            whole == ranges@.map_values(|r: (usize, usize)| (r.0 as int, r.1 as int))
                + component_ranges_from(t@, start as int, i as int),
        decreases t@.len() - i,
    {
        if t[i] == '/' || t[i] == '\\' {
            let ghost before = ranges@;
            ranges.push((start, i));
            assert(ranges@.map_values(|r: (usize, usize)| (r.0 as int, r.1 as int)) =~= before.map_values(
                |r: (usize, usize)| (r.0 as int, r.1 as int),
            ).push((start as int, i as int)));
            start = i + 1;
        }
        i = i + 1;
    }
    let ghost before = ranges@;
    ranges.push((start, t.len()));
    assert(ranges@.map_values(|r: (usize, usize)| (r.0 as int, r.1 as int)) =~= before.map_values(
        |r: (usize, usize)| (r.0 as int, r.1 as int),
    ).push((start as int, t@.len() as int)));
    assert(ranges@.map_values(|r: (usize, usize)| (r.0 as int, r.1 as int)) =~= whole);
    assert forall|k: int| 0 <= k < ranges@.len() implies (#[trigger] ranges@[k]).0 as int
        == whole[k].0 && ranges@[k].1 as int == whole[k].1 by {
        assert(ranges@.map_values(|r: (usize, usize)| (r.0 as int, r.1 as int))[k] == whole[k]);
    }
    ranges
}


proof fn lemma_marker_at_bounds(s: Seq<char>, start: int)
    requires
        0 <= start < s.len(),
        s.len() <= usize::MAX,
    ensures
        spec_marker_at(s, start) matches Some(m) ==> (m.start == start && start < m.end
            <= s.len()),
{
    lemma_component_end_bounds(s, start);
    lemma_component_end_bounds(s, start + 1);
    if let Some((a, b, c, d)) = spec_marker_parts(s, start) {
        lemma_component_end_bounds(s, c);
    }
}

proof fn lemma_markers_bounds(s: Seq<char>, n: int)
    requires
        0 <= n <= s.len(),
        s.len() <= usize::MAX,
    ensures
        forall|k: int|
            0 <= k < spec_markers_before(s, n).len() ==> {
                let m = #[trigger] spec_markers_before(s, n)[k];
                m.start < m.end <= s.len()
            },
    decreases n,
{
    if n > 0 {
        lemma_markers_bounds(s, n - 1);
        lemma_marker_at_bounds(s, n - 1);
        let before = spec_markers_before(s, n - 1);
        if let Some(m) = spec_marker_at(s, n - 1) {
            assert forall|k: int| 0 <= k < before.push(m).len() implies {
                let x = #[trigger] before.push(m)[k];
                x.start < x.end <= s.len()
            } by {
                if k < before.len() {
                    assert(before.push(m)[k] == before[k]);
                }
            }
        }
    }
}

fn season_directory_exec(season: u64) -> (name: Vec<char>)
    ensures
        name@ == season_directory(season),
{
    let mut name = vec!['S', 'e', 'a', 's', 'o', 'n', ' '];
    if season < 10 {
        name.push('0');
        name.push(digit_to_char_exec(season));
    } else {
        let mut digits = decimal_chars(season);
        name.append(&mut digits);
    }
    assert(name@ =~= season_directory(season));
    name
}

fn identity_from(title: &[char], marker: EpisodeMarker) -> (identity: TvLibraryIdentity)
    ensures
        identity.show_title@ == title@,
        identity.season == marker.season,
        identity.episode == marker.episode,
{
    TvLibraryIdentity {
        show_title: string_from_chars(title),
        season: marker.season,
        episode: marker.episode,
    }
}

/// Recognises the show, season and episode of a library-relative path given as characters.
pub fn parse_tv_identity_chars(path: &[char]) -> (identity: Option<TvLibraryIdentity>)
    ensures
        match identity {
            Some(found) => spec_tv_identity(path@) == Some(
                (found.show_title@, found.season, found.episode),
            ),
            None => spec_tv_identity(path@) is None,
        },
{
    let ghost t = path@;
    if path.len() == 0 || path[0] == '/' || path[0] == '\\' {
        return None;
    }
    let ranges = component_ranges_exec(path);
    proof {
        lemma_component_ranges_from(t, 0, 0);
    }
    let ghost components = path_components(t);
    let mut k: usize = 0;
    while k < ranges.len()
        invariant
            ranges@.len() == component_ranges(t).len(),
            components == path_components(t),
            t == path@,
            forall|j: int|
                0 <= j < ranges@.len() ==> (#[trigger] ranges@[j]).0 as int == component_ranges(
                    t,
                )[j].0 && ranges@[j].1 as int == component_ranges(t)[j].1,
            forall|j: int|
                0 <= j < component_ranges(t).len() ==> {
                    let r = #[trigger] component_ranges(t)[j];
                    0 <= r.0 <= r.1 <= t.len()
                },
            k <= ranges@.len(),
            forall|j: int|
                0 <= j < k ==> {
                    let c = #[trigger] components[j];
                    c.len() > 0 && c != seq!['.'] && c != seq!['.', '.']
                },
        decreases ranges@.len() - k,
    {
        let (a, b) = ranges[k];
        assert(components[k as int] == t.subrange(a as int, b as int));
        let length = b - a;
        if length == 0 {
            return None;
        }
        if length == 1 && path[a] == '.' {
            assert(components[k as int] =~= seq!['.']);
            return None;
        }
        if length == 2 && path[a] == '.' && path[a + 1] == '.' {
            assert(components[k as int] =~= seq!['.', '.']);
            return None;
        }
        assert(components[k as int] != seq!['.']) by {
            if length == 1 {
                assert(components[k as int][0] != '.');
            }
        }
        assert(components[k as int] != seq!['.', '.']) by {
            if length == 2 {
                assert(components[k as int][0] != '.' || components[k as int][1] != '.');
            }
        }
        k = k + 1;
    }
    assert(plain_relative_path(t));
    let n = ranges.len();
    let (file_start, file_end) = ranges[n - 1];
    let ghost filename = t.subrange(file_start as int, file_end as int);
    assert(components[n - 1] == filename);
    let mut j: usize = file_end;
    while j > file_start && path[j - 1] != '.'
        invariant
            file_start <= j <= file_end <= t.len(),
            filename == t.subrange(file_start as int, file_end as int),
            t == path@,
            last_dot_before(filename, j - file_start) == last_dot_before(
                filename,
                filename.len() as int,
            ),
        decreases j - file_start,
    {
        assert(filename[j - 1 - file_start] == path@[j - 1]);
        j = j - 1;
    }
    let stem_end = if j > file_start + 1 {
        j - 1
    } else {
        file_end
    };
    proof {
        if j > file_start {
            assert(filename[j - 1 - file_start] == path@[j - 1]);
        }
        assert(file_stem(filename) =~= t.subrange(file_start as int, stem_end as int));
    }
    let stem = copy_range(path, file_start, stem_end);
    let markers = episode_markers(&stem);
    if markers.len() != 1 {
        return None;
    }
    let marker = markers[0];
    assert(stem@.len() <= usize::MAX);
    proof {
        lemma_markers_bounds(stem@, stem@.len() as int);
        assert(markers@[0] == spec_episode_markers(stem@)[0]);
    }
    let tail = copy_range(&stem, marker.end, stem.len());
    if compact_episode_continuation(&tail) {
        return None;
    }
    let head = copy_range(&stem, 0, marker.start);
    let filename_title = trim_title_exec(&head);
    if filename_title.len() > 0 && usable_show_title(&filename_title) {
        return Some(identity_from(&filename_title, marker));
    }
    if n < 2 {
        return None;
    }
    let (parent_start, parent_end) = ranges[n - 2];
    let parent = copy_range(path, parent_start, parent_end);
    assert(components[n - 2] == parent@);
    if usable_show_title(&parent) {
        return Some(identity_from(&parent, marker));
    }
    if n < 3 {
        return None;
    }
    let (grand_start, grand_end) = ranges[n - 3];
    let grandparent = copy_range(path, grand_start, grand_end);
    assert(components[n - 3] == grandparent@);
    let season_folder = season_directory_exec(marker.season);
    if !chars_equal(&parent, &season_folder) || !usable_show_title(&grandparent) {
        return None;
    }
    Some(identity_from(&grandparent, marker))
}

/// Recognises the show, season and episode of a library-relative path, or nothing when the
/// path is not unambiguously one episode.
pub fn parse_tv_relative_identity(relative_path: &str) -> (identity: Option<TvLibraryIdentity>)
    ensures
        match identity {
            Some(found) => spec_tv_identity(relative_path@) == Some(
                (found.show_title@, found.season, found.episode),
            ),
            None => spec_tv_identity(relative_path@) is None,
        },
{
    let path = chars_of(relative_path);
    parse_tv_identity_chars(&path)
}

} // verus!
