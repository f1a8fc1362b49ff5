//! Which files a library scan takes: the media extensions and the entries it walks into.
use vstd::prelude::*;

use crate::text::{chars_of, split_ranges_exec, split_text};

verus! {

/// The most files one scan collects.
pub const MAX_LIBRARY_FILES: usize = 5000;

/// The media extensions a library accepts, in lower case.
pub open spec fn supported_extensions() -> Seq<Seq<char>> {
    seq![
        seq!['m', 'k', 'v'],
        seq!['m', 'p', '4'],
        seq!['a', 'v', 'i'],
        seq!['w', 'm', 'v'],
        seq!['m', '4', 'v'],
        seq!['t', 's'],
        seq!['m', 'o', 'v'],
        seq!['f', 'l', 'v'],
        seq!['i', 's', 'o'],
        seq!['r', 'm', 'v', 'b'],
        seq!['w', 'e', 'b', 'm'],
        seq!['m', 'p', 'g'],
        seq!['m', 'p', 'e', 'g'],
    ]
}

/// ASCII upper-case letters in lower case; every other character unchanged.
pub open spec fn ascii_lower(c: char) -> char {
    if 'A' <= c && c <= 'Z' {
        ((c as u32) + 32) as char
    } else {
        c
    }
}

/// Equality ignoring ASCII case, against a lower-case text.
pub open spec fn eq_ignore_ascii_case(s: Seq<char>, lower: Seq<char>) -> bool {
    s.len() == lower.len() && forall|i: int| 0 <= i < s.len() ==> #[trigger] ascii_lower(s[i]) == lower[i]
}

/// The last component of a path that names an entry, searching the `/`-separated segments
/// before `k`: empty and `.` segments name nothing, and a final `..` has no name.
pub open spec fn last_name_before(segments: Seq<Seq<char>>, k: int) -> Option<Seq<char>>
    decreases k,
{
    if k <= 0 {
        None
    } else if segments[k - 1].len() == 0 || segments[k - 1] == seq!['.'] {
        last_name_before(segments, k - 1)
    } else if segments[k - 1] == seq!['.', '.'] {
        None
    } else {
        Some(segments[k - 1])
    }
}

/// The file name of a path (`Path::file_name` on Unix).
pub open spec fn spec_file_name(path: Seq<char>) -> Option<Seq<char>> {
    let segments = split_text(path, '/');
    last_name_before(segments, segments.len() as int)
}

/// The position of the last `.` of `name` before `k`, or -1.
pub open spec fn last_dot(name: Seq<char>, k: int) -> int
    decreases k,
{
    if k <= 0 {
        -1
    } else if name[k - 1] == '.' {
        k - 1
    } else {
        last_dot(name, k - 1)
    }
}

/// The extension of a file name (`Path::extension`): what follows its last `.`, when
/// something precedes that `.`.
pub open spec fn spec_extension(path: Seq<char>) -> Option<Seq<char>> {
    match spec_file_name(path) {
        None => None,
        Some(name) => {
            let k = last_dot(name, name.len() as int);
            if k <= 0 {
                None
            } else {
                Some(name.subrange(k + 1, name.len() as int))
            }
        },
    }
}

/// Whether a path names a media file that a library accepts.
pub open spec fn spec_supported_media(path: Seq<char>) -> bool {
    match spec_extension(path) {
        None => false,
        Some(ext) => exists|i: int|
            0 <= i < supported_extensions().len() && eq_ignore_ascii_case(
                ext,
                #[trigger] supported_extensions()[i],
            ),
    }
}

/// The extension with its ASCII letters in lower case.
pub open spec fn lowered(ext: Seq<char>) -> Seq<char> {
    ext.map_values(|c: char| ascii_lower(c))
}

/// Whether a lower-cased extension is one of the media extensions a library accepts: mkv,
/// mp4, avi, wmv, m4v, ts, mov, flv, iso, rmvb, webm, mpg and mpeg.
pub open spec fn media_extension(l: Seq<char>) -> bool {
    ||| l == seq!['m', 'k', 'v']
    ||| l == seq!['m', 'p', '4']
    ||| l == seq!['a', 'v', 'i']
    ||| l == seq!['w', 'm', 'v']
    ||| l == seq!['m', '4', 'v']
    ||| l == seq!['t', 's']
    ||| l == seq!['m', 'o', 'v']
    ||| l == seq!['f', 'l', 'v']
    ||| l == seq!['i', 's', 'o']
    ||| l == seq!['r', 'm', 'v', 'b']
    ||| l == seq!['w', 'e', 'b', 'm']
    ||| l == seq!['m', 'p', 'g']
    ||| l == seq!['m', 'p', 'e', 'g']
}

proof fn lemma_eq_ignore_case_lowered(ext: Seq<char>, lower: Seq<char>)
    ensures
        eq_ignore_ascii_case(ext, lower) <==> lowered(ext) == lower,
{
    if eq_ignore_ascii_case(ext, lower) {
        assert(lowered(ext) =~= lower);
    }
    if lowered(ext) == lower {
        assert forall|i: int| 0 <= i < ext.len() implies #[trigger] ascii_lower(ext[i]) == lower[i] by {
            assert(lowered(ext)[i] == ascii_lower(ext[i]));
        }
    }
}

/// A path is library media exactly when its file name has an extension that, in ASCII lower
/// case, is one of the supported media extensions: `Movie.mp4`, `Movie.MP4` and `Show.mkv`
/// are, `notes.txt` and a name without an extension are not.
pub proof fn law_supported_media_extensions(path: Seq<char>)
    ensures
        spec_supported_media(path) <==> (spec_extension(path) matches Some(ext) && media_extension(
            lowered(ext),
        )),
{
    if spec_extension(path) is Some {
        let ext = spec_extension(path)->0;
        let exts = supported_extensions();
        assert forall|i: int| 0 <= i < exts.len() implies (eq_ignore_ascii_case(ext, #[trigger] exts[i])
            <==> lowered(ext) == exts[i]) by {
            lemma_eq_ignore_case_lowered(ext, exts[i]);
        }
        if media_extension(lowered(ext)) {
            let l = lowered(ext);
            if l == exts[0] {
            } else if l == exts[1] {
            } else if l == exts[2] {
            } else if l == exts[3] {
            } else if l == exts[4] {
            } else if l == exts[5] {
            } else if l == exts[6] {
            } else if l == exts[7] {
            } else if l == exts[8] {
            } else if l == exts[9] {
            } else if l == exts[10] {
            } else if l == exts[11] {
            } else {
                assert(l == exts[12]);
            }
        }
    }
}

pub(crate) fn ascii_lower_char(c: char) -> (d: char)
    ensures
        d == ascii_lower(c),
{
    if 'A' <= c && c <= 'Z' {
        let lower = ((c as u8) + 32) as char;
        assert(lower == ((c as u32) + 32) as char);
        lower
    } else {
        c
    }
}

fn eq_ignore_case_range(t: &[char], a: usize, b: usize, lower: &[char]) -> (result: bool)
    requires
        a <= b <= t@.len(),
    ensures
        result == eq_ignore_ascii_case(t@.subrange(a as int, b as int), lower@),
{
    if b - a != lower.len() {
        return false;
    }
    let mut i: usize = 0;
    while i < lower.len()
        invariant
            a <= b <= t@.len(),
            b - a == lower@.len(),
            i <= lower@.len(),
            forall|k: int| 0 <= k < i ==> #[trigger] ascii_lower(t@[a + k]) == lower@[k],
        decreases lower@.len() - i,
    {
        if ascii_lower_char(t[a + i]) != lower[i] {
            assert(ascii_lower(t@.subrange(a as int, b as int)[i as int]) != lower@[i as int]);
            return false;
        }
        i = i + 1;
    }
    assert forall|k: int| 0 <= k < b - a implies #[trigger] ascii_lower(
        t@.subrange(a as int, b as int)[k],
    ) == lower@[k] by {
        assert(t@.subrange(a as int, b as int)[k] == t@[a + k]);
    }
    true
}

/// Whether a path names a media file that a library accepts: its extension is one of the
/// supported ones, in any ASCII case.
pub fn is_supported_library_media(path: &str) -> (supported: bool)
    ensures
        supported == spec_supported_media(path@),
{
    let t = chars_of(path);
    let ranges = split_ranges_exec(&t, '/');
    let ghost segments = split_text(t@, '/');
    let mut k: usize = ranges.len();
    while k > 0
        invariant
            t@ == path@,
            segments == split_text(t@, '/'),
            ranges@.len() == segments.len(),
            forall|j: int|
                0 <= j < ranges@.len() ==> (#[trigger] ranges@[j]).0 <= ranges@[j].1 <= t@.len()
                    && t@.subrange(ranges@[j].0 as int, ranges@[j].1 as int) == segments[j],
            k <= ranges@.len(),
            last_name_before(segments, segments.len() as int) == last_name_before(
                segments,
                k as int,
            ),
        decreases k,
    {
        let (a, b) = ranges[k - 1];
        let ghost segment = segments[k - 1];
        assert(segment == t@.subrange(a as int, b as int));
        let single_dot = b - a == 1 && t[a] == '.';
        let double_dot = b - a == 2 && t[a] == '.' && t[a + 1] == '.';
        proof {
            assert(seq!['.'].len() == 1 && seq!['.'][0] == '.');
            assert(seq!['.', '.'].len() == 2 && seq!['.', '.'][0] == '.' && seq!['.', '.'][1]
                == '.');
            if b - a == 1 {
                assert(segment[0] == t@[a as int]);
            }
            if b - a == 2 {
                assert(segment[0] == t@[a as int]);
                assert(segment[1] == t@[a + 1]);
            }
            if single_dot {
                assert(segment =~= seq!['.']);
            }
            if double_dot {
                assert(segment =~= seq!['.', '.']);
            }
        }
        if b == a || single_dot {
            k = k - 1;
        } else if double_dot {
            return false;
        } else {
            let mut d: usize = b;
            while d > a && t[d - 1] != '.'
                invariant
                    a <= d <= b <= t@.len(),
                    segment == t@.subrange(a as int, b as int),
                    last_dot(segment, segment.len() as int) == last_dot(segment, d - a),
                decreases d,
            {
                assert(segment[d - a - 1] == t@[d - 1]);
                d = d - 1;
            }
            proof {
                if d > a {
                    assert(segment[d - a - 1] == t@[d - 1]);
                }
            }
            if d <= a + 1 {
                return false;
            }
            let ghost ext = t@.subrange(d as int, b as int);
            assert(segment.subrange(d - a, segment.len() as int) =~= ext);
            let mkv = ['m', 'k', 'v'];
            let mp4 = ['m', 'p', '4'];
            let avi = ['a', 'v', 'i'];
            let wmv = ['w', 'm', 'v'];
            let m4v = ['m', '4', 'v'];
            let ts = ['t', 's'];
            let mov = ['m', 'o', 'v'];
            let flv = ['f', 'l', 'v'];
            let iso = ['i', 's', 'o'];
            let rmvb = ['r', 'm', 'v', 'b'];
            let webm = ['w', 'e', 'b', 'm'];
            let mpg = ['m', 'p', 'g'];
            let mpeg = ['m', 'p', 'e', 'g'];
            let ghost exts = supported_extensions();
            assert(mkv@ == exts[0] && mp4@ == exts[1] && avi@ == exts[2] && wmv@ == exts[3]);
            assert(m4v@ == exts[4] && ts@ == exts[5] && mov@ == exts[6] && flv@ == exts[7]);
            assert(iso@ == exts[8] && rmvb@ == exts[9] && webm@ == exts[10] && mpg@ == exts[11]);
            assert(mpeg@ == exts[12]);
            let found = eq_ignore_case_range(&t, d, b, &mkv) || eq_ignore_case_range(&t, d, b, &mp4)
                || eq_ignore_case_range(&t, d, b, &avi) || eq_ignore_case_range(&t, d, b, &wmv)
                || eq_ignore_case_range(&t, d, b, &m4v) || eq_ignore_case_range(&t, d, b, &ts)
                || eq_ignore_case_range(&t, d, b, &mov) || eq_ignore_case_range(&t, d, b, &flv)
                || eq_ignore_case_range(&t, d, b, &iso) || eq_ignore_case_range(&t, d, b, &rmvb)
                || eq_ignore_case_range(&t, d, b, &webm) || eq_ignore_case_range(&t, d, b, &mpg)
                || eq_ignore_case_range(&t, d, b, &mpeg);
            proof {
                if !found {
                    assert forall|i: int| 0 <= i < exts.len() implies !eq_ignore_ascii_case(
                        ext,
                        #[trigger] exts[i],
                    ) by {
                        if i == 0 {
                        } else if i == 1 {
                        } else if i == 2 {
                        } else if i == 3 {
                        } else if i == 4 {
                        } else if i == 5 {
                        } else if i == 6 {
                        } else if i == 7 {
                        } else if i == 8 {
                        } else if i == 9 {
                        } else if i == 10 {
                        } else if i == 11 {
                        } else {
                            assert(i == 12);
                        }
                    }
                }
            }
            return found;
        }
    }
    false
}

/// What a directory entry is, as its file type reports it (`Other` also when the type could
/// not be read).
#[derive(Clone, Copy, Debug, PartialEq, Eq, Structural)]
pub enum LibraryEntryKind {
    Directory,
    File,
    Other,
}

/// What a library walk does with one directory entry.
#[derive(Clone, Copy, Debug, PartialEq, Eq, Structural)]
pub enum LibraryEntryStep {
    /// The walk has collected `MAX_LIBRARY_FILES` files and stops.
    Stop,
    Skip,
    /// The entry is a directory to walk into.
    Descend,
    /// The entry is a media file to collect.
    Capture,
}

/// The step for an entry at `path` whose name is `name` (none when it is not UTF-8), once
/// `collected` files are held: stop at the limit; skip names that are not UTF-8 or start with
/// `.`; walk into directories; collect supported media files; skip the rest.
pub open spec fn spec_library_entry_step(
    collected: nat,
    name: Option<Seq<char>>,
    kind: LibraryEntryKind,
    path: Seq<char>,
) -> LibraryEntryStep {
    if collected >= MAX_LIBRARY_FILES {
        LibraryEntryStep::Stop
    } else if name is None || (name->0.len() > 0 && name->0[0] == '.') {
        LibraryEntryStep::Skip
    } else if kind == LibraryEntryKind::Directory {
        LibraryEntryStep::Descend
    } else if kind == LibraryEntryKind::File && spec_supported_media(path) {
        LibraryEntryStep::Capture
    } else {
        LibraryEntryStep::Skip
    }
}

/// A walk under the file limit walks into every visible directory, collects every visible
/// file whose extension is a media extension, skips hidden entries, names that are not UTF-8
/// and other files, and stops at the limit.
pub proof fn law_library_walk_steps(collected: nat, name: Option<Seq<char>>, kind: LibraryEntryKind, path: Seq<char>)
    ensures
        collected >= MAX_LIBRARY_FILES ==> spec_library_entry_step(collected, name, kind, path)
            == LibraryEntryStep::Stop,
        collected < MAX_LIBRARY_FILES && name is None ==> spec_library_entry_step(collected, name, kind, path)
            == LibraryEntryStep::Skip,
        collected < MAX_LIBRARY_FILES ==> (name matches Some(n) ==> (n.len() > 0 && n[0] == '.'
            ==> spec_library_entry_step(collected, name, kind, path) == LibraryEntryStep::Skip)),
        collected < MAX_LIBRARY_FILES ==> (name matches Some(n) ==> (!(n.len() > 0 && n[0] == '.') ==> {
            &&& kind == LibraryEntryKind::Directory ==> spec_library_entry_step(collected, name, kind, path)
                == LibraryEntryStep::Descend
            &&& kind == LibraryEntryKind::File ==> (spec_library_entry_step(collected, name, kind, path)
                == LibraryEntryStep::Capture <==> (spec_extension(path) matches Some(ext) && media_extension(
                lowered(ext),
            )))
            &&& kind == LibraryEntryKind::Other ==> spec_library_entry_step(collected, name, kind, path)
                == LibraryEntryStep::Skip
        })),
{
    law_supported_media_extensions(path);
}

pub fn library_entry_step(
    collected: usize,
    name: Option<&str>,
    kind: LibraryEntryKind,
    path: &str,
) -> (step: LibraryEntryStep)
    ensures
        step == spec_library_entry_step(
            collected as nat,
            match name {
                Some(n) => Some(n@),
                None => None,
            },
            kind,
            path@,
        ),
{
    if collected >= MAX_LIBRARY_FILES {
        return LibraryEntryStep::Stop;
    }
    match name {
        None => {
            return LibraryEntryStep::Skip;
        },
        Some(n) => {
            let chars = chars_of(n);
            if chars.len() > 0 && chars[0] == '.' {
                return LibraryEntryStep::Skip;
            }
        },
    }
    match kind {
        LibraryEntryKind::Directory => LibraryEntryStep::Descend,
        LibraryEntryKind::File => if is_supported_library_media(path) {
            LibraryEntryStep::Capture
        } else {
            LibraryEntryStep::Skip
        },
        LibraryEntryKind::Other => LibraryEntryStep::Skip,
    }
}

} // verus!
