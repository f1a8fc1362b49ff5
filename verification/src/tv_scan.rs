//! The show groups of a scan, the reconciliation of stored associations with what a scan found,
//! and the scan response.
use vstd::prelude::*;
use vstd::utf8::encode_utf8;

use crate::digest::{hex_sha1, spec_hex_sha1};
use crate::text::{
    chars_of, same_text, decimal_string, decimal_string_of, lemma_text_less_order, push_char,
    push_str, text_less, text_less_chars,
};
use crate::tv_library::{CompletedTvScan, TrustedTvFile, TrustedTvShowGroup};
use crate::tv_store::{
    optional_str, optional_text, TvAnchorView, TvAssociationView, TvMetadataAnchor,
    TvMetadataAssociation, associations_view, copy_anchor, copy_association,
};

verus! {

/// The show title a file was recognised under.
pub open spec fn file_title(file: TrustedTvFile) -> Option<Seq<char>> {
    match file.identity {
        Some(identity) => Some(identity.show_title@),
        None => None,
    }
}

/// Whether some file belongs to the show `title`.
pub open spec fn has_show(files: Seq<TrustedTvFile>, title: Seq<char>) -> bool {
    exists|i: int| 0 <= i < files.len() && file_title(#[trigger] files[i]) == Some(title)
}

/// The files of the show `title`, in scan order.
pub open spec fn show_members(files: Seq<TrustedTvFile>, title: Seq<char>) -> Seq<TrustedTvFile>
    decreases files.len(),
{
    if files.len() == 0 {
        Seq::empty()
    } else {
        let rest = show_members(files.drop_last(), title);
        if file_title(files.last()) == Some(title) {
            rest.push(files.last())
        } else {
            rest
        }
    }
}

/// What one member adds to its group's identity: its relative path, identity, fingerprint
/// and size, each after a NUL.
pub open spec fn member_authority(file: TrustedTvFile) -> Seq<char> {
    seq!['\0'] + file.relative_path@ + seq!['\0'] + file.file_identity@ + seq!['\0']
        + file.fingerprint@ + seq!['\0'] + decimal_string(file.size as nat)
}

pub open spec fn members_authority(members: Seq<TrustedTvFile>) -> Seq<char>
    decreases members.len(),
{
    if members.len() == 0 {
        Seq::empty()
    } else {
        members_authority(members.drop_last()) + member_authority(members.last())
    }
}

/// The text whose SHA-1 identifies a show group: the folder identity, a NUL, the title, then
/// each member.
pub open spec fn group_authority(
    folder_identity: Seq<char>,
    title: Seq<char>,
    members: Seq<TrustedTvFile>,
) -> Seq<char> {
    folder_identity + seq!['\0'] + title + members_authority(members)
}

/// The identifier of the group of show `title`.
pub open spec fn spec_group_id(
    folder_identity: Seq<char>,
    files: Seq<TrustedTvFile>,
    title: Seq<char>,
) -> Seq<char> {
    spec_hex_sha1(encode_utf8(group_authority(folder_identity, title, show_members(files, title))))
}

/// The paths of some files.
pub open spec fn file_paths(files: Seq<TrustedTvFile>) -> Seq<Seq<char>> {
    files.map_values(|f: TrustedTvFile| f.path@)
}

/// The characters of some strings.
pub open spec fn texts(values: Seq<String>) -> Seq<Seq<char>> {
    values.map_values(|s: String| s@)
}

/// Whether `group` is the fresh group of show `title`: its identifier, its title and the paths
/// of its members, with no association and no attention.
pub open spec fn is_show_group(
    group: TrustedTvShowGroup,
    folder_identity: Seq<char>,
    files: Seq<TrustedTvFile>,
    title: Seq<char>,
) -> bool {
    &&& group.show_title@ == title
    &&& group.group_id@ == spec_group_id(folder_identity, files, title)
    &&& texts(group.member_paths@) == file_paths(show_members(files, title))
    &&& group.association is None
    &&& !group.metadata_attention
}

/// Whether the titles are strictly increasing in the text order.
pub open spec fn titles_sorted(titles: Seq<Seq<char>>) -> bool {
    forall|i: int, j: int| 0 <= i < j < titles.len() ==> text_less(#[trigger] titles[i], #[trigger] titles[j])
}

/// Whether `titles` are exactly the show titles of `files`, each once, in title order.
pub open spec fn are_show_titles(titles: Seq<Seq<char>>, files: Seq<TrustedTvFile>) -> bool {
    &&& titles_sorted(titles)
    &&& forall|k: int| 0 <= k < titles.len() ==> has_show(files, #[trigger] titles[k])
    &&& forall|i: int|
        0 <= i < files.len() && (#[trigger] file_title(files[i])) is Some ==> titles.contains(
            file_title(files[i]).unwrap(),
        )
}

/// The show titles of groups.
pub open spec fn group_titles(groups: Seq<TrustedTvShowGroup>) -> Seq<Seq<char>> {
    groups.map_values(|g: TrustedTvShowGroup| g.show_title@)
}

/// Whether `groups` are the show groups of a scan: one fresh group per show title of
/// `files`, in title order.
pub open spec fn are_show_groups(
    groups: Seq<TrustedTvShowGroup>,
    folder_identity: Seq<char>,
    files: Seq<TrustedTvFile>,
) -> bool {
    &&& are_show_titles(group_titles(groups), files)
    &&& forall|k: int|
        0 <= k < groups.len() ==> is_show_group(
            #[trigger] groups[k],
            folder_identity,
            files,
            groups[k].show_title@,
        )
}

/// The distinct show titles of `files`, in title order.
fn sorted_show_titles(files: &Vec<TrustedTvFile>) -> (titles: Vec<String>)
    ensures
        are_show_titles(texts(titles@), files@),
{
    let mut titles: Vec<String> = Vec::new();
    let mut i: usize = 0;
    while i < files.len()
        invariant
            i <= files@.len(),
            are_show_titles(texts(titles@), files@.take(i as int)),
        decreases files@.len() - i,
    {
        let ghost before = texts(titles@);
        let ghost prefix = files@.take(i as int);
        let ghost next = files@.take(i + 1);
        assert forall|j: int| 0 <= j < i implies next[j] == prefix[j] by {}
        assert(next[i as int] == files@[i as int]);
        match &files[i].identity {
            None => {
                assert forall|k: int| 0 <= k < before.len() implies has_show(next, #[trigger] before[k]) by {
                    let w = choose|w: int| 0 <= w < prefix.len() && file_title(#[trigger] prefix[w]) == Some(before[k]);
                    assert(next[w] == prefix[w]);
                }
                assert forall|j: int| 0 <= j < next.len() && (#[trigger] file_title(next[j])) is Some implies before.contains(
                    file_title(next[j]).unwrap(),
                ) by {
                    assert(next[j] == prefix[j]);
                }
            },
            Some(identity) => {
                let t = chars_of(identity.show_title.as_str());
                let mut p: usize = 0;
                while p < titles.len() && text_less_chars(&chars_of(titles[p].as_str()), &t)
                    invariant
                        p <= titles@.len(),
                        before == texts(titles@),
                        forall|k: int| 0 <= k < p ==> text_less(#[trigger] before[k], t@),
                    decreases titles@.len() - p,
                {
                    p = p + 1;
                }
                assert(file_title(files@[i as int]) == Some(t@));
                if p < titles.len() && titles[p] == identity.show_title {
                    assert(before[p as int] == t@);
                    assert forall|k: int| 0 <= k < before.len() implies has_show(next, #[trigger] before[k]) by {
                        let w = choose|w: int| 0 <= w < prefix.len() && file_title(#[trigger] prefix[w]) == Some(before[k]);
                        assert(next[w] == prefix[w]);
                    }
                    assert forall|j: int| 0 <= j < next.len() && (#[trigger] file_title(next[j])) is Some implies before.contains(
                        file_title(next[j]).unwrap(),
                    ) by {
                        if j < i {
                            assert(next[j] == prefix[j]);
                        } else {
                            assert(before[p as int] == file_title(next[j]).unwrap());
                        }
                    }
                } else {
                    proof {
                        if p < before.len() {
                            lemma_text_less_order(before[p as int], t@, t@);
                            assert(before[p as int] != t@);
                            assert(text_less(t@, before[p as int]));
                        }
                    }
                    titles.insert(p, identity.show_title.clone());
                    let ghost after = texts(titles@);
                    assert(after =~= before.insert(p as int, t@));
                    assert forall|a: int, b: int| 0 <= a < b < after.len() implies text_less(
                        #[trigger] after[a],
                        #[trigger] after[b],
                    ) by {
                        if b < p {
                            assert(after[a] == before[a] && after[b] == before[b]);
                        } else if b == p {
                            assert(after[a] == before[a]);
                        } else if a == p {
                            assert(after[b] == before[b - 1]);
                            if b - 1 > p {
                                lemma_text_less_order(t@, before[p as int], before[b - 1]);
                            }
                        } else if a < p {
                            assert(after[a] == before[a]);
                            assert(after[b] == before[b - 1]);
                        } else {
                            assert(after[a] == before[a - 1]);
                            assert(after[b] == before[b - 1]);
                        }
                    }
                    assert forall|k: int| 0 <= k < after.len() implies has_show(next, #[trigger] after[k]) by {
                        if k == p {
                            assert(file_title(next[i as int]) == Some(after[k]));
                        } else {
                            let old_k = if k < p { k } else { k - 1 };
                            assert(after[k] == before[old_k]);
                            let w = choose|w: int| 0 <= w < prefix.len() && file_title(#[trigger] prefix[w]) == Some(before[old_k]);
                            assert(next[w] == prefix[w]);
                        }
                    }
                    assert forall|j: int| 0 <= j < next.len() && (#[trigger] file_title(next[j])) is Some implies after.contains(
                        file_title(next[j]).unwrap(),
                    ) by {
                        if j < i {
                            assert(next[j] == prefix[j]);
                            let k = choose|k: int| 0 <= k < before.len() && before[k] == file_title(next[j]).unwrap();
                            if k < p {
                                assert(after[k] == before[k]);
                            } else {
                                assert(after[k + 1] == before[k]);
                            }
                        } else {
                            assert(after[p as int] == t@);
                        }
                    }
                }
            },
        }
        i = i + 1;
    }
    assert(files@.take(files@.len() as int) =~= files@);
    titles
}

/// The fresh group of show `title`.
fn show_group(folder_identity: &str, files: &Vec<TrustedTvFile>, title: &String) -> (group:
    TrustedTvShowGroup)
    ensures
        is_show_group(group, folder_identity@, files@, title@),
{
    let mut authority = String::new();
    push_str(&mut authority, folder_identity);
    push_char(&mut authority, '\0');
    push_str(&mut authority, title.as_str());
    let ghost head = authority@;
    assert(head =~= folder_identity@ + seq!['\0'] + title@);
    let mut paths: Vec<String> = Vec::new();
    let mut i: usize = 0;
    while i < files.len()
        invariant
            i <= files@.len(),
            head == folder_identity@ + seq!['\0'] + title@,
            authority@ == head + members_authority(show_members(files@.take(i as int), title@)),
            texts(paths@) == file_paths(show_members(files@.take(i as int), title@)),
        decreases files@.len() - i,
    {
        let ghost before = show_members(files@.take(i as int), title@);
        assert(files@.take(i + 1).drop_last() =~= files@.take(i as int));
        assert(files@.take(i + 1).last() == files@[i as int]);
        let file = &files[i];
        let member = match &file.identity {
            Some(identity) => identity.show_title == *title,
            None => false,
        };
        if member {
            assert(show_members(files@.take(i + 1), title@) == before.push(files@[i as int]));
            push_char(&mut authority, '\0');
            push_str(&mut authority, file.relative_path.as_str());
            push_char(&mut authority, '\0');
            push_str(&mut authority, file.file_identity.as_str());
            push_char(&mut authority, '\0');
            push_str(&mut authority, file.fingerprint.as_str());
            push_char(&mut authority, '\0');
            let size = decimal_string_of(file.size);
            push_str(&mut authority, size.as_str());
            assert(before.push(files@[i as int]).drop_last() =~= before);
            assert(authority@ =~= head + members_authority(show_members(files@.take(i + 1), title@)));
            let ghost old_paths = paths@;
            paths.push(file.path.clone());
            assert(texts(paths@) =~= texts(old_paths).push(file.path@));
            assert(file_paths(before.push(files@[i as int])) =~= file_paths(before).push(
                file.path@,
            ));
        } else {
            assert(show_members(files@.take(i + 1), title@) == before);
        }
        i = i + 1;
    }
    assert(files@.take(files@.len() as int) =~= files@);
    let group_id = hex_sha1(authority.as_str().as_bytes());
    TrustedTvShowGroup {
        group_id,
        show_title: title.clone(),
        member_paths: paths,
        association: None,
        metadata_attention: false,
    }
}

/// The show groups of a scan: one fresh group per show title of `files`, in title order,
/// each identified by the SHA-1 of the folder identity, its title and its members.
pub fn build_tv_show_groups(folder_identity: &str, files: &Vec<TrustedTvFile>) -> (groups: Vec<
    TrustedTvShowGroup,
>)
    ensures
        are_show_groups(groups@, folder_identity@, files@),
{
    let titles = sorted_show_titles(files);
    let mut groups: Vec<TrustedTvShowGroup> = Vec::new();
    let mut k: usize = 0;
    while k < titles.len()
        invariant
            k <= titles@.len(),
            are_show_titles(texts(titles@), files@),
            group_titles(groups@) == texts(titles@).take(k as int),
            forall|j: int|
                0 <= j < groups@.len() ==> is_show_group(
                    #[trigger] groups@[j],
                    folder_identity@,
                    files@,
                    groups@[j].show_title@,
                ),
        decreases titles@.len() - k,
    {
        let group = show_group(folder_identity, files, &titles[k]);
        let ghost before = groups@;
        groups.push(group);
        assert(group_titles(groups@) =~= group_titles(before).push(titles@[k as int]@));
        assert(texts(titles@).take(k + 1) =~= texts(titles@).take(k as int).push(titles@[k as int]@));
        k = k + 1;
    }
    assert(texts(titles@).take(titles@.len() as int) =~= texts(titles@));
    groups
}

/// What a reconciliation works against: the scanned folder and its identity, the titles of
/// the scan's groups, the scanned files, and the relative paths that the file system reported
/// absent.
pub struct TvReconcileScope {
    pub folder: Seq<char>,
    pub folder_identity: Seq<char>,
    pub titles: Seq<Seq<char>>,
    pub files: Seq<TrustedTvFile>,
    pub absent: Seq<Seq<char>>,
}

/// The first scanned file with relative path `relative`.
pub open spec fn find_relative(files: Seq<TrustedTvFile>, relative: Seq<char>) -> Option<
    TrustedTvFile,
>
    decreases files.len(),
{
    if files.len() == 0 {
        None
    } else if files[0].relative_path@ == relative {
        Some(files[0])
    } else {
        find_relative(files.drop_first(), relative)
    }
}

/// Whether a scanned file is exactly the episode an anchor recorded for show `title`.
pub open spec fn anchor_matches_file(anchor: TvAnchorView, title: Seq<char>, file: TrustedTvFile) -> bool {
    &&& file.identity matches Some(identity) && identity.show_title@ == title && identity.season
        == anchor.season && identity.episode == anchor.episode
    &&& file.relative_path@ == anchor.relative_path
    &&& file.file_identity@ == anchor.file_identity
    &&& file.fingerprint@ == anchor.fingerprint
    &&& file.size == anchor.size
}

/// An anchor holds when the scanned file at its path is still exactly that episode.
pub open spec fn anchor_holds(anchor: TvAnchorView, title: Seq<char>, files: Seq<TrustedTvFile>) -> bool {
    match find_relative(files, anchor.relative_path) {
        Some(file) => anchor_matches_file(anchor, title, file),
        None => false,
    }
}

/// An anchor is gone when no scanned file has its path and the path is reported absent.
pub open spec fn anchor_gone(anchor: TvAnchorView, scope: TvReconcileScope) -> bool {
    find_relative(scope.files, anchor.relative_path) is None && scope.absent.contains(
        anchor.relative_path,
    )
}

/// An anchor is invalid when it neither holds nor is gone.
pub open spec fn anchor_invalid(anchor: TvAnchorView, title: Seq<char>, scope: TvReconcileScope) -> bool {
    !anchor_holds(anchor, title, scope.files) && !anchor_gone(anchor, scope)
}

/// The anchors that hold, in order.
pub open spec fn retained_anchors(
    anchors: Seq<TvAnchorView>,
    title: Seq<char>,
    files: Seq<TrustedTvFile>,
) -> Seq<TvAnchorView>
    decreases anchors.len(),
{
    if anchors.len() == 0 {
        Seq::empty()
    } else {
        let rest = retained_anchors(anchors.drop_last(), title, files);
        if anchor_holds(anchors.last(), title, files) {
            rest.push(anchors.last())
        } else {
            rest
        }
    }
}

/// The index of the first of `titles` equal to `title` at or after `i`, or the number of titles.
pub open spec fn title_index_from(titles: Seq<Seq<char>>, title: Seq<char>, i: int) -> int
    decreases titles.len() - i,
{
    if i >= titles.len() {
        titles.len() as int
    } else if titles[i] == title {
        i
    } else {
        title_index_from(titles, title, i + 1)
    }
}

/// The index of the first group of show `title`, or the number of groups.
pub open spec fn group_of(scope: TvReconcileScope, title: Seq<char>) -> int {
    title_index_from(scope.titles, title, 0)
}

/// Whether an association belongs to the scanned folder.
pub open spec fn in_scope(a: TvAssociationView, scope: TvReconcileScope) -> bool {
    a.folder == scope.folder && a.folder_identity == scope.folder_identity
}

/// Whether an association of the folder is dropped: an anchor is invalid, no anchor holds,
/// or no group has its show.
pub open spec fn association_dropped(a: TvAssociationView, scope: TvReconcileScope) -> bool {
    &&& in_scope(a, scope)
    &&& {
        ||| exists|k: int|
            0 <= k < a.anchors.len() && anchor_invalid(#[trigger] a.anchors[k], a.local_show_title, scope)
        ||| retained_anchors(a.anchors, a.local_show_title, scope.files).len() == 0
        ||| group_of(scope, a.local_show_title) == scope.titles.len()
    }
}

/// Whether an association of the folder is kept.
pub open spec fn association_kept(a: TvAssociationView, scope: TvReconcileScope) -> bool {
    in_scope(a, scope) && !association_dropped(a, scope)
}

/// A kept association, reduced to the anchors that hold.
pub open spec fn reconciled(a: TvAssociationView, scope: TvReconcileScope) -> TvAssociationView {
    TvAssociationView {
        anchors: retained_anchors(a.anchors, a.local_show_title, scope.files),
        ..a
    }
}

/// The associations after reconciliation: those of other folders unchanged, dropped ones
/// removed, kept ones reduced to their holding anchors.
pub open spec fn reconciled_associations(
    associations: Seq<TvAssociationView>,
    scope: TvReconcileScope,
) -> Seq<TvAssociationView>
    decreases associations.len(),
{
    if associations.len() == 0 {
        Seq::empty()
    } else {
        let rest = reconciled_associations(associations.drop_last(), scope);
        let a = associations.last();
        if !in_scope(a, scope) {
            rest.push(a)
        } else if association_dropped(a, scope) {
            rest
        } else {
            rest.push(reconciled(a, scope))
        }
    }
}

/// Whether reconciling an association changes what must be stored: it is dropped, or one of
/// its anchors is gone.
pub open spec fn association_changes(a: TvAssociationView, scope: TvReconcileScope) -> bool {
    in_scope(a, scope) && (association_dropped(a, scope) || exists|k: int|
        0 <= k < a.anchors.len() && anchor_gone(#[trigger] a.anchors[k], scope))
}

pub open spec fn any_change(associations: Seq<TvAssociationView>, scope: TvReconcileScope) -> bool {
    exists|j: int| 0 <= j < associations.len() && association_changes(#[trigger] associations[j], scope)
}

/// Whether a dropped association of the show of group `g` asks for attention there.
pub open spec fn needs_attention(
    associations: Seq<TvAssociationView>,
    g: int,
    scope: TvReconcileScope,
) -> bool {
    exists|j: int|
        0 <= j < associations.len() && association_dropped(#[trigger] associations[j], scope)
            && group_of(scope, associations[j].local_show_title) == g
}

/// The association group `g` is bound to after reconciliation: the last kept association of
/// its show, reduced; else what it was bound to.
pub open spec fn bound_association(
    associations: Seq<TvAssociationView>,
    g: int,
    before: Option<TvAssociationView>,
    scope: TvReconcileScope,
) -> Option<TvAssociationView>
    decreases associations.len(),
{
    if associations.len() == 0 {
        before
    } else {
        let a = associations.last();
        if association_kept(a, scope) && group_of(scope, a.local_show_title) == g {
            Some(reconciled(a, scope))
        } else {
            bound_association(associations.drop_last(), g, before, scope)
        }
    }
}

/// The view of an optional association.
pub open spec fn association_option_view(a: Option<TvMetadataAssociation>) -> Option<TvAssociationView> {
    match a {
        Some(x) => Some(x@),
        None => None,
    }
}

/// The index of the first scanned file with relative path `relative`.
fn find_relative_index(files: &Vec<TrustedTvFile>, relative: &String) -> (index: Option<usize>)
    ensures
        match index {
            Some(k) => k < files@.len() && find_relative(files@, relative@) == Some(files@[k as int]),
            None => find_relative(files@, relative@) is None,
        },
{
    let mut i: usize = 0;
    assert(files@.subrange(0, files@.len() as int) =~= files@);
    while i < files.len()
        invariant
            i <= files@.len(),
            find_relative(files@, relative@) == find_relative(
                files@.subrange(i as int, files@.len() as int),
                relative@,
            ),
        decreases files@.len() - i,
    {
        let ghost rest = files@.subrange(i as int, files@.len() as int);
        assert(rest.drop_first() =~= files@.subrange(i + 1, files@.len() as int));
        assert(rest[0] == files@[i as int]);
        if files[i].relative_path == *relative {
            return Some(i);
        }
        i = i + 1;
    }
    assert(files@.subrange(i as int, files@.len() as int).len() == 0);
    None
}

fn anchor_matches_file_exec(anchor: &TvMetadataAnchor, title: &String, file: &TrustedTvFile) -> (b: bool)
    ensures
        b == anchor_matches_file(anchor@, title@, *file),
{
    let identity_matches = match &file.identity {
        Some(identity) => identity.show_title == *title && identity.season == anchor.season
            && identity.episode == anchor.episode,
        None => false,
    };
    identity_matches && file.relative_path == anchor.relative_path && file.file_identity
        == anchor.file_identity && file.fingerprint == anchor.fingerprint && file.size == anchor.size
}

fn contains_text(values: &Vec<String>, text: &String) -> (b: bool)
    ensures
        b == texts(values@).contains(text@),
{
    let mut i: usize = 0;
    while i < values.len()
        invariant
            i <= values@.len(),
            forall|j: int| 0 <= j < i ==> values@[j]@ != text@,
        decreases values@.len() - i,
    {
        if values[i] == *text {
            assert(texts(values@)[i as int] == text@);
            return true;
        }
        i = i + 1;
    }
    proof {
        if texts(values@).contains(text@) {
            let j = choose|j: int| 0 <= j < texts(values@).len() && texts(values@)[j] == text@;
            assert(values@[j]@ == text@);
        }
    }
    false
}

/// The index of the first group of show `title`.
fn find_group_index(groups: &Vec<TrustedTvShowGroup>, title: &String) -> (index: Option<usize>)
    ensures
        match index {
            Some(k) => k < groups@.len() && title_index_from(group_titles(groups@), title@, 0) == k,
            None => title_index_from(group_titles(groups@), title@, 0) == groups@.len(),
        },
{
    let ghost titles = group_titles(groups@);
    let mut i: usize = 0;
    while i < groups.len()
        invariant
            i <= groups@.len(),
            titles == group_titles(groups@),
            title_index_from(titles, title@, 0) == title_index_from(titles, title@, i as int),
        decreases groups@.len() - i,
    {
        assert(titles[i as int] == groups@[i as int].show_title@);
        if groups[i].show_title == *title {
            return Some(i);
        }
        i = i + 1;
    }
    None
}

/// The views of some anchors.
pub open spec fn anchor_views(anchors: Seq<TvMetadataAnchor>) -> Seq<TvAnchorView> {
    anchors.map_values(|x: TvMetadataAnchor| x@)
}

/// Sorts the anchors of an association of the scanned folder: those that hold (returned in
/// order), and whether any is invalid or gone.
fn classify_anchors(
    a: &TvMetadataAssociation,
    files: &Vec<TrustedTvFile>,
    absent: &Vec<String>,
    Ghost(scope): Ghost<TvReconcileScope>,
) -> (result: (Vec<TvMetadataAnchor>, bool, bool))
    requires
        scope.files == files@,
        scope.absent == texts(absent@),
    ensures
        anchor_views(result.0@) == retained_anchors(a@.anchors, a@.local_show_title, files@),
        result.1 == exists|k: int|
            0 <= k < a@.anchors.len() && anchor_invalid(#[trigger] a@.anchors[k], a@.local_show_title, scope),
        result.2 == exists|k: int| 0 <= k < a@.anchors.len() && anchor_gone(#[trigger] a@.anchors[k], scope),
{
    let ghost anchors = a@.anchors;
    let ghost title = a@.local_show_title;
    let mut retained: Vec<TvMetadataAnchor> = Vec::new();
    let mut invalidated = false;
    let mut gone = false;
    let mut j: usize = 0;
    while j < a.anchors.len()
        invariant
            anchors == a@.anchors,
            title == a@.local_show_title,
            anchors.len() == a.anchors@.len(),
            scope.files == files@,
            scope.absent == texts(absent@),
            j <= anchors.len(),
            anchor_views(retained@) == retained_anchors(anchors.take(j as int), title, files@),
            invalidated == exists|k: int| 0 <= k < j && anchor_invalid(#[trigger] anchors[k], title, scope),
            gone == exists|k: int| 0 <= k < j && anchor_gone(#[trigger] anchors[k], scope),
        decreases anchors.len() - j,
    {
        let anchor = &a.anchors[j];
        assert(anchors[j as int] == anchor@);
        assert(anchors.take(j + 1).drop_last() =~= anchors.take(j as int));
        assert(anchors.take(j + 1).last() == anchor@);
        let ghost before = retained@;
        match find_relative_index(files, &anchor.relative_path) {
            Some(f) => {
                if anchor_matches_file_exec(anchor, &a.local_show_title, &files[f]) {
                    retained.push(copy_anchor(anchor));
                    assert(anchor_views(retained@) =~= anchor_views(before).push(anchor@));
                } else {
                    invalidated = true;
                    assert(anchor_invalid(anchors[j as int], title, scope));
                }
            },
            None => {
                if contains_text(absent, &anchor.relative_path) {
                    gone = true;
                    assert(anchor_gone(anchors[j as int], scope));
                } else {
                    invalidated = true;
                    assert(anchor_invalid(anchors[j as int], title, scope));
                }
            },
        }
        proof {
            if !anchor_invalid(anchors[j as int], title, scope) {
                assert(!(exists|k: int| 0 <= k < j + 1 && anchor_invalid(#[trigger] anchors[k], title, scope))
                    <==> !(exists|k: int| 0 <= k < j && anchor_invalid(#[trigger] anchors[k], title, scope)));
            }
            if !anchor_gone(anchors[j as int], scope) {
                assert(!(exists|k: int| 0 <= k < j + 1 && anchor_gone(#[trigger] anchors[k], scope))
                    <==> !(exists|k: int| 0 <= k < j && anchor_gone(#[trigger] anchors[k], scope)));
            }
        }
        j = j + 1;
    }
    assert(anchors.take(anchors.len() as int) =~= anchors);
    (retained, invalidated, gone)
}

/// The scope of reconciling against a scan of `folder`.
pub open spec fn reconcile_scope(
    folder: Seq<char>,
    folder_identity: Seq<char>,
    groups: Seq<TrustedTvShowGroup>,
    files: Seq<TrustedTvFile>,
    absent: Seq<String>,
) -> TvReconcileScope {
    TvReconcileScope {
        folder,
        folder_identity,
        titles: group_titles(groups),
        files,
        absent: texts(absent),
    }
}

/// Group `g` after reconciling `associations`: same identifier, title and members; attention
/// when it had it or an association of its show was dropped; bound to the last kept
/// association of its show, if any.
pub open spec fn group_reconciled(
    after: TrustedTvShowGroup,
    before: TrustedTvShowGroup,
    g: int,
    associations: Seq<TvAssociationView>,
    scope: TvReconcileScope,
) -> bool {
    &&& after.group_id == before.group_id
    &&& after.show_title == before.show_title
    &&& after.member_paths == before.member_paths
    &&& after.metadata_attention == (before.metadata_attention || needs_attention(
        associations,
        g,
        scope,
    ))
    &&& association_option_view(after.association) == bound_association(
        associations,
        g,
        association_option_view(before.association),
        scope,
    )
}

/// Reconciles the stored associations of the scanned folder with what the scan found.
/// Associations of other folders stay as they are. An association of this folder is dropped,
/// and its show's group asks for attention, when one of its anchors is invalid (the file at
/// its path changed, or the path could not be confirmed absent), when none of its anchors
/// holds, or when no group has its show; otherwise it keeps the anchors that hold and its
/// group is bound to it. Returns whether the stored associations changed: one was dropped or
/// lost an anchor whose file is gone.
pub fn reconcile_tv_metadata_associations(
    folder: &str,
    folder_identity: &str,
    files: &Vec<TrustedTvFile>,
    absent: &Vec<String>,
    groups: &mut Vec<TrustedTvShowGroup>,
    associations: &mut Vec<TvMetadataAssociation>,
) -> (changed: bool)
    ensures
        changed == any_change(
            associations_view(old(associations)@),
            reconcile_scope(folder@, folder_identity@, old(groups)@, files@, absent@),
        ),
        associations_view(final(associations)@) == reconciled_associations(
            associations_view(old(associations)@),
            reconcile_scope(folder@, folder_identity@, old(groups)@, files@, absent@),
        ),
        final(groups)@.len() == old(groups)@.len(),
        forall|g: int|
            0 <= g < old(groups)@.len() ==> group_reconciled(
                #[trigger] final(groups)@[g],
                old(groups)@[g],
                g,
                associations_view(old(associations)@),
                reconcile_scope(folder@, folder_identity@, old(groups)@, files@, absent@),
            ),
{
    let ghost scope = reconcile_scope(folder@, folder_identity@, groups@, files@, absent@);
    let ghost original = associations_view(associations@);
    let ghost start_groups = groups@;
    let mut changed = false;
    let mut index: usize = 0;
    let ghost mut k: int = 0;
    while index < associations.len()
        invariant
            scope == reconcile_scope(folder@, folder_identity@, start_groups, files@, absent@),
            0 <= k <= original.len(),
            associations_view(associations@) == reconciled_associations(original.take(k), scope)
                + original.skip(k),
            index == reconciled_associations(original.take(k), scope).len(),
            changed == any_change(original.take(k), scope),
            groups@.len() == start_groups.len(),
            group_titles(groups@) == scope.titles,
            forall|g: int|
                0 <= g < start_groups.len() ==> group_reconciled(
                    #[trigger] groups@[g],
                    start_groups[g],
                    g,
                    original.take(k),
                    scope,
                ),
        decreases associations@.len() - index,
    {
        let ghost done = original.take(k);
        let ghost next = original.take(k + 1);
        let ghost before_groups = groups@;
        assert(associations_view(associations@)[index as int] == original[k]);
        assert(associations@[index as int]@ == original[k]);
        assert(next.drop_last() =~= done);
        assert(next.last() == original[k]);
        assert(original.skip(k) =~= seq![original[k]] + original.skip(k + 1));
        let ghost a = original[k];
        if !(same_text(associations[index].folder.as_str(), folder) && same_text(
            associations[index].folder_identity.as_str(),
            folder_identity,
        )) {
            assert(!in_scope(a, scope));
            assert(reconciled_associations(next, scope) == reconciled_associations(done, scope).push(a));
            assert(associations_view(associations@) =~= reconciled_associations(next, scope)
                + original.skip(k + 1));
            proof {
                if any_change(next, scope) {
                    let j = choose|j: int| 0 <= j < next.len() && association_changes(#[trigger] next[j], scope);
                    assert(next[j] == done[j]);
                }
                assert forall|g: int| 0 <= g < start_groups.len() implies group_reconciled(
                    #[trigger] groups@[g],
                    start_groups[g],
                    g,
                    next,
                    scope,
                ) by {
                    assert(group_reconciled(groups@[g], start_groups[g], g, done, scope));
                    if needs_attention(next, g, scope) {
                        let j = choose|j: int|
                            0 <= j < next.len() && association_dropped(#[trigger] next[j], scope)
                                && group_of(scope, next[j].local_show_title) == g;
                        assert(next[j] == done[j]);
                    }
                    if needs_attention(done, g, scope) {
                        let j = choose|j: int|
                            0 <= j < done.len() && association_dropped(#[trigger] done[j], scope)
                                && group_of(scope, done[j].local_show_title) == g;
                        assert(next[j] == done[j]);
                    }
                }
                k = k + 1;
            }
            index = index + 1;
            continue;
        }
        assert(in_scope(a, scope));
        let gi = find_group_index(groups, &associations[index].local_show_title);
        let (retained, invalidated, gone) = classify_anchors(
            &associations[index],
            files,
            absent,
            Ghost(scope),
        );
        if gone {
            changed = true;
        }
        if invalidated || retained.len() == 0 || gi.is_none() {
            assert(association_dropped(a, scope));
            let ghost view_before = associations_view(associations@);
            associations.remove(index);
            assert(associations_view(associations@) =~= view_before.remove(index as int));
            match gi {
                Some(g) => {
                    let mut group = groups.remove(g);
                    group.metadata_attention = true;
                    groups.insert(g, group);
                },
                None => {},
            }
            changed = true;
            proof {
                assert(next[k] == a);
                let target: int = match gi {
                    Some(gg) => gg as int,
                    None => -1,
                };
                assert(gi is Some ==> association_dropped(next[k], scope) && group_of(
                    scope,
                    next[k].local_show_title,
                ) == target);
                assert(reconciled_associations(next, scope) == reconciled_associations(done, scope));
                assert(associations_view(associations@) =~= reconciled_associations(next, scope)
                    + original.skip(k + 1));
                assert(association_changes(next[k], scope));
                assert(group_titles(groups@) =~= group_titles(before_groups));
                assert forall|g: int| 0 <= g < start_groups.len() implies group_reconciled(
                    #[trigger] groups@[g],
                    start_groups[g],
                    g,
                    next,
                    scope,
                ) by {
                    assert(group_reconciled(before_groups[g], start_groups[g], g, done, scope));
                    if needs_attention(done, g, scope) {
                        let j = choose|j: int|
                            0 <= j < done.len() && association_dropped(#[trigger] done[j], scope)
                                && group_of(scope, done[j].local_show_title) == g;
                        assert(next[j] == done[j]);
                    }
                    if needs_attention(next, g, scope) && !needs_attention(done, g, scope) {
                        let j = choose|j: int|
                            0 <= j < next.len() && association_dropped(#[trigger] next[j], scope)
                                && group_of(scope, next[j].local_show_title) == g;
                        if j < k {
                            assert(next[j] == done[j]);
                        }
                    }
                    if gi is Some && g == target {
                        assert(association_dropped(next[k], scope) && group_of(
                            scope,
                            next[k].local_show_title,
                        ) == g);
                        assert(needs_attention(next, g, scope));
                    }
                }
                k = k + 1;
            }
            continue;
        }
        let g = match gi {
            Some(g) => g,
            None => {
                return changed;
            },
        };
        let mut current = copy_association(&associations[index]);
        current.anchors = retained;
        let ghost reduced = current@;
        assert(reduced.anchors == anchor_views(current.anchors@));
        assert(reduced == reconciled(a, scope));
        let stored = copy_association(&current);
        let ghost view_before = associations_view(associations@);
        let _ = associations.remove(index);
        associations.insert(index, stored);
        assert(associations_view(associations@) =~= view_before.update(index as int, reduced));
        let mut group = groups.remove(g);
        group.association = Some(current);
        groups.insert(g, group);
        proof {
            assert(association_kept(a, scope));
            assert(reconciled_associations(next, scope) == reconciled_associations(done, scope).push(
                reconciled(a, scope),
            ));
            assert(associations_view(associations@) =~= reconciled_associations(next, scope)
                + original.skip(k + 1));
            if any_change(next, scope) && !gone {
                let j = choose|j: int| 0 <= j < next.len() && association_changes(#[trigger] next[j], scope);
                if j < k {
                    assert(next[j] == done[j]);
                }
            }
            if any_change(done, scope) {
                let j = choose|j: int| 0 <= j < done.len() && association_changes(#[trigger] done[j], scope);
                assert(next[j] == done[j]);
            }
            if gone {
                assert(association_changes(next[k], scope));
            }
            assert(group_titles(groups@) =~= group_titles(before_groups));
            assert forall|h: int| 0 <= h < start_groups.len() implies group_reconciled(
                #[trigger] groups@[h],
                start_groups[h],
                h,
                next,
                scope,
            ) by {
                assert(group_reconciled(before_groups[h], start_groups[h], h, done, scope));
                if needs_attention(done, h, scope) {
                    let j = choose|j: int|
                        0 <= j < done.len() && association_dropped(#[trigger] done[j], scope)
                            && group_of(scope, done[j].local_show_title) == h;
                    assert(next[j] == done[j]);
                }
                if needs_attention(next, h, scope) {
                    let j = choose|j: int|
                        0 <= j < next.len() && association_dropped(#[trigger] next[j], scope)
                            && group_of(scope, next[j].local_show_title) == h;
                    if j < k {
                        assert(next[j] == done[j]);
                    }
                }
            }
            k = k + 1;
        }
        index = index + 1;
    }
    proof {
        assert(k == original.len());
        assert(original.take(k) =~= original);
    }
    changed
}

/// The eight response fields of an association: TMDB id, IMDb id, name, original name, first
/// air date, poster path, overview (absent ones empty) and generation.
pub open spec fn association_fields(a: TvAssociationView) -> Seq<Seq<char>> {
    seq![
        decimal_string(a.tmdb_tv_id as nat),
        a.imdb_id,
        a.name,
        optional_text(a.original_name),
        optional_text(a.first_air_date),
        optional_text(a.poster_path),
        optional_text(a.overview),
        decimal_string(a.generation as nat),
    ]
}

/// `n` empty fields.
pub open spec fn empty_fields(n: nat) -> Seq<Seq<char>> {
    Seq::new(n, |i: int| Seq::<char>::empty())
}

/// The sixteen response fields of a scanned file: its path, relative path and size; then,
/// when it was recognised and its show has a group, the title, season, episode, group id,
/// the metadata state (`ready` with the association's fields, else `attention` or empty, and
/// eight empty fields); otherwise thirteen empty fields.
pub open spec fn file_row(file: TrustedTvFile, groups: Seq<TrustedTvShowGroup>) -> Seq<Seq<char>> {
    let head = seq![file.path@, file.relative_path@, decimal_string(file.size as nat)];
    match file.identity {
        Some(identity) => {
            let g = title_index_from(group_titles(groups), identity.show_title@, 0);
            if g < groups.len() {
                let group = groups[g];
                head + seq![
                    identity.show_title@,
                    decimal_string(identity.season as nat),
                    decimal_string(identity.episode as nat),
                    group.group_id@,
                ] + match group.association {
                    Some(a) => seq!["ready"@] + association_fields(a@),
                    None => seq![
                        if group.metadata_attention {
                            "attention"@
                        } else {
                            Seq::<char>::empty()
                        },
                    ] + empty_fields(8),
                }
            } else {
                head + empty_fields(13)
            }
        },
        None => head + empty_fields(13),
    }
}

/// The rows of all files, one after another.
pub open spec fn scan_rows(files: Seq<TrustedTvFile>, groups: Seq<TrustedTvShowGroup>) -> Seq<
    Seq<char>,
>
    decreases files.len(),
{
    if files.len() == 0 {
        Seq::empty()
    } else {
        scan_rows(files.drop_last(), groups) + file_row(files.last(), groups)
    }
}

/// The scan response: a format tag, the metadata status, the generation and the number of
/// files, then sixteen fields per file.
pub open spec fn scan_response(scan: CompletedTvScan) -> Seq<Seq<char>> {
    seq![
        "tv-library-metadata-v1"@,
        scan.metadata_status.text(),
        decimal_string(scan.generation as nat),
        decimal_string(scan.files@.len()),
    ] + scan_rows(scan.files@, scan.groups@)
}

pub(crate) fn owned(text: &str) -> (s: String)
    ensures
        s@ == text@,
{
    text.to_owned()
}

pub(crate) fn push_empty_fields(response: &mut Vec<String>, n: usize)
    ensures
        texts(final(response)@) == texts(old(response)@) + empty_fields(n as nat),
{
    let mut i: usize = 0;
    while i < n
        invariant
            i <= n,
            texts(response@) == texts(old(response)@) + empty_fields(i as nat),
        decreases n - i,
    {
        let ghost before = texts(response@);
        response.push(String::new());
        assert(texts(response@) =~= before.push(Seq::<char>::empty()));
        assert(empty_fields((i + 1) as nat) =~= empty_fields(i as nat).push(Seq::<char>::empty()));
        i = i + 1;
    }
}

/// The eight response fields of an association.
pub fn encode_tv_metadata_association(association: &TvMetadataAssociation) -> (fields: Vec<String>)
    ensures
        texts(fields@) == association_fields(association@),
{
    let mut fields: Vec<String> = Vec::new();
    fields.push(decimal_string_of(association.tmdb_tv_id));
    fields.push(association.imdb_id.clone());
    fields.push(association.name.clone());
    fields.push(owned(optional_str(&association.original_name)));
    fields.push(owned(optional_str(&association.first_air_date)));
    fields.push(owned(optional_str(&association.poster_path)));
    fields.push(owned(optional_str(&association.overview)));
    fields.push(decimal_string_of(association.generation));
    assert(texts(fields@) =~= association_fields(association@));
    fields
}

pub(crate) fn push_all(response: &mut Vec<String>, more: Vec<String>)
    ensures
        texts(final(response)@) == texts(old(response)@) + texts(more@),
{
    let mut i: usize = 0;
    while i < more.len()
        invariant
            i <= more@.len(),
            texts(response@) == texts(old(response)@) + texts(more@).take(i as int),
        decreases more@.len() - i,
    {
        let ghost before = texts(response@);
        response.push(more[i].clone());
        assert(texts(response@) =~= before.push(more@[i as int]@));
        assert(texts(more@).take(i + 1) =~= texts(more@).take(i as int).push(more@[i as int]@));
        i = i + 1;
    }
    assert(texts(more@).take(more@.len() as int) =~= texts(more@));
}

/// The sixteen response fields of a scanned file.
fn encode_file_row(response: &mut Vec<String>, file: &TrustedTvFile, groups: &Vec<TrustedTvShowGroup>)
    ensures
        texts(final(response)@) == texts(old(response)@) + file_row(*file, groups@),
{
    let ghost start = texts(response@);
    response.push(file.path.clone());
    response.push(file.relative_path.clone());
    response.push(decimal_string_of(file.size));
    let ghost head = seq![file.path@, file.relative_path@, decimal_string(file.size as nat)];
    assert(texts(response@) =~= start + head);
    match &file.identity {
        Some(identity) => {
            match find_group_index(groups, &identity.show_title) {
                Some(g) => {
                    let group = &groups[g];
                    response.push(identity.show_title.clone());
                    response.push(decimal_string_of(identity.season));
                    response.push(decimal_string_of(identity.episode));
                    response.push(group.group_id.clone());
                    let ghost middle = seq![
                        identity.show_title@,
                        decimal_string(identity.season as nat),
                        decimal_string(identity.episode as nat),
                        group.group_id@,
                    ];
                    assert(texts(response@) =~= start + head + middle);
                    match &group.association {
                        Some(a) => {
                            response.push(owned("ready"));
                            let ghost with_state = texts(response@);
                            assert(with_state =~= start + head + middle + seq!["ready"@]);
                            let fields = encode_tv_metadata_association(a);
                            push_all(response, fields);
                            assert(texts(response@) =~= start + (head + middle + (seq!["ready"@]
                                + association_fields(a@))));
                        },
                        None => {
                            if group.metadata_attention {
                                response.push(owned("attention"));
                            } else {
                                response.push(String::new());
                            }
                            let ghost state_text = if group.metadata_attention {
                                "attention"@
                            } else {
                                Seq::<char>::empty()
                            };
                            assert(texts(response@) =~= start + head + middle + seq![state_text]);
                            push_empty_fields(response, 8);
                            assert(texts(response@) =~= start + (head + middle + (seq![state_text]
                                + empty_fields(8))));
                        },
                    }
                },
                None => {
                    push_empty_fields(response, 13);
                    assert(texts(response@) =~= start + (head + empty_fields(13)));
                },
            }
        },
        None => {
            push_empty_fields(response, 13);
            assert(texts(response@) =~= start + (head + empty_fields(13)));
        },
    }
}

/// The scan response of a completed scan.
pub fn encode_tv_scan(scan: &CompletedTvScan) -> (response: Vec<String>)
    ensures
        texts(response@) == scan_response(*scan),
{
    let mut response: Vec<String> = Vec::new();
    response.push(owned("tv-library-metadata-v1"));
    response.push(owned(scan.metadata_status.as_str()));
    response.push(decimal_string_of(scan.generation));
    response.push(decimal_string_of(scan.files.len() as u64));
    let ghost header = texts(response@);
    let mut i: usize = 0;
    while i < scan.files.len()
        invariant
            i <= scan.files@.len(),
            texts(response@) == header + scan_rows(scan.files@.take(i as int), scan.groups@),
        decreases scan.files@.len() - i,
    {
        let ghost before = texts(response@);
        encode_file_row(&mut response, &scan.files[i], &scan.groups);
        assert(scan.files@.take(i + 1).drop_last() =~= scan.files@.take(i as int));
        assert(scan.files@.take(i + 1).last() == scan.files@[i as int]);
        assert(texts(response@) =~= header + scan_rows(scan.files@.take(i + 1), scan.groups@));
        i = i + 1;
    }
    assert(scan.files@.take(scan.files@.len() as int) =~= scan.files@);
    assert(header =~= seq![
        "tv-library-metadata-v1"@,
        scan.metadata_status.text(),
        decimal_string(scan.generation as nat),
        decimal_string(scan.files@.len()),
    ]);
    response
}

/// Whether `path` is the path of an anchor of an association of the folder that no scanned
/// file has: the paths whose absence a reconciliation asks the file system about.
pub open spec fn needs_probe(
    path: Seq<char>,
    folder: Seq<char>,
    folder_identity: Seq<char>,
    files: Seq<TrustedTvFile>,
    associations: Seq<TvAssociationView>,
) -> bool {
    &&& find_relative(files, path) is None
    &&& exists|j: int, k: int|
        0 <= j < associations.len() && associations[j].folder == folder
            && associations[j].folder_identity == folder_identity && 0 <= k
            < associations[j].anchors.len() && #[trigger] associations[j].anchors[k].relative_path
            == path
}

/// The relative paths whose absence a reconciliation needs to know.
pub fn tv_metadata_probe_paths(
    folder: &str,
    folder_identity: &str,
    files: &Vec<TrustedTvFile>,
    associations: &Vec<TvMetadataAssociation>,
) -> (paths: Vec<String>)
    ensures
        forall|p: Seq<char>|
            texts(paths@).contains(p) <==> needs_probe(
                p,
                folder@,
                folder_identity@,
                files@,
                associations_view(associations@),
            ),
{
    let ghost views = associations_view(associations@);
    let mut paths: Vec<String> = Vec::new();
    let mut j: usize = 0;
    while j < associations.len()
        invariant
            views == associations_view(associations@),
            j <= associations@.len(),
            forall|p: Seq<char>|
                texts(paths@).contains(p) <==> needs_probe(
                    p,
                    folder@,
                    folder_identity@,
                    files@,
                    views.take(j as int),
                ),
        decreases associations@.len() - j,
    {
        let a = &associations[j];
        assert(views[j as int] == a@);
        let ghost done = views.take(j as int);
        let ghost next = views.take(j + 1);
        assert forall|i: int| 0 <= i < j implies next[i] == done[i] by {}
        assert(next[j as int] == a@);
        if same_text(a.folder.as_str(), folder) && same_text(a.folder_identity.as_str(), folder_identity) {
            let mut k: usize = 0;
            while k < a.anchors.len()
                invariant
                    views == associations_view(associations@),
                    j < associations@.len(),
                    a == associations@[j as int],
                    next == views.take(j + 1),
                    done == views.take(j as int),
                    next[j as int] == a@,
                    forall|i: int| 0 <= i < j ==> next[i] == done[i],
                    a@.folder == folder@ && a@.folder_identity == folder_identity@,
                    k <= a.anchors@.len(),
                    forall|p: Seq<char>|
                        texts(paths@).contains(p) <==> (needs_probe(p, folder@, folder_identity@, files@, done)
                            || (find_relative(files@, p) is None && exists|l: int|
                            0 <= l < k && #[trigger] a@.anchors[l].relative_path == p)),
                decreases a.anchors@.len() - k,
            {
                let anchor = &a.anchors[k];
                assert(a@.anchors[k as int] == anchor@);
                let ghost before = texts(paths@);
                let missing = find_relative_index(files, &anchor.relative_path).is_none();
                if missing {
                    paths.push(anchor.relative_path.clone());
                    assert(texts(paths@) =~= before.push(anchor.relative_path@));
                }
                proof {
                    assert forall|p: Seq<char>| texts(paths@).contains(p) <==> (needs_probe(
                        p,
                        folder@,
                        folder_identity@,
                        files@,
                        done,
                    ) || (find_relative(files@, p) is None && exists|l: int|
                        0 <= l < k + 1 && #[trigger] a@.anchors[l].relative_path == p)) by {
                        let old_side = needs_probe(p, folder@, folder_identity@, files@, done) || (
                        find_relative(files@, p) is None && exists|l: int|
                            0 <= l < k && #[trigger] a@.anchors[l].relative_path == p);
                        assert(before.contains(p) == old_side);
                        if texts(paths@).contains(p) && !before.contains(p) {
                            assert(missing);
                            let i = choose|i: int| 0 <= i < texts(paths@).len() && texts(paths@)[i] == p;
                            assert(i == before.len());
                            assert(p == anchor.relative_path@);
                            assert(a@.anchors[k as int].relative_path == p);
                        }
                        if before.contains(p) {
                            let i = choose|i: int| 0 <= i < before.len() && before[i] == p;
                            assert(texts(paths@)[i] == p);
                        }
                        if find_relative(files@, p) is None && exists|l: int|
                            0 <= l < k + 1 && #[trigger] a@.anchors[l].relative_path == p {
                            let l = choose|l: int| 0 <= l < k + 1 && #[trigger] a@.anchors[l].relative_path == p;
                            if l == k {
                                assert(missing);
                                assert(texts(paths@)[before.len() as int] == p);
                            } else {
                                assert(old_side);
                            }
                        }
                        if old_side {
                            assert(before.contains(p));
                        }
                    }
                }
                k = k + 1;
            }
            proof {
                assert forall|p: Seq<char>| texts(paths@).contains(p) <==> needs_probe(
                    p,
                    folder@,
                    folder_identity@,
                    files@,
                    next,
                ) by {
                    if needs_probe(p, folder@, folder_identity@, files@, next) {
                        let (x, y) = choose|x: int, y: int|
                            0 <= x < next.len() && next[x].folder == folder@ && next[x].folder_identity
                                == folder_identity@ && 0 <= y < next[x].anchors.len()
                                && #[trigger] next[x].anchors[y].relative_path == p;
                        if x < j {
                            assert(next[x] == done[x]);
                            assert(needs_probe(p, folder@, folder_identity@, files@, done));
                        } else {
                            assert(a@.anchors[y].relative_path == p);
                        }
                    }
                    if needs_probe(p, folder@, folder_identity@, files@, done) {
                        let (x, y) = choose|x: int, y: int|
                            0 <= x < done.len() && done[x].folder == folder@ && done[x].folder_identity
                                == folder_identity@ && 0 <= y < done[x].anchors.len()
                                && #[trigger] done[x].anchors[y].relative_path == p;
                        assert(next[x] == done[x]);
                        assert(next[x].anchors[y].relative_path == p);
                    }
                    if find_relative(files@, p) is None && exists|l: int|
                        0 <= l < a@.anchors.len() && #[trigger] a@.anchors[l].relative_path == p {
                        let l = choose|l: int| 0 <= l < a@.anchors.len() && #[trigger] a@.anchors[l].relative_path == p;
                        assert(next[j as int].anchors[l].relative_path == p);
                    }
                }
            }
        } else {
            proof {
                assert forall|p: Seq<char>| texts(paths@).contains(p) <==> needs_probe(
                    p,
                    folder@,
                    folder_identity@,
                    files@,
                    next,
                ) by {
                    if needs_probe(p, folder@, folder_identity@, files@, next) {
                        let (x, y) = choose|x: int, y: int|
                            0 <= x < next.len() && next[x].folder == folder@ && next[x].folder_identity
                                == folder_identity@ && 0 <= y < next[x].anchors.len()
                                && #[trigger] next[x].anchors[y].relative_path == p;
                        assert(x < j);
                        assert(next[x] == done[x]);
                        assert(needs_probe(p, folder@, folder_identity@, files@, done));
                    }
                    if needs_probe(p, folder@, folder_identity@, files@, done) {
                        let (x, y) = choose|x: int, y: int|
                            0 <= x < done.len() && done[x].folder == folder@ && done[x].folder_identity
                                == folder_identity@ && 0 <= y < done[x].anchors.len()
                                && #[trigger] done[x].anchors[y].relative_path == p;
                        assert(next[x] == done[x]);
                        assert(next[x].anchors[y].relative_path == p);
                    }
                }
            }
        }
        j = j + 1;
    }
    assert(views.take(views.len() as int) =~= views);
    paths
}

} // verus!
