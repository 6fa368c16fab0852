//! Building the folder tree from a directory listing: media files are kept,
//! other files are skipped, and sub-folders without any media are dropped.
use vstd::prelude::*;

use super::folder_types::{spec_media_type, Folder, MediaType, ValidFileTypes};

verus! {

/// A file as listed in a directory: its path, and its extension when it has
/// one that is valid UTF-8.
pub struct ListedFile {
    pub path: std::path::PathBuf,
    pub extension: Option<String>,
}

/// A directory as listed: its path, its files and its sub-directories.
pub struct DirListing {
    pub path: std::path::PathBuf,
    pub files: Vec<ListedFile>,
    pub dirs: Vec<DirListing>,
}

/// A folder tree by its contents.
pub struct FolderView {
    pub path: std::path::PathBuf,
    pub files: Seq<ValidFileTypes>,
    pub children: Seq<FolderView>,
}

/// The contents of a folder tree.
pub open spec fn folder_view(f: Folder) -> FolderView
    decreases f,
{
    FolderView {
        path: f.path,
        files: f.children_files@,
        children: Seq::new(
            f.children@.len(),
            |i: int|
                if 0 <= i < f.children@.len() {
                    folder_view(f.children@[i])
                } else {
                    arbitrary()
                },
        ),
    }
}

/// The media type of a listed file, if its extension names one.
pub open spec fn listed_media(f: ListedFile) -> Option<MediaType> {
    match f.extension {
        Some(e) => spec_media_type(e@),
        None => None,
    }
}

/// The listed files that are media files, in order, with their types.
pub open spec fn media_files(files: Seq<ListedFile>) -> Seq<ValidFileTypes>
    decreases files.len(),
{
    if files.len() == 0 {
        seq![]
    } else {
        let prev = media_files(files.drop_last());
        match listed_media(files.last()) {
            Some(m) => prev.push(ValidFileTypes { path: files.last().path, type_data: m }),
            None => prev,
        }
    }
}

/// A folder that holds a file or a sub-folder.
pub open spec fn is_nonempty(v: FolderView) -> bool {
    v.files.len() > 0 || v.children.len() > 0
}

/// The folder built from a listing: its media files, and the non-empty
/// folders built from its sub-directories, in order.
pub open spec fn spec_build(d: DirListing) -> FolderView
    decreases d,
{
    FolderView {
        path: d.path,
        files: media_files(d.files@),
        children: kept_children(d.dirs@, d.dirs@.len() as int),
    }
}

/// The non-empty folders built from the first `k` directories of `s`.
pub open spec fn kept_children(s: Seq<DirListing>, k: int) -> Seq<FolderView>
    decreases s, k,
{
    if k <= 0 || k > s.len() {
        seq![]
    } else {
        let prev = kept_children(s, k - 1);
        let b = spec_build(s[k - 1]);
        if is_nonempty(b) {
            prev.push(b)
        } else {
            prev
        }
    }
}

fn media_file(f: ListedFile) -> (r: Option<ValidFileTypes>)
    ensures
        match listed_media(f) {
            Some(m) => r matches Some(v) && v == (ValidFileTypes { path: f.path, type_data: m }),
            None => r is None,
        },
{
    match f.extension {
        Some(ext) => match MediaType::from_extension(ext.as_str()) {
            Ok(media_type) => Some(ValidFileTypes::new(f.path, media_type)),
            Err(_) => None,
        },
        None => None,
    }
}

/// Builds the folder tree of a directory listing (see `spec_build`).
pub fn build_folder(listing: DirListing) -> (f: Folder)
    ensures
        folder_view(f) == spec_build(listing),
    decreases listing,
{
    let ghost orig = listing;
    let DirListing { path, mut files, mut dirs } = listing;
    let mut folder = Folder::new(path);
    let ghost all_files = files@;
    let ghost all_dirs = dirs@;
    let mut i: usize = 0;
    let n = files.len();
    assert(all_files.take(0) =~= Seq::<ListedFile>::empty());
    while i < n
        invariant
            n == all_files.len(),
            i <= n,
            files@ == all_files.subrange(i as int, n as int),
            folder.children@.len() == 0,
            folder.path == orig.path,
            folder.children_files@ == media_files(all_files.take(i as int)),
        decreases n - i,
    {
        let f = files.remove(0);
        assert(f == all_files[i as int]);
        assert(all_files.take(i + 1).drop_last() =~= all_files.take(i as int));
        match media_file(f) {
            Some(v) => folder.add_file(v),
            None => {},
        }
        assert(files@ =~= all_files.subrange(i + 1, n as int));
        i = i + 1;
    }
    assert(all_files.take(n as int) =~= all_files);
    let m = dirs.len();
    let mut j: usize = 0;
    while j < m
        invariant
            m == all_dirs.len(),
            orig == listing,
            all_dirs == orig.dirs@,
            j <= m,
            dirs@ == all_dirs.subrange(j as int, m as int),
            folder.path == orig.path,
            folder.children_files@ == media_files(orig.files@),
            folder_view(folder).children == kept_children(all_dirs, j as int),
        decreases m - j,
    {
        let d = dirs.remove(0);
        assert(d == all_dirs[j as int]);
        assert(decreases_to!(listing => d)) by {
            assert(decreases_to!(orig => orig.dirs));
            assert(decreases_to!(orig.dirs => orig.dirs[j as int]));
        }
        let child = build_folder(d);
        let ghost before = folder;
        if child.children.len() > 0 || child.children_files.len() > 0 {
            folder.add_folder(child);
            assert(folder_view(folder).children =~= folder_view(before).children.push(
                folder_view(child),
            ));
        }
        assert(dirs@ =~= all_dirs.subrange(j + 1, m as int));
        j = j + 1;
    }
    assert(folder_view(folder) =~= spec_build(orig));
    folder
}

/// Every folder below `v`, at any depth, holds a file or a sub-folder.
pub open spec fn no_empty_folders(v: FolderView) -> bool
    decreases v,
{
    forall|i: int|
        0 <= i < v.children.len() ==> is_nonempty(#[trigger] v.children[i]) && no_empty_folders(
            v.children[i],
        )
}

/// The number of files in a folder tree.
pub open spec fn count_files(v: FolderView) -> nat
    decreases v,
{
    v.files.len() + count_files_seq(v.children, v.children.len() as int)
}

/// The number of files in the first `k` trees of `s`.
pub open spec fn count_files_seq(s: Seq<FolderView>, k: int) -> nat
    decreases s, k,
{
    if k <= 0 || k > s.len() {
        0
    } else {
        count_files_seq(s, k - 1) + count_files(s[k - 1])
    }
}

/// The number of media files in a listing, at any depth.
pub open spec fn count_media(d: DirListing) -> nat
    decreases d,
{
    media_files(d.files@).len() + count_media_seq(d.dirs@, d.dirs@.len() as int)
}

/// The number of media files in the first `k` listings of `s`.
pub open spec fn count_media_seq(s: Seq<DirListing>, k: int) -> nat
    decreases s, k,
{
    if k <= 0 || k > s.len() {
        0
    } else {
        count_media_seq(s, k - 1) + count_media(s[k - 1])
    }
}

proof fn lemma_count_files_seq_push(s: Seq<FolderView>, v: FolderView)
    ensures
        count_files_seq(s.push(v), s.len() + 1int) == count_files_seq(s, s.len() as int) + count_files(
            v,
        ),
{
    lemma_count_files_seq_prefix(s.push(v), s, s.len() as int);
}

proof fn lemma_count_files_seq_prefix(s: Seq<FolderView>, t: Seq<FolderView>, k: int)
    requires
        0 <= k <= t.len(),
        k <= s.len(),
        forall|i: int| 0 <= i < k ==> s[i] == t[i],
    ensures
        count_files_seq(s, k) == count_files_seq(t, k),
    decreases k,
{
    if k > 0 {
        lemma_count_files_seq_prefix(s, t, k - 1);
    }
}

/// The files of a built tree are the media files of the listing: the crawl
/// keeps every media file, at every depth, and no other file.
pub proof fn lemma_build_counts_media(d: DirListing)
    ensures
        count_files(spec_build(d)) == count_media(d),
    decreases d, 0int,
{
    lemma_kept_children_count(d.dirs@, d.dirs@.len() as int);
}

proof fn lemma_kept_children_count(s: Seq<DirListing>, k: int)
    requires
        0 <= k <= s.len(),
    ensures
        count_files_seq(kept_children(s, k), kept_children(s, k).len() as int) == count_media_seq(
            s,
            k,
        ),
    decreases s, k,
{
    if k > 0 {
        lemma_kept_children_count(s, k - 1);
        let prev = kept_children(s, k - 1);
        let b = spec_build(s[k - 1]);
        lemma_build_counts_media(s[k - 1]);
        if is_nonempty(b) {
            lemma_count_files_seq_push(prev, b);
        } else {
            assert(count_files_seq(b.children, b.children.len() as int) == 0);
        }
    }
}

/// A built tree holds no empty folder below its root: sub-directories
/// without any media file, at any depth, are dropped.
pub proof fn lemma_build_no_empty_folders(d: DirListing)
    ensures
        no_empty_folders(spec_build(d)),
    decreases d, 0int,
{
    let v = spec_build(d);
    let kept = kept_children(d.dirs@, d.dirs@.len() as int);
    lemma_kept_children_wf(d.dirs@, d.dirs@.len() as int);
    assert(v.children == kept);
    assert forall|i: int| 0 <= i < v.children.len() implies is_nonempty(
        #[trigger] v.children[i],
    ) && no_empty_folders(v.children[i]) by {
        assert(v.children[i] == kept[i]);
    }
}

proof fn lemma_kept_children_wf(s: Seq<DirListing>, k: int)
    requires
        0 <= k <= s.len(),
    ensures
        forall|i: int|
            0 <= i < kept_children(s, k).len() ==> is_nonempty(#[trigger] kept_children(s, k)[i])
                && no_empty_folders(kept_children(s, k)[i]),
    decreases s, k,
{
    if k > 0 {
        lemma_kept_children_wf(s, k - 1);
        lemma_build_no_empty_folders(s[k - 1]);
        let prev = kept_children(s, k - 1);
        let b = spec_build(s[k - 1]);
        if is_nonempty(b) {
            assert forall|i: int|
                0 <= i < kept_children(s, k).len() implies is_nonempty(
                #[trigger] kept_children(s, k)[i],
            ) && no_empty_folders(kept_children(s, k)[i]) by {
                if i < prev.len() {
                    assert(kept_children(s, k)[i] == prev[i]);
                }
            }
        }
    }
}

} // verus!
