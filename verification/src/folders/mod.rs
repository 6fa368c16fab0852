//! The folder tree of media files, and how it is built from a directory
//! listing.
pub mod crawlers;
pub mod folder_types;

use vstd::prelude::*;

pub use crawlers::{build_folder, folder_view, spec_build, DirListing, FolderView, ListedFile};
pub use folder_types::{Folder, Folders, ImageType, MediaType, ValidFileTypes, VideoType};

verus! {

/// How to walk the directory tree.
///
/// Converted from the CLI `--serial` flag via `From<bool>`:
/// `true` -> `Serial`, `false` -> `Parallel`.
#[derive(Debug, Clone, Copy, PartialEq, Eq, Structural)]
pub enum CrawlType {
    Serial,
    Parallel,
}

impl Default for CrawlType {
    fn default() -> (r: Self)
        ensures
            r == CrawlType::Parallel,
    {
        CrawlType::Parallel
    }
}

impl From<bool> for CrawlType {
    /// `true` = serial crawl (matches `--serial`), `false` = parallel (default).
    fn from(serial: bool) -> (r: Self) {
        if serial {
            CrawlType::Serial
        } else {
            CrawlType::Parallel
        }
    }
}

impl vstd::std_specs::convert::FromSpecImpl<bool> for CrawlType {
    open spec fn obeys_from_spec() -> bool {
        true
    }

    open spec fn from_spec(serial: bool) -> CrawlType {
        if serial {
            CrawlType::Serial
        } else {
            CrawlType::Parallel
        }
    }
}

/// The crawl result for a listed root directory: the folder built from the
/// root, as the single child.
pub fn crawl_dir(root: DirListing) -> (r: Folders)
    ensures
        r.children@.len() == 1,
        folder_view(r.children@[0]) == spec_build(root),
{
    let root_folder = build_folder(root);
    let mut folders = Folders::new();
    folders.add_folder(root_folder);
    folders
}

} // verus!
