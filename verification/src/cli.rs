//! The options of one invocation.
use vstd::prelude::*;

use crate::folders::CrawlType;

verus! {

/// The options of one invocation, as parsed from the command line.
pub struct Cli {
    /// Folder to organize (default: ./data in debug, <exe_dir>/data in release)
    pub folder: Option<std::path::PathBuf>,
    /// Print what would be renamed without touching the filesystem
    pub dry_run: bool,
    /// Force serial directory crawl (default is parallel).
    pub serial: bool,
    /// Print version and exit
    pub version: bool,
}

impl Cli {
    /// Crawl strategy for this invocation (`--serial` -> `CrawlType::Serial`).
    pub fn crawl_type(&self) -> (r: CrawlType)
        ensures
            r == (if self.serial {
                CrawlType::Serial
            } else {
                CrawlType::Parallel
            }),
    {
        CrawlType::from(self.serial)
    }
}

} // verus!
