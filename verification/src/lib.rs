//! Organize media files by prefixing filenames with media creation dates.
pub mod cli;
pub mod folders;
pub mod media;
pub mod prelude;
pub mod processing;
pub mod separators;
pub mod seperators;
pub mod stamp_converter;
pub mod stamp_laws;
pub mod text;

pub use folders::{crawl_dir, CrawlType, Folder, Folders};
pub use prelude::{AM_PM_SEP, DATE_SEP, DATE_TIME_SEP, EPOCH_STAMP, TIME_SEP, W};
pub use processing::{rename_from_stamp, ConvertOutcome};
pub use separators::Separators;
pub use stamp_converter::flip_date_format;
