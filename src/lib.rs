//! Inventory of a directory of backup snapshot files: which entries count as
//! backups, and the summary (latest backup, count, total size) built from them.

pub mod entry;
pub mod laws;
pub mod listing;
pub mod summary;

pub use entry::{is_backup_file_name, to_timestamp, EntryMetadata, ScannedEntry};
pub use listing::{backup_info_from_listing, DirectoryListing};
pub use summary::{summarize_entries, BackupInfo, LatestBackup};
