//! What the scan of the backups directory produced, and the policy that turns
//! it into a summary or a failure.

use vstd::prelude::*;

use crate::entry::ScannedEntry;
use crate::summary::{summarize_entries, summary_of, total_of, BackupInfo};

verus! {

/// The outcome of listing the backups directory.
#[derive(Clone, Debug, PartialEq, Eq)]
pub enum DirectoryListing {
    /// The directory does not exist.
    Missing,
    /// The directory exists but could not be read; the text describes why.
    Unreadable(String),
    /// The entries that the listing yielded, in the order it yielded them.
    Entries(Vec<ScannedEntry>),
}

/// Builds the summary from a directory listing.
///
/// A missing directory holds no backups; an unreadable one is a failure whose
/// message starts with `Failed to read backup directory: `. A total size
/// beyond `u64` is a failure as well.
pub fn backup_info_from_listing(listing: &DirectoryListing) -> (r: Result<BackupInfo, String>)
    ensures
        match listing {
            DirectoryListing::Missing => r == Ok::<BackupInfo, String>(
                BackupInfo { latest: None, backup_count: 0, total_size: 0 },
            ),
            DirectoryListing::Unreadable(why) => r is Err && r->Err_0@
                == "Failed to read backup directory: "@ + why@,
            DirectoryListing::Entries(v) => if total_of(v@) <= u64::MAX {
                r == Ok::<BackupInfo, String>(summary_of(v@))
            } else {
                r is Err && r->Err_0@ == "Total size of backup files exceeds 64 bits"@
            },
        },
{
    match listing {
        DirectoryListing::Missing => Ok(BackupInfo::empty()),
        DirectoryListing::Unreadable(why) => {
            let msg = String::from_str("Failed to read backup directory: ");
            Err(msg.concat(why.as_str()))
        },
        DirectoryListing::Entries(v) => match summarize_entries(v) {
            Some(info) => Ok(info),
            None => Err(String::from_str("Total size of backup files exceeds 64 bits")),
        },
    }
}

} // verus!
