//! One directory entry as the scanner saw it, and the rule that decides
//! whether it is a backup snapshot file.

use vstd::prelude::*;

verus! {

/// True when `name` is a file name whose extension is exactly `db`.
///
/// The extension is what follows the last `.`; a name whose only `.` is its
/// first character has none (`.db` is a hidden file without extension).
/// Since `db` holds no `.`, this is: the name ends in `.db` and something
/// stands before that dot.
pub open spec fn is_backup_name(name: Seq<char>) -> bool {
    &&& name.len() >= 4
    &&& name[name.len() - 3] == '.'
    &&& name[name.len() - 2] == 'd'
    &&& name[name.len() - 1] == 'b'
}

/// Size and modification time of an entry, as far as they could be read.
#[derive(Clone, Copy, Debug, PartialEq, Eq)]
pub struct EntryMetadata {
    /// Length of the file in bytes.
    pub size: u64,
    /// Milliseconds since the Unix epoch of the last modification, or `None`
    /// when the time could not be read or lies before the epoch.
    pub modified_ms: Option<u128>,
}

/// A directory entry: its file name and, when they could be read, its metadata.
#[derive(Clone, Debug, PartialEq, Eq)]
pub struct ScannedEntry {
    /// The entry's file name (last path component).
    pub name: String,
    /// `None` when the metadata of the entry could not be read.
    pub metadata: Option<EntryMetadata>,
}

/// Decides whether a file name marks a backup snapshot file.
pub fn is_backup_file_name(name: &str) -> (r: bool)
    ensures
        r == is_backup_name(name@),
{
    let n = name.unicode_len();
    if n < 4 {
        return false;
    }
    name.get_char(n - 3) == '.' && name.get_char(n - 2) == 'd' && name.get_char(n - 1) == 'b'
}

/// Converts milliseconds since the epoch into the signed timestamp a summary
/// carries; a value beyond the range of `i64` has no such representation.
pub fn to_timestamp(ms: u128) -> (r: Option<i64>)
    ensures
        r == (if ms <= i64::MAX {
            Some(ms as i64)
        } else {
            None
        }),
{
    if ms <= i64::MAX as u128 {
        Some(ms as i64)
    } else {
        None
    }
}

} // verus!
