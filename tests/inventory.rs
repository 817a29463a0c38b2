use backup_inventory::{
    backup_info_from_listing, is_backup_file_name, summarize_entries, to_timestamp, BackupInfo,
    DirectoryListing, EntryMetadata, LatestBackup, ScannedEntry,
};

fn entry(name: &str, size: u64, ms: u128) -> ScannedEntry {
    ScannedEntry {
        name: name.to_string(),
        metadata: Some(EntryMetadata { size, modified_ms: Some(ms) }),
    }
}

fn summarize(entries: Vec<ScannedEntry>) -> BackupInfo {
    backup_info_from_listing(&DirectoryListing::Entries(entries)).unwrap()
}

#[test]
fn missing_directory_gives_empty_summary() {
    let info = backup_info_from_listing(&DirectoryListing::Missing).unwrap();
    assert_eq!(info.last_backup_time(), None);
    assert_eq!(info.last_backup_size(), None);
    assert_eq!(info.backup_count, 0);
    assert_eq!(info.total_size, 0);
}

#[test]
fn empty_directory_gives_empty_summary() {
    let info = summarize(vec![]);
    assert_eq!(info, BackupInfo::empty());
}

#[test]
fn single_backup_is_latest() {
    let info = summarize(vec![entry("backup_1.db", 4096, 1_700_000_000_123)]);
    assert_eq!(info.last_backup_time(), Some(1_700_000_000_123));
    assert_eq!(info.last_backup_size(), Some(4096));
    assert_eq!(info.backup_count, 1);
    assert_eq!(info.total_size, 4096);
}

#[test]
fn three_backups_increasing_times() {
    let info = summarize(vec![
        entry("a.db", 100, 1000),
        entry("b.db", 250, 2000),
        entry("c.db", 50, 3000),
    ]);
    assert_eq!(info.total_size, 400);
    assert_eq!(info.backup_count, 3);
    assert_eq!(info.last_backup_size(), Some(50));
    assert_eq!(info.last_backup_time(), Some(3000));
}

#[test]
fn latest_found_when_not_listed_last() {
    let info = summarize(vec![
        entry("a.db", 100, 1000),
        entry("b.db", 250, 5000),
        entry("c.db", 50, 3000),
    ]);
    assert_eq!(info.latest, Some(LatestBackup { time_ms: 5000, size: 250 }));
    assert_eq!(info.total_size, 400);
}

#[test]
fn equal_times_resolve_to_one_of_them() {
    let info = summarize(vec![entry("a.db", 10, 777), entry("b.db", 20, 777)]);
    let size = info.last_backup_size().unwrap();
    assert!(size == 10 || size == 20);
    assert_eq!(info.last_backup_time(), Some(777));
    assert_eq!(info.backup_count, 2);
    assert_eq!(info.total_size, 30);
    // For a fixed listing order the outcome is the same on every call.
    let again = summarize(vec![entry("a.db", 10, 777), entry("b.db", 20, 777)]);
    assert_eq!(info, again);
}

#[test]
fn non_backup_file_is_ignored() {
    let info = summarize(vec![
        entry("a.db", 100, 1000),
        entry("notes.txt", 9999, 9000),
        entry("db", 7, 9500),
        entry(".db", 8, 9600),
        entry("a.db.bak", 9, 9700),
    ]);
    assert_eq!(info.backup_count, 1);
    assert_eq!(info.total_size, 100);
    assert_eq!(info.latest, Some(LatestBackup { time_ms: 1000, size: 100 }));
}

#[test]
fn total_does_not_depend_on_order() {
    let a = summarize(vec![entry("a.db", 100, 1), entry("b.db", 250, 2), entry("c.db", 50, 3)]);
    let b = summarize(vec![entry("c.db", 50, 3), entry("a.db", 100, 1), entry("b.db", 250, 2)]);
    assert_eq!(a.total_size, b.total_size);
    assert_eq!(a.backup_count, b.backup_count);
    assert_eq!(a.latest, b.latest);
}

#[test]
fn unreadable_directory_is_a_failure() {
    let r = backup_info_from_listing(&DirectoryListing::Unreadable(
        "Permission denied (os error 13)".to_string(),
    ));
    assert_eq!(
        r,
        Err("Failed to read backup directory: Permission denied (os error 13)".to_string())
    );
}

#[test]
fn entry_without_metadata_is_skipped() {
    let info = summarize(vec![
        ScannedEntry { name: "broken.db".to_string(), metadata: None },
        entry("ok.db", 42, 10),
    ]);
    assert_eq!(info.backup_count, 1);
    assert_eq!(info.total_size, 42);
    assert_eq!(info.latest, Some(LatestBackup { time_ms: 10, size: 42 }));
}

#[test]
fn all_metadata_unreadable_gives_empty_summary() {
    let info = summarize(vec![
        ScannedEntry { name: "a.db".to_string(), metadata: None },
        ScannedEntry { name: "b.db".to_string(), metadata: None },
    ]);
    assert_eq!(info, BackupInfo::empty());
}

#[test]
fn unknown_time_counts_but_is_never_latest() {
    let info = summarize(vec![
        ScannedEntry {
            name: "old.db".to_string(),
            metadata: Some(EntryMetadata { size: 70, modified_ms: None }),
        },
        entry("new.db", 30, 500),
    ]);
    assert_eq!(info.backup_count, 2);
    assert_eq!(info.total_size, 100);
    assert_eq!(info.latest, Some(LatestBackup { time_ms: 500, size: 30 }));
}

#[test]
fn only_unknown_times_leave_latest_absent() {
    let info = summarize(vec![ScannedEntry {
        name: "x.db".to_string(),
        metadata: Some(EntryMetadata { size: 11, modified_ms: None }),
    }]);
    assert_eq!(info.backup_count, 1);
    assert_eq!(info.total_size, 11);
    assert_eq!(info.last_backup_time(), None);
    assert_eq!(info.last_backup_size(), None);
}

#[test]
fn time_beyond_i64_is_not_tracked() {
    let big: u128 = (i64::MAX as u128) + 1;
    let info = summarize(vec![entry("far.db", 5, big), entry("near.db", 6, 100)]);
    assert_eq!(info.backup_count, 2);
    assert_eq!(info.total_size, 11);
    assert_eq!(info.latest, Some(LatestBackup { time_ms: 100, size: 6 }));
}

#[test]
fn timestamp_conversion_bounds() {
    assert_eq!(to_timestamp(0), Some(0));
    assert_eq!(to_timestamp(1_700_000_000_000), Some(1_700_000_000_000));
    assert_eq!(to_timestamp(i64::MAX as u128), Some(i64::MAX));
    assert_eq!(to_timestamp(i64::MAX as u128 + 1), None);
}

#[test]
fn backup_name_rule() {
    assert!(is_backup_file_name("a.db"));
    assert!(is_backup_file_name("..db"));
    assert!(is_backup_file_name("2024-01-01.backup.db"));
    assert!(is_backup_file_name("ü.db"));
    assert!(!is_backup_file_name(".db"));
    assert!(!is_backup_file_name("db"));
    assert!(!is_backup_file_name("a.DB"));
    assert!(!is_backup_file_name("a.db."));
    assert!(!is_backup_file_name("a.dbx"));
    assert!(!is_backup_file_name("a_db"));
    assert!(!is_backup_file_name(""));
}

#[test]
fn largest_total_fits() {
    let info = summarize(vec![entry("a.db", u64::MAX - 1, 1), entry("b.db", 1, 2)]);
    assert_eq!(info.total_size, u64::MAX);
    assert_eq!(info.backup_count, 2);
}

#[test]
fn total_beyond_u64_is_a_failure() {
    let entries = vec![entry("a.db", u64::MAX, 1), entry("b.db", 1, 2)];
    assert_eq!(summarize_entries(&entries), None);
    let r = backup_info_from_listing(&DirectoryListing::Entries(entries));
    assert_eq!(r, Err("Total size of backup files exceeds 64 bits".to_string()));
}

#[test]
fn getters_follow_latest() {
    let info = BackupInfo {
        latest: Some(LatestBackup { time_ms: 9, size: 3 }),
        backup_count: 1,
        total_size: 3,
    };
    assert_eq!(info.last_backup_time(), Some(9));
    assert_eq!(info.last_backup_size(), Some(3));
    assert_eq!(BackupInfo::empty().last_backup_time(), None);
    assert_eq!(BackupInfo::empty().last_backup_size(), None);
}
