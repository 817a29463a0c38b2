//! The inventory summary and the single pass that builds it.

use vstd::prelude::*;

use crate::entry::{is_backup_file_name, is_backup_name, to_timestamp, EntryMetadata, ScannedEntry};

verus! {

/// The most recent backup: its modification time and its size.
#[derive(Clone, Copy, Debug, PartialEq, Eq)]
pub struct LatestBackup {
    /// Milliseconds since the Unix epoch.
    pub time_ms: i64,
    /// Size in bytes.
    pub size: u64,
}

/// Summary of the backups found in a directory.
///
/// The time and the size of the latest backup are held together, so that one
/// is never present without the other.
#[derive(Clone, Copy, Debug, PartialEq, Eq)]
pub struct BackupInfo {
    /// The backup with the greatest modification time, if any has one.
    pub latest: Option<LatestBackup>,
    /// Number of backup files whose metadata could be read.
    pub backup_count: usize,
    /// Sum of the sizes of those files, in bytes.
    pub total_size: u64,
}

/// An entry counts toward the inventory when its name marks a backup and its
/// metadata could be read.
pub open spec fn counts(e: ScannedEntry) -> bool {
    is_backup_name(e.name@) && e.metadata is Some
}

/// What an entry adds to the total size.
pub open spec fn size_of(e: ScannedEntry) -> nat {
    if counts(e) {
        e.metadata->0.size as nat
    } else {
        0
    }
}

/// A counted entry takes part in the search for the latest backup when its
/// modification time is known and fits a signed 64-bit timestamp.
pub open spec fn has_stamp(e: ScannedEntry) -> bool {
    &&& counts(e)
    &&& e.metadata->0.modified_ms is Some
    &&& e.metadata->0.modified_ms->0 <= i64::MAX
}

/// The modification time of an entry, in milliseconds since the epoch.
pub open spec fn stamp(e: ScannedEntry) -> int {
    e.metadata->0.modified_ms->0 as int
}

/// The latest-backup record that an entry with a stamp gives.
pub open spec fn record_of(e: ScannedEntry) -> LatestBackup {
    LatestBackup { time_ms: stamp(e) as i64, size: e.metadata->0.size }
}

/// Number of counted entries.
pub open spec fn count_of(s: Seq<ScannedEntry>) -> nat
    decreases s.len(),
{
    if s.len() == 0 {
        0
    } else {
        count_of(s.drop_last()) + if counts(s.last()) {
            1nat
        } else {
            0nat
        }
    }
}

/// Sum of the sizes of the counted entries.
pub open spec fn total_of(s: Seq<ScannedEntry>) -> nat
    decreases s.len(),
{
    if s.len() == 0 {
        0
    } else {
        total_of(s.drop_last()) + size_of(s.last())
    }
}

/// Among the first `n` entries, `s[i]` has a stamp, no stamp is greater than
/// its own, and every earlier entry with a stamp has a smaller one: on equal
/// stamps the entry met first is the latest.
pub open spec fn is_latest_at(s: Seq<ScannedEntry>, n: int, i: int) -> bool {
    &&& 0 <= i < n <= s.len()
    &&& has_stamp(s[i])
    &&& forall|j: int| 0 <= j < n && #[trigger] has_stamp(s[j]) ==> stamp(s[j]) <= stamp(s[i])
    &&& forall|j: int| 0 <= j < i && #[trigger] has_stamp(s[j]) ==> stamp(s[j]) < stamp(s[i])
}

/// The latest backup among the first `n` entries, if one of them has a stamp.
pub open spec fn latest_in(s: Seq<ScannedEntry>, n: int) -> Option<LatestBackup> {
    if exists|i: int| #[trigger] is_latest_at(s, n, i) {
        Some(record_of(s[choose|i: int| #[trigger] is_latest_at(s, n, i)]))
    } else {
        None
    }
}

/// The latest backup among all entries.
pub open spec fn latest_of(s: Seq<ScannedEntry>) -> Option<LatestBackup> {
    latest_in(s, s.len() as int)
}

/// The summary of a sequence of entries whose total size fits in `u64`.
pub open spec fn summary_of(s: Seq<ScannedEntry>) -> BackupInfo {
    BackupInfo {
        latest: latest_of(s),
        backup_count: count_of(s) as usize,
        total_size: total_of(s) as u64,
    }
}

/// One step of the scan for the latest backup: `e` replaces `l` only when
/// its stamp is strictly greater.
pub open spec fn next_latest(l: Option<LatestBackup>, e: ScannedEntry) -> Option<LatestBackup> {
    if has_stamp(e) && (l is None || l->0.time_ms < stamp(e)) {
        Some(record_of(e))
    } else {
        l
    }
}

pub proof fn lemma_latest_unique(s: Seq<ScannedEntry>, n: int, i: int, k: int)
    requires
        is_latest_at(s, n, i),
        is_latest_at(s, n, k),
    ensures
        i == k,
{
    if i < k {
        assert(stamp(s[i]) < stamp(s[k]));
        assert(stamp(s[i]) >= stamp(s[k]));
    } else if k < i {
        assert(stamp(s[k]) < stamp(s[i]));
        assert(stamp(s[k]) >= stamp(s[i]));
    }
}

pub proof fn lemma_latest_is(s: Seq<ScannedEntry>, n: int, i: int)
    requires
        is_latest_at(s, n, i),
    ensures
        latest_in(s, n) == Some(record_of(s[i])),
{
    let k = choose|k: int| #[trigger] is_latest_at(s, n, k);
    lemma_latest_unique(s, n, i, k);
}

/// There is no latest backup among the first `n` entries exactly when none of
/// them has a stamp.
pub proof fn lemma_latest_none(s: Seq<ScannedEntry>, n: int)
    requires
        0 <= n <= s.len(),
    ensures
        latest_in(s, n) is None <==> forall|j: int| 0 <= j < n ==> !#[trigger] has_stamp(s[j]),
    decreases n,
{
    if n > 0 {
        lemma_latest_none(s, n - 1);
        if exists|j: int| 0 <= j < n - 1 && #[trigger] has_stamp(s[j]) {
            let i = choose|i: int| #[trigger] is_latest_at(s, n - 1, i);
            if has_stamp(s[n - 1]) && stamp(s[i]) < stamp(s[n - 1]) {
                assert(is_latest_at(s, n, n - 1));
            } else {
                assert(is_latest_at(s, n, i));
            }
        } else if has_stamp(s[n - 1]) {
            assert(is_latest_at(s, n, n - 1));
        }
    }
}

/// The latest backup among `n + 1` entries follows from the one among `n`.
proof fn lemma_latest_step(s: Seq<ScannedEntry>, n: int)
    requires
        0 <= n < s.len(),
    ensures
        latest_in(s, n + 1) == next_latest(latest_in(s, n), s[n]),
{
    lemma_latest_none(s, n);
    lemma_latest_none(s, n + 1);
    if latest_in(s, n) is None {
        if has_stamp(s[n]) {
            assert(is_latest_at(s, n + 1, n));
            lemma_latest_is(s, n + 1, n);
        }
    } else {
        let i = choose|i: int| #[trigger] is_latest_at(s, n, i);
        if has_stamp(s[n]) && stamp(s[i]) < stamp(s[n]) {
            assert(is_latest_at(s, n + 1, n));
            lemma_latest_is(s, n + 1, n);
        } else {
            assert(is_latest_at(s, n + 1, i));
            lemma_latest_is(s, n + 1, i);
        }
    }
}

proof fn lemma_total_prefix(s: Seq<ScannedEntry>, n: int)
    requires
        0 <= n <= s.len(),
    ensures
        total_of(s.take(n)) <= total_of(s),
    decreases s.len(),
{
    if n < s.len() {
        lemma_total_prefix(s.drop_last(), n);
        assert(s.drop_last().take(n) =~= s.take(n));
    } else {
        assert(s.take(n) =~= s);
    }
}

impl BackupInfo {
    /// The summary of a directory that holds no backups.
    pub fn empty() -> (r: BackupInfo)
        ensures
            r == (BackupInfo { latest: None, backup_count: 0, total_size: 0 }),
    {
        BackupInfo { latest: None, backup_count: 0, total_size: 0 }
    }

    /// Modification time of the latest backup, in milliseconds since the epoch.
    pub fn last_backup_time(&self) -> (r: Option<i64>)
        ensures
            r == (match self.latest {
                Some(l) => Some(l.time_ms),
                None => None,
            }),
    {
        match self.latest {
            Some(l) => Some(l.time_ms),
            None => None,
        }
    }

    /// Size in bytes of the latest backup.
    pub fn last_backup_size(&self) -> (r: Option<u64>)
        ensures
            r == (match self.latest {
                Some(l) => Some(l.size),
                None => None,
            }),
    {
        match self.latest {
            Some(l) => Some(l.size),
            None => None,
        }
    }
}

/// Walks the entries once: counts the backups, sums their sizes and keeps the
/// one with the strictly greatest stamp (on equal stamps the first one seen).
///
/// Returns `None` exactly when the total size does not fit in `u64`.
pub fn summarize_entries(entries: &Vec<ScannedEntry>) -> (r: Option<BackupInfo>)
    ensures
        r == (if total_of(entries@) <= u64::MAX {
            Some(summary_of(entries@))
        } else {
            None
        }),
{
    let ghost s = entries@;
    let mut count: usize = 0;
    let mut total: u64 = 0;
    let mut latest: Option<LatestBackup> = None;
    let mut k: usize = 0;
    while k < entries.len()
        invariant
            s == entries@,
            k <= s.len(),
            count <= k,
            count == count_of(s.take(k as int)),
            total == total_of(s.take(k as int)),
            latest == latest_in(s, k as int),
        decreases s.len() - k,
    {
        let e = &entries[k];
        proof {
            assert(s.take(k + 1).drop_last() =~= s.take(k as int));
            lemma_latest_step(s, k as int);
        }
        if is_backup_file_name(e.name.as_str()) {
            if let Some(md) = e.metadata {
                if md.size > u64::MAX - total {
                    proof {
                        lemma_total_prefix(s, k + 1);
                    }
                    return None;
                }
                total = total + md.size;
                count = count + 1;
                if let Some(ms) = md.modified_ms {
                    if let Some(t) = to_timestamp(ms) {
                        let newer = match latest {
                            None => true,
                            Some(l) => l.time_ms < t,
                        };
                        if newer {
                            latest = Some(LatestBackup { time_ms: t, size: md.size });
                        }
                    }
                }
            }
        }
        k = k + 1;
    }
    proof {
        assert(s.take(k as int) =~= s);
    }
    Some(BackupInfo { latest, backup_count: count, total_size: total })
}

} // verus!
