//! Properties that hold of every summary, stated over the spec functions that
//! the summarizing functions' contracts use.

use vstd::prelude::*;

use crate::entry::{is_backup_name, EntryMetadata, ScannedEntry};
use crate::summary::{
    count_of, counts, has_stamp, latest_of, lemma_latest_is, lemma_latest_none,
    record_of, size_of, stamp, summary_of, total_of, is_latest_at, BackupInfo, LatestBackup,
};

verus! {

/// No entry counts exactly when the count is zero; then the total is zero too.
pub proof fn lemma_count_zero(s: Seq<ScannedEntry>)
    ensures
        count_of(s) == 0 <==> forall|i: int| 0 <= i < s.len() ==> !#[trigger] counts(s[i]),
        count_of(s) == 0 ==> total_of(s) == 0,
    decreases s.len(),
{
    if s.len() > 0 {
        lemma_count_zero(s.drop_last());
        assert forall|i: int| 0 <= i < s.len() - 1 implies s.drop_last()[i] == s[i] by {}
    }
}

/// A summary with no backups has no latest backup and a total size of zero.
pub proof fn lemma_no_backups_empty_summary(s: Seq<ScannedEntry>)
    requires
        count_of(s) == 0,
    ensures
        latest_of(s) is None,
        total_of(s) == 0,
{
    lemma_count_zero(s);
    lemma_latest_none(s, s.len() as int);
    assert forall|j: int| 0 <= j < s.len() implies !#[trigger] has_stamp(s[j]) by {
        assert(!counts(s[j]));
    }
}

/// When every counted entry has a usable modification time, the count is zero
/// exactly when the latest backup (its time and its size) is absent.
pub proof fn lemma_count_zero_iff_no_latest(s: Seq<ScannedEntry>)
    requires
        forall|i: int| 0 <= i < s.len() && #[trigger] counts(s[i]) ==> has_stamp(s[i]),
    ensures
        count_of(s) == 0 <==> latest_of(s) is None,
{
    lemma_count_zero(s);
    lemma_latest_none(s, s.len() as int);
    if count_of(s) != 0 {
        let i = choose|i: int| 0 <= i < s.len() && #[trigger] counts(s[i]);
        assert(has_stamp(s[i]));
    } else {
        lemma_no_backups_empty_summary(s);
    }
}

/// Taking one entry out removes exactly its contribution to count and total.
pub proof fn lemma_remove_entry(s: Seq<ScannedEntry>, k: int)
    requires
        0 <= k < s.len(),
    ensures
        total_of(s) == total_of(s.remove(k)) + size_of(s[k]),
        count_of(s) == count_of(s.remove(k)) + if counts(s[k]) {
            1nat
        } else {
            0nat
        },
    decreases s.len(),
{
    if k == s.len() - 1 {
        assert(s.remove(k) =~= s.drop_last());
    } else {
        lemma_remove_entry(s.drop_last(), k);
        assert(s.remove(k).drop_last() =~= s.drop_last().remove(k));
        assert(s.remove(k).last() == s.last());
    }
}

/// Count and total size do not depend on the order in which the entries are
/// listed: any two listings with the same entries give the same sums.
pub proof fn lemma_sums_order_independent(s1: Seq<ScannedEntry>, s2: Seq<ScannedEntry>)
    requires
        s1.to_multiset() == s2.to_multiset(),
    ensures
        total_of(s1) == total_of(s2),
        count_of(s1) == count_of(s2),
    decreases s1.len(),
{
    broadcast use vstd::seq_lib::group_to_multiset_ensures;

    if s1.len() == 0 {
        assert(s2.to_multiset().len() == 0);
    } else {
        let x = s1.last();
        let rest = s1.drop_last();
        assert(rest.push(x) =~= s1);
        assert(s1.to_multiset().count(x) > 0);
        assert(s2.contains(x));
        let k = choose|k: int| 0 <= k < s2.len() && s2[k] == x;
        assert(s2.remove(k).to_multiset() =~= rest.to_multiset());
        lemma_sums_order_independent(rest, s2.remove(k));
        lemma_remove_entry(s2, k);
    }
}

/// An entry whose name is not a backup's adds to neither the count nor the
/// total size.
pub proof fn lemma_non_backup_ignored(s: Seq<ScannedEntry>, k: int)
    requires
        0 <= k < s.len(),
        !is_backup_name(s[k].name@),
    ensures
        total_of(s) == total_of(s.remove(k)),
        count_of(s) == count_of(s.remove(k)),
{
    lemma_remove_entry(s, k);
}

/// A single backup of size `size` modified at `ms` gives a summary whose
/// latest backup is that one, with a count of one and a total of `size`.
pub proof fn lemma_single_backup(e: ScannedEntry, size: u64, ms: u128)
    requires
        is_backup_name(e.name@),
        e.metadata == Some(EntryMetadata { size, modified_ms: Some(ms) }),
        ms <= i64::MAX,
    ensures
        total_of(seq![e]) <= u64::MAX,
        summary_of(seq![e]) == (BackupInfo {
            latest: Some(LatestBackup { time_ms: ms as i64, size }),
            backup_count: 1,
            total_size: size,
        }),
{
    let s = seq![e];
    assert(s.drop_last() =~= Seq::<ScannedEntry>::empty());
    assert(s.last() == e);
    assert(total_of(s.drop_last()) == 0);
    assert(count_of(s.drop_last()) == 0);
    assert(total_of(s) == size);
    assert(count_of(s) == 1);
    assert(is_latest_at(s, 1, 0));
    lemma_latest_is(s, 1, 0);
}

/// Of two backups with equal modification times, the one listed first is the
/// latest; either way the latest is one of the two.
pub proof fn lemma_equal_times_first_wins(a: ScannedEntry, b: ScannedEntry)
    requires
        has_stamp(a),
        has_stamp(b),
        stamp(a) == stamp(b),
    ensures
        latest_of(seq![a, b]) == Some(record_of(a)),
        latest_of(seq![a, b]) == Some(record_of(a)) || latest_of(seq![a, b]) == Some(
            record_of(b),
        ),
{
    let s = seq![a, b];
    assert(s[0] == a && s[1] == b);
    assert(is_latest_at(s, 2, 0));
    lemma_latest_is(s, 2, 0);
}

} // verus!
