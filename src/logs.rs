//! Decisions of the on-disk log cleanup: which files are expired and which
//! to delete next when the directory is too large.

use vstd::prelude::*;

verus! {

/// Above this many bytes in all, the oldest files are deleted.
pub const MAX_TOTAL_LOG_BYTES: u64 = 1073741824;

/// Size-based deletion stops once the total is at most this many bytes.
pub const TARGET_LOG_BYTES: u64 = 536870912;

pub const SECONDS_PER_DAY: u64 = 86400;

/// A log file's size and modification time, in seconds since the epoch.
#[derive(Debug, Clone, Copy, PartialEq, Eq, Structural)]
pub struct LogFileInfo {
    pub size: u64,
    pub modified_secs: u64,
}

/// Files modified before the returned time are expired.
pub fn cleanup_cutoff(now_secs: u64, days_to_keep: u64) -> (r: u64)
    requires
        days_to_keep * SECONDS_PER_DAY <= u64::MAX,
    ensures
        r == if now_secs >= days_to_keep * SECONDS_PER_DAY { now_secs - days_to_keep * SECONDS_PER_DAY } else { 0 },
{
    let span = days_to_keep * SECONDS_PER_DAY;
    if now_secs >= span {
        now_secs - span
    } else {
        0
    }
}

pub fn is_expired(file: &LogFileInfo, cutoff: u64) -> (r: bool)
    ensures
        r == (file.modified_secs < cutoff),
{
    file.modified_secs < cutoff
}

pub open spec fn sizes_sum(files: Seq<LogFileInfo>) -> int
    decreases files.len(),
{
    if files.len() == 0 {
        0
    } else {
        sizes_sum(files.drop_last()) + files.last().size
    }
}

proof fn lemma_sizes_sum_monotone(files: Seq<LogFileInfo>, i: int)
    requires
        0 <= i <= files.len(),
    ensures
        0 <= sizes_sum(files.subrange(0, i)) <= sizes_sum(files),
    decreases files.len() - i,
{
    if i < files.len() {
        lemma_sizes_sum_monotone(files, i + 1);
        let s = files.subrange(0, i + 1);
        assert(s.drop_last() =~= files.subrange(0, i));
    } else {
        assert(files.subrange(0, i) =~= files);
    }
    lemma_sizes_sum_nonneg(files.subrange(0, i));
}

proof fn lemma_sizes_sum_nonneg(files: Seq<LogFileInfo>)
    ensures
        sizes_sum(files) >= 0,
    decreases files.len(),
{
    if files.len() > 0 {
        lemma_sizes_sum_nonneg(files.drop_last());
    }
}

/// The total size of the files.
pub fn total_size(files: &Vec<LogFileInfo>) -> (r: u64)
    requires
        sizes_sum(files@) <= u64::MAX,
    ensures
        r == sizes_sum(files@),
{
    let mut total: u64 = 0;
    let mut i: usize = 0;
    while i < files.len()
        invariant
            i <= files.len(),
            sizes_sum(files@) <= u64::MAX,
            total == sizes_sum(files@.subrange(0, i as int)),
        decreases files.len() - i,
    {
        proof {
            let s = files@.subrange(0, i + 1);
            assert(s.drop_last() =~= files@.subrange(0, i as int));
            lemma_sizes_sum_monotone(files@, i + 1);
        }
        total = total + files[i].size;
        i = i + 1;
    }
    assert(files@.subrange(0, files@.len() as int) =~= files@);
    total
}

pub fn needs_size_cleanup(total: u64) -> (r: bool)
    ensures
        r == (total > MAX_TOTAL_LOG_BYTES),
{
    total > MAX_TOTAL_LOG_BYTES
}

pub fn size_target_reached(total: u64) -> (r: bool)
    ensures
        r == (total <= TARGET_LOG_BYTES),
{
    total <= TARGET_LOG_BYTES
}

/// File `i` comes before file `j` in deletion order: older first, and of two
/// files of one age the earlier listed.
pub open spec fn deleted_before(files: Seq<LogFileInfo>, i: int, j: int) -> bool {
    files[i].modified_secs < files[j].modified_secs || (files[i].modified_secs == files[j].modified_secs && i <= j)
}

/// The oldest file not yet tried, if any.
pub fn next_size_victim(files: &Vec<LogFileInfo>, tried: &Vec<bool>) -> (r: Option<usize>)
    requires
        tried@.len() == files@.len(),
    ensures
        r is None <==> forall|j: int| 0 <= j < files@.len() ==> tried@[j],
        r matches Some(i) ==> i < files@.len() && !tried@[i as int]
            && forall|j: int| 0 <= j < files@.len() && !tried@[j] ==> deleted_before(files@, i as int, j),
{
    let mut best: Option<usize> = None;
    let mut k: usize = 0;
    while k < files.len()
        invariant
            k <= files.len(),
            tried@.len() == files@.len(),
            best is None ==> forall|j: int| 0 <= j < k ==> tried@[j],
            best matches Some(i) ==> i < k && !tried@[i as int]
                && forall|j: int| 0 <= j < k && !tried@[j] ==> deleted_before(files@, i as int, j),
        decreases files.len() - k,
    {
        if !tried[k] {
            match best {
                None => {
                    best = Some(k);
                },
                Some(b) => {
                    if files[k].modified_secs < files[b].modified_secs {
                        best = Some(k);
                    }
                },
            }
        }
        k = k + 1;
    }
    best
}

} // verus!
