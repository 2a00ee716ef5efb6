//! Aggregate statistics: total bytes on disk and record count.
//!
//! The byte total is the sum of the sizes of every file under the storage
//! root, orphaned files included, so it is computed from a directory
//! listing's sizes, independent of the catalog's content.

use vstd::prelude::*;

use crate::catalog::StorageMetadata;

verus! {

/// What the statistics query reports.
pub struct StorageStats {
    /// Total size in bytes of every file under the storage root.
    pub usage_bytes: u64,
    /// How many records the catalog holds.
    pub track_count: usize,
}

/// The sum of a sequence of sizes.
pub open spec fn sum_of(sizes: Seq<u64>) -> int
    decreases sizes.len(),
{
    if sizes.len() == 0 {
        0
    } else {
        sum_of(sizes.drop_last()) + sizes.last()
    }
}

/// A prefix never sums to more than the whole: sizes are non-negative.
proof fn lemma_sum_prefix(sizes: Seq<u64>, i: int)
    requires
        0 <= i <= sizes.len(),
    ensures
        sum_of(sizes.take(i)) <= sum_of(sizes),
    decreases sizes.len() - i,
{
    if i == sizes.len() {
        assert(sizes.take(i) =~= sizes);
    } else {
        lemma_sum_prefix(sizes, i + 1);
        assert(sizes.take(i + 1).drop_last() =~= sizes.take(i));
        assert(sizes.take(i + 1).last() == sizes[i]);
    }
}

/// Sums the sizes of the listed files.
pub fn sum_sizes(sizes: &Vec<u64>) -> (r: u64)
    requires
        sum_of(sizes@) <= u64::MAX,
    ensures
        r == sum_of(sizes@),
{
    let n = sizes.len();
    let mut total: u64 = 0;
    proof {
        assert(sizes@.take(0) =~= Seq::<u64>::empty());
    }
    let mut i: usize = 0;
    while i < n
        invariant
            n == sizes@.len(),
            i <= n,
            sum_of(sizes@) <= u64::MAX,
            total == sum_of(sizes@.take(i as int)),
        decreases n - i,
    {
        proof {
            assert(sizes@.take(i as int + 1).drop_last() =~= sizes@.take(i as int));
            assert(sizes@.take(i as int + 1).last() == sizes@[i as int]);
            lemma_sum_prefix(sizes@, i as int + 1);
        }
        total = total + sizes[i];
        i += 1;
    }
    proof {
        assert(sizes@.take(n as int) =~= sizes@);
    }
    total
}

/// The statistics of a catalog given the sizes of the files on disk: the
/// byte total is exactly their sum, the record count exactly the catalog's.
pub fn compute_stats(sizes: &Vec<u64>, meta: &StorageMetadata) -> (r: StorageStats)
    requires
        sum_of(sizes@) <= u64::MAX,
    ensures
        r.usage_bytes == sum_of(sizes@),
        r.track_count == meta.entries().len(),
{
    StorageStats { usage_bytes: sum_sizes(sizes), track_count: meta.track_count() }
}

} // verus!
