//! Layout-level pieces shared by the storage bridges: document metrics summed
//! over trees, and the bridge that exposes a layout backend.
use vstd::prelude::*;

verus! {

/// Document metrics of one layout backend, summed over its trees.
#[derive(Clone, Copy, Debug, Default, PartialEq, Eq, Structural)]
pub struct AutomergeSyncMetrics {
    pub document_count: usize,
    pub total_document_bytes: usize,
}

/// Sum of the document counts of the first `n` trees.
pub open spec fn count_sum(per_tree: Seq<(usize, usize)>, n: int) -> int
    decreases n,
{
    if n <= 0 {
        0
    } else {
        count_sum(per_tree, n - 1) + per_tree[n - 1].0
    }
}

/// Sum of the document sizes of the first `n` trees.
pub open spec fn bytes_sum(per_tree: Seq<(usize, usize)>, n: int) -> int
    decreases n,
{
    if n <= 0 {
        0
    } else {
        bytes_sum(per_tree, n - 1) + per_tree[n - 1].1
    }
}

proof fn lemma_sums_grow(per_tree: Seq<(usize, usize)>, i: int, j: int)
    requires
        0 <= i <= j <= per_tree.len(),
    ensures
        count_sum(per_tree, i) <= count_sum(per_tree, j),
        bytes_sum(per_tree, i) <= bytes_sum(per_tree, j),
    decreases j - i,
{
    if i < j {
        lemma_sums_grow(per_tree, i, j - 1);
    }
}

impl AutomergeSyncMetrics {
    /// Metrics of a layout whose trees hold, in turn, the given numbers of
    /// documents and document bytes. The totals must fit in a `usize`.
    pub fn total(per_tree: &[(usize, usize)]) -> (r: AutomergeSyncMetrics)
        requires
            count_sum(per_tree@, per_tree@.len() as int) <= usize::MAX,
            bytes_sum(per_tree@, per_tree@.len() as int) <= usize::MAX,
        ensures
            r.document_count == count_sum(per_tree@, per_tree@.len() as int),
            r.total_document_bytes == bytes_sum(per_tree@, per_tree@.len() as int),
    {
        let mut total_document_count: usize = 0;
        let mut total_document_bytes: usize = 0;
        let mut i: usize = 0;
        while i < per_tree.len()
            invariant
                i <= per_tree@.len(),
                total_document_count == count_sum(per_tree@, i as int),
                total_document_bytes == bytes_sum(per_tree@, i as int),
                count_sum(per_tree@, per_tree@.len() as int) <= usize::MAX,
                bytes_sum(per_tree@, per_tree@.len() as int) <= usize::MAX,
            decreases per_tree.len() - i,
        {
            proof {
                lemma_sums_grow(per_tree@, i + 1, per_tree@.len() as int);
            }
            let (count, bytes) = per_tree[i];
            total_document_count = total_document_count + count;
            total_document_bytes = total_document_bytes + bytes;
            i = i + 1;
        }
        AutomergeSyncMetrics { document_count: total_document_count, total_document_bytes }
    }
}

/// Per-tree synchronisation of document layouts: each tree is brought up to
/// date on both sides in turn.
#[derive(Clone, Copy, Debug, Default)]
pub struct AutomergePerTreeSync;

/// Engine-facing bridge built from a layout backend plus a format handler;
/// it exposes the layout backend for catalog and sync work.
pub trait LayoutFormatBridge: Clone {
    type LayoutBackend: Clone;

    fn layout_backend(&self) -> &Self::LayoutBackend;
}

} // verus!
