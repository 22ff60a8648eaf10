//! How pending document changes reach the language server when a flush is
//! wanted at once: as the incremental changes themselves, or as the full
//! text.

use vstd::prelude::*;

verus! {

/// How a change notification carries the document.
#[derive(Debug, Clone, Copy, PartialEq, Eq, Structural)]
pub enum LspSyncMode {
    /// The changes themselves.
    Incremental,
    /// A snapshot of the whole text.
    Full,
}

/// Bounds past which an incremental notification is not worth sending.
#[derive(Debug, Clone, Copy, PartialEq, Eq, Structural)]
pub struct IncrementalLimits {
    pub max_changes: usize,
    pub max_bytes: usize,
}

/// Sum of the inserted-text sizes.
pub open spec fn total_bytes(sizes: Seq<usize>) -> int
    decreases sizes.len(),
{
    if sizes.len() == 0 {
        0
    } else {
        total_bytes(sizes.drop_last()) + sizes.last()
    }
}

/// Incremental exactly when no full sync is forced, the server takes
/// incremental changes, and there is at least one change and no more than
/// the limits allow.
pub open spec fn sync_mode_spec(
    force_full: bool,
    supports_incremental: bool,
    sizes: Seq<usize>,
    limits: IncrementalLimits,
) -> LspSyncMode {
    if !force_full && supports_incremental && 0 < sizes.len() <= limits.max_changes && total_bytes(sizes)
        <= limits.max_bytes {
        LspSyncMode::Incremental
    } else {
        LspSyncMode::Full
    }
}

proof fn lemma_total_bytes_prefix(sizes: Seq<usize>, i: int, j: int)
    requires
        0 <= i <= j <= sizes.len(),
    ensures
        total_bytes(sizes.subrange(0, i)) <= total_bytes(sizes.subrange(0, j)),
    decreases j - i,
{
    if i < j {
        lemma_total_bytes_prefix(sizes, i, j - 1);
        assert(sizes.subrange(0, j).drop_last() =~= sizes.subrange(0, j - 1));
    }
}

/// The mode for an immediate flush of changes whose inserted texts have the
/// given sizes (see `sync_mode_spec`).
pub fn choose_sync_mode(
    force_full: bool,
    supports_incremental: bool,
    change_sizes: &Vec<usize>,
    limits: IncrementalLimits,
) -> (m: LspSyncMode)
    ensures
        m == sync_mode_spec(force_full, supports_incremental, change_sizes@, limits),
{
    if force_full || !supports_incremental || change_sizes.len() == 0 || change_sizes.len() > limits.max_changes {
        return LspSyncMode::Full;
    }
    let mut sum: usize = 0;
    let mut i: usize = 0;
    while i < change_sizes.len()
        invariant
            i <= change_sizes@.len(),
            sum == total_bytes(change_sizes@.subrange(0, i as int)),
            sum <= limits.max_bytes,
        decreases change_sizes@.len() - i,
    {
        proof {
            assert(change_sizes@.subrange(0, i + 1).drop_last() =~= change_sizes@.subrange(0, i as int));
        }
        if change_sizes[i] > limits.max_bytes - sum {
            proof {
                lemma_total_bytes_prefix(change_sizes@, i + 1, change_sizes@.len() as int);
                assert(change_sizes@.subrange(0, change_sizes@.len() as int) =~= change_sizes@);
            }
            return LspSyncMode::Full;
        }
        sum = sum + change_sizes[i];
        i = i + 1;
    }
    proof {
        assert(change_sizes@.subrange(0, change_sizes@.len() as int) =~= change_sizes@);
    }
    LspSyncMode::Incremental
}

/// What an immediate flush of one view's document does: nothing when the
/// document has no path or language or no pending changes, else a
/// notification in the chosen mode.
pub open spec fn immediate_plan_spec(
    has_path: bool,
    has_language: bool,
    has_pending: bool,
    force_full: bool,
    supports_incremental: bool,
    sizes: Seq<usize>,
    limits: IncrementalLimits,
) -> Option<LspSyncMode> {
    if has_path && has_language && has_pending {
        Some(sync_mode_spec(force_full, supports_incremental, sizes, limits))
    } else {
        None
    }
}

/// The plan for an immediate flush (see `immediate_plan_spec`).
pub fn plan_immediate_change(
    has_path: bool,
    has_language: bool,
    has_pending: bool,
    force_full: bool,
    supports_incremental: bool,
    change_sizes: &Vec<usize>,
    limits: IncrementalLimits,
) -> (r: Option<LspSyncMode>)
    ensures
        r == immediate_plan_spec(
            has_path,
            has_language,
            has_pending,
            force_full,
            supports_incremental,
            change_sizes@,
            limits,
        ),
{
    if has_path && has_language && has_pending {
        Some(choose_sync_mode(force_full, supports_incremental, change_sizes, limits))
    } else {
        None
    }
}

/// The mode of the retry after an incremental notification could not be
/// sent: the full text, once; a failed full notification is not retried.
pub fn retry_mode(sent: LspSyncMode, send_failed: bool) -> (r: Option<LspSyncMode>)
    ensures
        r == if send_failed && sent == LspSyncMode::Incremental {
            Some(LspSyncMode::Full)
        } else {
            None::<LspSyncMode>
        },
{
    if send_failed && sent == LspSyncMode::Incremental {
        Some(LspSyncMode::Full)
    } else {
        None
    }
}

} // verus!
