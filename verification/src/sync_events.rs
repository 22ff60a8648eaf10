//! What the editor does for each event of the shared-state and buffer-sync
//! protocols: the steps the host runs, in order, against its sync state.

use vstd::prelude::*;

use crate::buffer::{buffer_state, clamp_state, state_valid, Buffer, BufferManager};
use crate::editor::Editor;
use crate::history::doc_replaced;
use crate::ids::{DocumentId, ViewId};

verus! {

/// Which pending history request an event cancels.
#[derive(Debug, Clone, Copy, PartialEq, Eq, Structural)]
pub enum HistoryKind {
    Undo,
    Redo,
}

/// Shared-state protocol events (their payloads stay with the host).
#[derive(Debug, Clone, Copy, PartialEq, Eq, Structural)]
pub enum SharedStateEventKind {
    RemoteDelta,
    OwnerChanged,
    PreferredOwnerChanged,
    Unlocked,
    Opened,
    ApplyAck,
    Snapshot,
    FocusAck,
    RequestFailed,
    EditRejected,
    NothingToUndo,
    NothingToRedo,
    HistoryUnavailable,
    Disconnected,
}

/// One step the host performs for a shared-state event.
#[derive(Debug, Clone, Copy, PartialEq, Eq, Structural)]
pub enum SharedStep {
    /// Apply the remote delta to the document.
    ApplyRemoteDelta,
    /// Record the new ownership snapshot.
    UpdateSnapshot,
    /// Record the opened document; apply its text when the state returns it.
    HandleOpened,
    /// Record the acknowledgement; apply the returned local delta, if any.
    HandleApplyAck,
    /// Send the edit requests that waited for the acknowledgement.
    DrainPendingEdits,
    /// Record the snapshot response; apply repair text, if any.
    HandleSnapshotResponse,
    /// Record the focus acknowledgement; apply repair text, if any.
    HandleFocusAck,
    HandleRequestFailed,
    MarkNeedsResync,
    /// Ask for focus ownership when the document allows it.
    RequestSharedFocus,
    /// Recompute the document's read-only override.
    UpdateReadonly,
    NotifyHistoryUnavailable,
    /// Cancel whichever history request is pending.
    CancelPendingHistoryAny,
    CancelPendingHistory(HistoryKind),
    Redraw,
    /// Drop all shared state and lift its read-only overrides.
    Disconnect,
}

/// The steps for each shared-state event, in order.
pub open spec fn shared_plan_spec(e: SharedStateEventKind) -> Seq<SharedStep> {
    match e {
        SharedStateEventKind::RemoteDelta => seq![SharedStep::ApplyRemoteDelta],
        SharedStateEventKind::OwnerChanged | SharedStateEventKind::PreferredOwnerChanged => seq![
            SharedStep::UpdateSnapshot,
            SharedStep::UpdateReadonly,
            SharedStep::Redraw,
        ],
        SharedStateEventKind::Unlocked => seq![
            SharedStep::UpdateSnapshot,
            SharedStep::RequestSharedFocus,
            SharedStep::UpdateReadonly,
            SharedStep::Redraw,
        ],
        SharedStateEventKind::Opened => seq![
            SharedStep::HandleOpened,
            SharedStep::RequestSharedFocus,
            SharedStep::UpdateReadonly,
            SharedStep::Redraw,
        ],
        SharedStateEventKind::ApplyAck => seq![
            SharedStep::HandleApplyAck,
            SharedStep::DrainPendingEdits,
            SharedStep::UpdateReadonly,
            SharedStep::Redraw,
        ],
        SharedStateEventKind::Snapshot => seq![
            SharedStep::HandleSnapshotResponse,
            SharedStep::UpdateReadonly,
            SharedStep::Redraw,
        ],
        SharedStateEventKind::FocusAck => seq![
            SharedStep::HandleFocusAck,
            SharedStep::UpdateReadonly,
            SharedStep::Redraw,
        ],
        SharedStateEventKind::RequestFailed => seq![
            SharedStep::HandleRequestFailed,
            SharedStep::UpdateReadonly,
            SharedStep::CancelPendingHistoryAny,
        ],
        SharedStateEventKind::EditRejected => seq![
            SharedStep::MarkNeedsResync,
            SharedStep::UpdateReadonly,
            SharedStep::Redraw,
            SharedStep::CancelPendingHistoryAny,
        ],
        SharedStateEventKind::NothingToUndo => seq![
            SharedStep::UpdateReadonly,
            SharedStep::CancelPendingHistory(HistoryKind::Undo),
            SharedStep::Redraw,
        ],
        SharedStateEventKind::NothingToRedo => seq![
            SharedStep::UpdateReadonly,
            SharedStep::CancelPendingHistory(HistoryKind::Redo),
            SharedStep::Redraw,
        ],
        SharedStateEventKind::HistoryUnavailable => seq![
            SharedStep::UpdateReadonly,
            SharedStep::NotifyHistoryUnavailable,
            SharedStep::CancelPendingHistoryAny,
            SharedStep::Redraw,
        ],
        SharedStateEventKind::Disconnected => seq![SharedStep::Disconnect],
    }
}

fn steps(s: &[SharedStep]) -> (v: Vec<SharedStep>)
    ensures
        v@ == s@,
{
    let mut v: Vec<SharedStep> = Vec::new();
    let mut i: usize = 0;
    while i < s.len()
        invariant
            i <= s@.len(),
            v@ == s@.subrange(0, i as int),
        decreases s@.len() - i,
    {
        v.push(s[i]);
        i = i + 1;
        proof {
            assert(v@ =~= s@.subrange(0, i as int));
        }
    }
    proof {
        assert(s@.subrange(0, s@.len() as int) =~= s@);
    }
    v
}

/// The steps for a shared-state event (see `shared_plan_spec`).
pub fn plan_shared_state_event(e: SharedStateEventKind) -> (r: Vec<SharedStep>)
    ensures
        r@ == shared_plan_spec(e),
{
    let r = match e {
        SharedStateEventKind::RemoteDelta => steps(&[SharedStep::ApplyRemoteDelta]),
        SharedStateEventKind::OwnerChanged | SharedStateEventKind::PreferredOwnerChanged => steps(
            &[SharedStep::UpdateSnapshot, SharedStep::UpdateReadonly, SharedStep::Redraw],
        ),
        SharedStateEventKind::Unlocked => steps(
            &[
                SharedStep::UpdateSnapshot,
                SharedStep::RequestSharedFocus,
                SharedStep::UpdateReadonly,
                SharedStep::Redraw,
            ],
        ),
        SharedStateEventKind::Opened => steps(
            &[
                SharedStep::HandleOpened,
                SharedStep::RequestSharedFocus,
                SharedStep::UpdateReadonly,
                SharedStep::Redraw,
            ],
        ),
        SharedStateEventKind::ApplyAck => steps(
            &[
                SharedStep::HandleApplyAck,
                SharedStep::DrainPendingEdits,
                SharedStep::UpdateReadonly,
                SharedStep::Redraw,
            ],
        ),
        SharedStateEventKind::Snapshot => steps(
            &[SharedStep::HandleSnapshotResponse, SharedStep::UpdateReadonly, SharedStep::Redraw],
        ),
        SharedStateEventKind::FocusAck => steps(
            &[SharedStep::HandleFocusAck, SharedStep::UpdateReadonly, SharedStep::Redraw],
        ),
        SharedStateEventKind::RequestFailed => steps(
            &[
                SharedStep::HandleRequestFailed,
                SharedStep::UpdateReadonly,
                SharedStep::CancelPendingHistoryAny,
            ],
        ),
        SharedStateEventKind::EditRejected => steps(
            &[
                SharedStep::MarkNeedsResync,
                SharedStep::UpdateReadonly,
                SharedStep::Redraw,
                SharedStep::CancelPendingHistoryAny,
            ],
        ),
        SharedStateEventKind::NothingToUndo => steps(
            &[
                SharedStep::UpdateReadonly,
                SharedStep::CancelPendingHistory(HistoryKind::Undo),
                SharedStep::Redraw,
            ],
        ),
        SharedStateEventKind::NothingToRedo => steps(
            &[
                SharedStep::UpdateReadonly,
                SharedStep::CancelPendingHistory(HistoryKind::Redo),
                SharedStep::Redraw,
            ],
        ),
        SharedStateEventKind::HistoryUnavailable => steps(
            &[
                SharedStep::UpdateReadonly,
                SharedStep::NotifyHistoryUnavailable,
                SharedStep::CancelPendingHistoryAny,
                SharedStep::Redraw,
            ],
        ),
        SharedStateEventKind::Disconnected => steps(&[SharedStep::Disconnect]),
    };
    proof {
        assert(r@ =~= shared_plan_spec(e));
    }
    r
}

/// Every event but a remote delta and a disconnect refreshes the
/// document's read-only override, and every event that ends a history
/// request cancels it.
pub proof fn law_shared_events_refresh_readonly(e: SharedStateEventKind)
    ensures
        e != SharedStateEventKind::RemoteDelta && e != SharedStateEventKind::Disconnected
            ==> shared_plan_spec(e).contains(SharedStep::UpdateReadonly),
        (e == SharedStateEventKind::RequestFailed || e == SharedStateEventKind::EditRejected || e
            == SharedStateEventKind::HistoryUnavailable) ==> shared_plan_spec(e).contains(
            SharedStep::CancelPendingHistoryAny,
        ),
{
    let p = shared_plan_spec(e);
    match e {
        SharedStateEventKind::RemoteDelta | SharedStateEventKind::Disconnected => {},
        SharedStateEventKind::OwnerChanged | SharedStateEventKind::PreferredOwnerChanged
        | SharedStateEventKind::Snapshot | SharedStateEventKind::FocusAck => {
            assert(p[1] == SharedStep::UpdateReadonly);
        },
        SharedStateEventKind::Unlocked | SharedStateEventKind::Opened | SharedStateEventKind::ApplyAck => {
            assert(p[2] == SharedStep::UpdateReadonly);
        },
        SharedStateEventKind::RequestFailed => {
            assert(p[1] == SharedStep::UpdateReadonly);
            assert(p[2] == SharedStep::CancelPendingHistoryAny);
        },
        SharedStateEventKind::EditRejected => {
            assert(p[1] == SharedStep::UpdateReadonly);
            assert(p[3] == SharedStep::CancelPendingHistoryAny);
        },
        SharedStateEventKind::NothingToUndo | SharedStateEventKind::NothingToRedo => {
            assert(p[0] == SharedStep::UpdateReadonly);
        },
        SharedStateEventKind::HistoryUnavailable => {
            assert(p[0] == SharedStep::UpdateReadonly);
            assert(p[2] == SharedStep::CancelPendingHistoryAny);
        },
    }
}

/// Buffer-sync protocol events (payloads stay with the host); the flags
/// carry what the editor branches on.
#[derive(Debug, Clone, Copy, PartialEq, Eq, Structural)]
pub enum BufferSyncEventKind {
    RemoteDelta,
    OwnerChanged,
    Unlocked,
    OwnershipResult { denied: bool },
    /// `confirmed` unless the owner needs a snapshot; `has_text` when one came.
    OwnerConfirmResult { confirmed: bool, has_text: bool },
    Opened,
    DeltaAck,
    DeltaRejected,
    RequestFailed,
    Snapshot,
    Disconnected,
}

/// One step the host performs for a buffer-sync event.
#[derive(Debug, Clone, Copy, PartialEq, Eq, Structural)]
pub enum SyncStep {
    ApplyRemoteDelta,
    HandleOwnerChanged,
    HandleUnlocked,
    HandleOwnershipResult,
    NotifyOwnershipDenied,
    HandleOwnerConfirmed,
    /// Apply the snapshot text to the document.
    ApplySnapshotText,
    /// Record the snapshot in the sync state.
    RecordSnapshot,
    /// Record the opened document; apply its text when the state returns it.
    HandleOpened,
    HandleDeltaAck,
    MarkNeedsResync,
    HandleRequestFailed,
    /// Recompute the read-only override from the document's sync role.
    UpdateReadonlyForRole,
    Redraw,
    Disconnect,
}

/// The steps for each buffer-sync event, in order.
pub open spec fn sync_plan_spec(e: BufferSyncEventKind) -> Seq<SyncStep> {
    match e {
        BufferSyncEventKind::RemoteDelta => seq![SyncStep::ApplyRemoteDelta],
        BufferSyncEventKind::OwnerChanged => seq![
            SyncStep::HandleOwnerChanged,
            SyncStep::UpdateReadonlyForRole,
            SyncStep::Redraw,
        ],
        BufferSyncEventKind::Unlocked => seq![
            SyncStep::HandleUnlocked,
            SyncStep::UpdateReadonlyForRole,
            SyncStep::Redraw,
        ],
        BufferSyncEventKind::OwnershipResult { denied } => if denied {
            seq![
                SyncStep::HandleOwnershipResult,
                SyncStep::NotifyOwnershipDenied,
                SyncStep::UpdateReadonlyForRole,
                SyncStep::Redraw,
            ]
        } else {
            seq![SyncStep::HandleOwnershipResult, SyncStep::UpdateReadonlyForRole, SyncStep::Redraw]
        },
        BufferSyncEventKind::OwnerConfirmResult { confirmed, has_text } => if confirmed {
            seq![SyncStep::HandleOwnerConfirmed, SyncStep::UpdateReadonlyForRole, SyncStep::Redraw]
        } else if has_text {
            seq![
                SyncStep::ApplySnapshotText,
                SyncStep::RecordSnapshot,
                SyncStep::UpdateReadonlyForRole,
                SyncStep::Redraw,
            ]
        } else {
            seq![SyncStep::UpdateReadonlyForRole, SyncStep::Redraw]
        },
        BufferSyncEventKind::Opened => seq![
            SyncStep::HandleOpened,
            SyncStep::UpdateReadonlyForRole,
            SyncStep::Redraw,
        ],
        BufferSyncEventKind::DeltaAck => seq![SyncStep::HandleDeltaAck],
        BufferSyncEventKind::DeltaRejected => seq![SyncStep::MarkNeedsResync],
        BufferSyncEventKind::RequestFailed => seq![
            SyncStep::HandleRequestFailed,
            SyncStep::UpdateReadonlyForRole,
        ],
        BufferSyncEventKind::Snapshot => seq![
            SyncStep::RecordSnapshot,
            SyncStep::ApplySnapshotText,
            SyncStep::UpdateReadonlyForRole,
            SyncStep::Redraw,
        ],
        BufferSyncEventKind::Disconnected => seq![SyncStep::Disconnect],
    }
}

fn sync_steps(s: &[SyncStep]) -> (v: Vec<SyncStep>)
    ensures
        v@ == s@,
{
    let mut v: Vec<SyncStep> = Vec::new();
    let mut i: usize = 0;
    while i < s.len()
        invariant
            i <= s@.len(),
            v@ == s@.subrange(0, i as int),
        decreases s@.len() - i,
    {
        v.push(s[i]);
        i = i + 1;
        proof {
            assert(v@ =~= s@.subrange(0, i as int));
        }
    }
    proof {
        assert(s@.subrange(0, s@.len() as int) =~= s@);
    }
    v
}

/// The steps for a buffer-sync event (see `sync_plan_spec`).
pub fn plan_buffer_sync_event(e: BufferSyncEventKind) -> (r: Vec<SyncStep>)
    ensures
        r@ == sync_plan_spec(e),
{
    let r = match e {
        BufferSyncEventKind::RemoteDelta => sync_steps(&[SyncStep::ApplyRemoteDelta]),
        BufferSyncEventKind::OwnerChanged => sync_steps(
            &[SyncStep::HandleOwnerChanged, SyncStep::UpdateReadonlyForRole, SyncStep::Redraw],
        ),
        BufferSyncEventKind::Unlocked => sync_steps(
            &[SyncStep::HandleUnlocked, SyncStep::UpdateReadonlyForRole, SyncStep::Redraw],
        ),
        BufferSyncEventKind::OwnershipResult { denied } => {
            if denied {
                sync_steps(
                    &[
                        SyncStep::HandleOwnershipResult,
                        SyncStep::NotifyOwnershipDenied,
                        SyncStep::UpdateReadonlyForRole,
                        SyncStep::Redraw,
                    ],
                )
            } else {
                sync_steps(
                    &[SyncStep::HandleOwnershipResult, SyncStep::UpdateReadonlyForRole, SyncStep::Redraw],
                )
            }
        },
        BufferSyncEventKind::OwnerConfirmResult { confirmed, has_text } => {
            if confirmed {
                sync_steps(
                    &[SyncStep::HandleOwnerConfirmed, SyncStep::UpdateReadonlyForRole, SyncStep::Redraw],
                )
            } else if has_text {
                sync_steps(
                    &[
                        SyncStep::ApplySnapshotText,
                        SyncStep::RecordSnapshot,
                        SyncStep::UpdateReadonlyForRole,
                        SyncStep::Redraw,
                    ],
                )
            } else {
                sync_steps(&[SyncStep::UpdateReadonlyForRole, SyncStep::Redraw])
            }
        },
        BufferSyncEventKind::Opened => sync_steps(
            &[SyncStep::HandleOpened, SyncStep::UpdateReadonlyForRole, SyncStep::Redraw],
        ),
        BufferSyncEventKind::DeltaAck => sync_steps(&[SyncStep::HandleDeltaAck]),
        BufferSyncEventKind::DeltaRejected => sync_steps(&[SyncStep::MarkNeedsResync]),
        BufferSyncEventKind::RequestFailed => sync_steps(
            &[SyncStep::HandleRequestFailed, SyncStep::UpdateReadonlyForRole],
        ),
        BufferSyncEventKind::Snapshot => sync_steps(
            &[
                SyncStep::RecordSnapshot,
                SyncStep::ApplySnapshotText,
                SyncStep::UpdateReadonlyForRole,
                SyncStep::Redraw,
            ],
        ),
        BufferSyncEventKind::Disconnected => sync_steps(&[SyncStep::Disconnect]),
    };
    proof {
        assert(r@ =~= sync_plan_spec(e));
    }
    r
}

/// The editor's role for a document under buffer sync.
#[derive(Debug, Clone, Copy, PartialEq, Eq, Structural)]
pub enum BufferSyncRole {
    Owner,
    Follower,
}

/// The read-only override for a synced document's views: a follower's
/// views are read-only, an owner's while its edits are blocked (awaiting
/// confirmation or a resync); otherwise there is no override.
pub fn readonly_override_for_role(role: Option<BufferSyncRole>, edit_blocked: bool) -> (r: Option<bool>)
    ensures
        r == match role {
            Some(BufferSyncRole::Follower) => Some(true),
            Some(BufferSyncRole::Owner) => if edit_blocked { Some(true) } else { None },
            None => None,
        },
{
    match role {
        Some(BufferSyncRole::Follower) => Some(true),
        Some(BufferSyncRole::Owner) => if edit_blocked { Some(true) } else { None },
        None => None,
    }
}

/// The read-only override for a shared document's views: read-only while
/// it needs a resync, else none.
pub fn readonly_override_for_status(needs_resync: bool) -> (r: Option<bool>)
    ensures
        r == if needs_resync { Some(true) } else { None::<bool> },
{
    if needs_resync { Some(true) } else { None }
}


/// `b1` is `b0` with the text of document `doc` replaced by a sync snapshot
/// `text` (which marks it modified) and every view of `doc` clamped to the
/// new text; nothing else changes.
pub open spec fn snapshot_installed(b0: BufferManager, b1: BufferManager, doc: DocumentId, text: Seq<char>) -> bool {
    &&& forall|k: int|
        0 <= k < b0.docs@.len() && #[trigger] b0.docs@[k].id == doc ==> doc_replaced(b0, b1, k, text, true)
    &&& views_clamped(b0, b1, doc, text.len() as usize)
}

/// The views of `b1` are those of `b0`, with the views of `doc` clamped to
/// `len` and the others untouched; the rest of the manager is unchanged.
pub open spec fn views_clamped(b0: BufferManager, b1: BufferManager, doc: DocumentId, len: usize) -> bool {
    &&& b1.views@.len() == b0.views@.len()
    &&& forall|i: int|
        0 <= i < b0.views@.len() ==> (#[trigger] b1.views@[i]).id == b0.views@[i].id && b1.views@[i].doc
            == b0.views@[i].doc
    &&& forall|i: int|
        0 <= i < b0.views@.len() && (#[trigger] b0.views@[i]).doc == doc ==> buffer_state(b1.views@[i])
            == clamp_state(buffer_state(b0.views@[i]), len)
    &&& forall|i: int|
        0 <= i < b0.views@.len() && (#[trigger] b0.views@[i]).doc != doc ==> b1.views@[i] == b0.views@[i]
    &&& b1.focused == b0.focused
    &&& b1.next_view == b0.next_view
    &&& b1.next_doc == b0.next_doc
}

impl BufferManager {
    /// Clamps the cursor and selection of every view of `doc` to `len`.
    pub fn clamp_views_of_doc(&mut self, doc: DocumentId, len: usize)
        requires
            old(self).wf(),
            old(self).selections_wf(),
        ensures
            final(self).wf(),
            final(self).selections_wf(),
            final(self).docs == old(self).docs,
            views_clamped(*old(self), *final(self), doc, len),
    {
        let mut i: usize = 0;
        while i < self.views.len()
            invariant
                i <= self.views@.len(),
                self.views@.len() == old(self).views@.len(),
                self.docs == old(self).docs,
                self.focused == old(self).focused,
                self.next_view == old(self).next_view,
                self.next_doc == old(self).next_doc,
                old(self).selections_wf(),
                forall|m: int| i <= m < self.views@.len() ==> self.views@[m] == old(self).views@[m],
                forall|m: int|
                    0 <= m < self.views@.len() ==> (#[trigger] self.views@[m]).id == old(self).views@[m].id
                        && self.views@[m].doc == old(self).views@[m].doc && self.views@[m].selection.wf(),
                forall|m: int|
                    0 <= m < i && (#[trigger] old(self).views@[m]).doc == doc ==> buffer_state(self.views@[m])
                        == clamp_state(buffer_state(old(self).views@[m]), len),
                forall|m: int|
                    0 <= m < i && (#[trigger] old(self).views@[m]).doc != doc ==> self.views@[m]
                        == old(self).views@[m],
            decreases self.views@.len() - i,
        {
            if self.views[i].doc == doc {
                self.views[i].ensure_valid_selection(len);
            }
            i = i + 1;
        }
        proof {
            assert forall|a: int, b: int| 0 <= a < b < self.views@.len() implies self.views@[a].id
                != self.views@[b].id by {
                assert(old(self).views@[a].id != old(self).views@[b].id);
            }
            assert forall|a: int| 0 <= a < self.views@.len() implies #[trigger] self.views@[a].id.0
                < self.next_view by {
                assert(old(self).views@[a].id.0 < old(self).next_view);
            }
            assert forall|a: int| 0 <= a < self.views@.len() implies self.has_doc(
                #[trigger] self.views@[a].doc,
            ) by {
                assert(old(self).has_doc(old(self).views@[a].doc));
            }
        }
    }
}

impl Editor {
    /// Installs a full sync snapshot `text` as the content of document
    /// `doc`: the document is marked modified and every view of it is
    /// clamped to the new text. Returns a view of the document, for the host
    /// to mark dirty, or `None`, changing nothing, when no view shows it.
    pub fn apply_sync_snapshot(&mut self, doc: DocumentId, text: Vec<char>) -> (r: Option<ViewId>)
        requires
            old(self).wf(),
            old(self).core.buffers.selections_wf(),
        ensures
            final(self).wf(),
            final(self).core.buffers.selections_wf(),
            old(self).core.buffers.views_valid() ==> final(self).core.buffers.views_valid(),
            r is None <==> !(exists|i: int|
                0 <= i < old(self).core.buffers.views@.len() && old(self).core.buffers.views@[i].doc == doc),
            r is None ==> *final(self) == *old(self),
            r matches Some(v) ==> {
                &&& exists|i: int|
                    0 <= i < old(self).core.buffers.views@.len() && old(self).core.buffers.views@[i].doc == doc
                        && old(self).core.buffers.views@[i].id == v
                &&& old(self).core.buffers.has_doc(doc)
                &&& snapshot_installed(old(self).core.buffers, final(self).core.buffers, doc, text@)
            },
            final(self).core.workspace == old(self).core.workspace,
            final(self).core.undo_manager == old(self).core.undo_manager,
            final(self).windows == old(self).windows,
            final(self).focus == old(self).focus,
            final(self).focus_epoch == old(self).focus_epoch,
            final(self).frame == old(self).frame,
            final(self).prompt == old(self).prompt,
    {
        let v = match self.core.buffers.any_buffer_for_doc(doc) {
            Some(v) => v,
            None => {
                return None;
            },
        };
        proof {
            let i = choose|i: int|
                0 <= i < self.core.buffers.views@.len() && self.core.buffers.views@[i].doc == doc
                    && self.core.buffers.views@[i].id == v;
            assert(self.core.buffers.has_doc(self.core.buffers.views@[i].doc));
        }
        let k = match self.core.buffers.doc_index_of(doc) {
            Some(k) => k,
            None => {
                proof {
                    assert(false);
                }
                return None;
            },
        };
        let len = text.len();
        let ghost b0 = self.core.buffers;
        let ghost t = text@;
        let _previous = self.core.buffers.replace_doc_text(k, text, true);
        let ghost b1 = self.core.buffers;
        proof {
            assert forall|a: int| 0 <= a < b1.views@.len() implies (#[trigger] b1.views@[a]).selection.wf() by {
                assert(b0.views@[a].selection.wf());
            }
        }
        self.core.buffers.clamp_views_of_doc(doc, len);
        proof {
            assert forall|k2: int| 0 <= k2 < b0.docs@.len() && #[trigger] b0.docs@[k2].id == doc implies doc_replaced(
                b0,
                self.core.buffers,
                k2,
                t,
                true,
            ) by {
                if k2 != k {
                    if k2 < k {
                        assert(b0.docs@[k2].id != b0.docs@[k as int].id);
                    } else {
                        assert(b0.docs@[k as int].id != b0.docs@[k2].id);
                    }
                }
            }
            let b2 = self.core.buffers;
            if b0.views_valid() {
                assert forall|i: int, k2: int|
                    0 <= i < b2.views@.len() && 0 <= k2 < b2.docs@.len() && #[trigger] b2.docs@[k2].id
                        == #[trigger] b2.views@[i].doc implies state_valid(
                    buffer_state(b2.views@[i]),
                    b2.docs@[k2].text.len(),
                ) by {
                    if b0.views@[i].doc == doc {
                        assert(b0.views@[i].selection.wf());
                        assert(buffer_state(b2.views@[i]) == clamp_state(buffer_state(b0.views@[i]), len));
                    } else {
                        assert(b0.docs@[k2].id == b0.views@[i].doc);
                        assert(k2 != k);
                        assert(b2.docs@[k2] == b0.docs@[k2]);
                    }
                }
            }
        }
        Some(v)
    }
}


/// `b1` is `b0` with the read-only override of every view that `hit`
/// selects set to `value`; nothing else changes.
pub open spec fn overrides_set(b0: BufferManager, b1: BufferManager, hit: spec_fn(DocumentId) -> bool, value: Option<bool>) -> bool {
    &&& b1.docs == b0.docs
    &&& b1.focused == b0.focused
    &&& b1.next_view == b0.next_view
    &&& b1.next_doc == b0.next_doc
    &&& b1.views@.len() == b0.views@.len()
    &&& forall|i: int|
        0 <= i < b0.views@.len() && hit((#[trigger] b0.views@[i]).doc) ==> b1.views@[i] == (Buffer {
            readonly_override: value,
            ..b0.views@[i]
        })
    &&& forall|i: int| 0 <= i < b0.views@.len() && !hit((#[trigger] b0.views@[i]).doc) ==> b1.views@[i] == b0.views@[i]
}

/// Holds of document `d` alone.
pub open spec fn is_doc(d: DocumentId) -> spec_fn(DocumentId) -> bool {
    |x: DocumentId| x == d
}

/// Holds of the documents listed in `ds`.
pub open spec fn listed_in(ds: Seq<DocumentId>) -> spec_fn(DocumentId) -> bool {
    |x: DocumentId| ds.contains(x)
}

impl BufferManager {
    /// Sets the read-only override of every view whose document `hit`
    /// selects (given as the list `ds`, or the single document `d` when
    /// `ds` is `None`).
    fn set_overrides(&mut self, d: DocumentId, ds: Option<&Vec<DocumentId>>, value: Option<bool>)
        requires
            old(self).wf(),
        ensures
            final(self).wf(),
            overrides_set(*old(self), *final(self), match ds {
                Some(v) => listed_in(v@),
                None => is_doc(d),
            }, value),
    {
        let ghost hit = match ds {
            Some(v) => listed_in(v@),
            None => is_doc(d),
        };
        let mut i: usize = 0;
        while i < self.views.len()
            invariant
                i <= self.views@.len(),
                self.views@.len() == old(self).views@.len(),
                self.docs == old(self).docs,
                self.focused == old(self).focused,
                self.next_view == old(self).next_view,
                self.next_doc == old(self).next_doc,
                hit == (match ds {
                    Some(v) => listed_in(v@),
                    None => is_doc(d),
                }),
                forall|m: int| i <= m < self.views@.len() ==> self.views@[m] == old(self).views@[m],
                forall|m: int|
                    0 <= m < i && hit((#[trigger] old(self).views@[m]).doc) ==> self.views@[m] == (Buffer {
                        readonly_override: value,
                        ..old(self).views@[m]
                    }),
                forall|m: int| 0 <= m < i && !hit((#[trigger] old(self).views@[m]).doc) ==> self.views@[m] == old(self).views@[m],
            decreases self.views@.len() - i,
        {
            let vd = self.views[i].doc;
            let selected = match ds {
                Some(v) => contains_doc_id(v, vd),
                None => vd == d,
            };
            if selected {
                self.views[i].readonly_override = value;
            }
            i = i + 1;
        }
        proof {
            assert forall|a: int, b: int| 0 <= a < b < self.views@.len() implies self.views@[a].id
                != self.views@[b].id by {
                assert(old(self).views@[a].id != old(self).views@[b].id);
            }
            assert forall|a: int| 0 <= a < self.views@.len() implies #[trigger] self.views@[a].id.0
                < self.next_view by {
                assert(old(self).views@[a].id.0 < old(self).next_view);
            }
            assert forall|a: int| 0 <= a < self.views@.len() implies self.has_doc(
                #[trigger] self.views@[a].doc,
            ) by {
                assert(old(self).has_doc(old(self).views@[a].doc));
            }
        }
    }
}

/// Whether `d` occurs in `ds`.
fn contains_doc_id(ds: &Vec<DocumentId>, d: DocumentId) -> (r: bool)
    ensures
        r == ds@.contains(d),
{
    let mut i: usize = 0;
    while i < ds.len()
        invariant
            i <= ds@.len(),
            forall|k: int| 0 <= k < i ==> ds@[k] != d,
        decreases ds@.len() - i,
    {
        if ds[i] == d {
            proof {
                assert(ds@[i as int] == d);
            }
            return true;
        }
        i = i + 1;
    }
    false
}

impl Editor {
    /// Gives every view of document `doc` the read-only override that its
    /// buffer-sync role calls for (see `readonly_override_for_role`), with
    /// `edit_blocked` whether the owner's edits are blocked.
    pub fn update_readonly_for_sync_role(&mut self, doc: DocumentId, role: Option<BufferSyncRole>, edit_blocked: bool)
        requires
            old(self).wf(),
        ensures
            final(self).wf(),
            overrides_set(
                old(self).core.buffers,
                final(self).core.buffers,
                is_doc(doc),
                match role {
                    Some(BufferSyncRole::Follower) => Some(true),
                    Some(BufferSyncRole::Owner) => if edit_blocked { Some(true) } else { None },
                    None => None,
                },
            ),
            final(self).core.workspace == old(self).core.workspace,
            final(self).core.undo_manager == old(self).core.undo_manager,
            final(self).windows == old(self).windows,
            final(self).focus == old(self).focus,
            final(self).frame == old(self).frame,
            final(self).prompt == old(self).prompt,
    {
        let value = readonly_override_for_role(role, edit_blocked);
        self.core.buffers.set_overrides(doc, None, value);
    }

    /// Gives every view of shared document `doc` its read-only override:
    /// read-only while it needs a resync, else none.
    pub fn update_readonly_for_shared_state(&mut self, doc: DocumentId, needs_resync: bool)
        requires
            old(self).wf(),
        ensures
            final(self).wf(),
            overrides_set(
                old(self).core.buffers,
                final(self).core.buffers,
                is_doc(doc),
                if needs_resync { Some(true) } else { None },
            ),
            final(self).core.workspace == old(self).core.workspace,
            final(self).core.undo_manager == old(self).core.undo_manager,
            final(self).windows == old(self).windows,
            final(self).focus == old(self).focus,
            final(self).frame == old(self).frame,
            final(self).prompt == old(self).prompt,
    {
        let value = readonly_override_for_status(needs_resync);
        self.core.buffers.set_overrides(doc, None, value);
    }

    /// On a sync disconnect: lifts the read-only override of every view of
    /// the documents in `blocked` (those the sync held read-only), keeps the
    /// overrides of all other views, and asks for a redraw.
    pub fn lift_sync_readonly_overrides(&mut self, blocked: &Vec<DocumentId>)
        requires
            old(self).wf(),
        ensures
            final(self).wf(),
            overrides_set(old(self).core.buffers, final(self).core.buffers, listed_in(blocked@), None),
            final(self).frame.needs_redraw,
            final(self).frame.sticky_views == old(self).frame.sticky_views,
            final(self).frame.pending_quit == old(self).frame.pending_quit,
            final(self).core.workspace == old(self).core.workspace,
            final(self).core.undo_manager == old(self).core.undo_manager,
            final(self).windows == old(self).windows,
            final(self).focus == old(self).focus,
            final(self).prompt == old(self).prompt,
    {
        self.core.buffers.set_overrides(DocumentId(0), Some(blocked), None);
        self.frame.needs_redraw = true;
    }
}

} // verus!
