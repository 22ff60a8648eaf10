use xeno_editor::buffer::InputMode;
use xeno_editor::editor::Editor;
use xeno_editor::ids::DocumentId;
use xeno_editor::nu_ctx::{clamp_to_bytes, line_text, trim_end_chars, NuCtxPosition};
use xeno_editor::invocation::NuCtxEvent;
use xeno_editor::selection::Selection;
use xeno_editor::sync_events::{
    plan_buffer_sync_event, plan_shared_state_event, readonly_override_for_role, readonly_override_for_status,
    BufferSyncEventKind, BufferSyncRole, HistoryKind, SharedStateEventKind,
    SharedStep, SyncStep,
};
use xeno_editor::ids::ViewId;
use xeno_editor::syntax_plan::{
    combine_hotness, contains_doc, merge_viewports, needs_syntax_pass, note_hotness, view_hotness, viewport_bytes,
    ScreenSpan, SyntaxHotness,
};

fn chars(s: &str) -> Vec<char> {
    s.chars().collect()
}

fn editor_at(text: &str, cursor: usize, sel: Selection) -> Editor {
    let mut e = Editor::from_content(chars(text), None);
    let v = e.focused_view();
    let b = e.core.get_buffer_mut(v).unwrap();
    b.cursor = cursor;
    b.selection = sel;
    e
}

#[test]
fn combine_keeps_the_hotter() {
    let all = [SyntaxHotness::Visible, SyntaxHotness::Warm, SyntaxHotness::Cold];
    let rank = |h: SyntaxHotness| match h {
        SyntaxHotness::Visible => 2,
        SyntaxHotness::Warm => 1,
        SyntaxHotness::Cold => 0,
    };
    for a in all {
        for b in all {
            let c = combine_hotness(a, b);
            assert_eq!(rank(c), rank(a).max(rank(b)));
        }
    }
}

#[test]
fn view_hotness_levels() {
    assert_eq!(view_hotness(true, false), SyntaxHotness::Visible);
    assert_eq!(view_hotness(false, true), SyntaxHotness::Warm);
    assert_eq!(view_hotness(false, false), SyntaxHotness::Cold);
}

#[test]
fn note_hotness_merges_per_document() {
    let mut recs = Vec::new();
    note_hotness(&mut recs, DocumentId(1), SyntaxHotness::Cold);
    note_hotness(&mut recs, DocumentId(2), SyntaxHotness::Warm);
    note_hotness(&mut recs, DocumentId(1), SyntaxHotness::Warm);
    note_hotness(&mut recs, DocumentId(2), SyntaxHotness::Cold);
    assert_eq!(recs, vec![(DocumentId(1), SyntaxHotness::Warm), (DocumentId(2), SyntaxHotness::Warm)]);
    note_hotness(&mut recs, DocumentId(2), SyntaxHotness::Visible);
    assert_eq!(recs[1], (DocumentId(2), SyntaxHotness::Visible));
}

#[test]
fn viewport_spans_in_bytes() {
    let text = chars("aé€b");
    // chars 1..3 are "é€": bytes 1..6
    assert_eq!(viewport_bytes(&text, 1, 3, 100), (1, 6));
    // reversed bounds are put in order
    assert_eq!(viewport_bytes(&text, 3, 1, 100), (1, 6));
    // an empty span covers one byte
    assert_eq!(viewport_bytes(&text, 2, 2, 100), (3, 4));
    // bounds past the end are clamped
    assert_eq!(viewport_bytes(&text, 0, 99, 100), (0, 7));
    // the cap bounds the span
    assert_eq!(viewport_bytes(&text, 0, 4, 2), (0, 2));
    assert_eq!(viewport_bytes(&Vec::new(), 0, 5, 10), (0, 0));
}

#[test]
fn merged_viewport_is_the_hull() {
    assert_eq!(merge_viewports((10, 20), (5, 15)), (5, 20));
    assert_eq!(merge_viewports((0, 3), (7, 9)), (0, 9));
}

#[test]
fn syntax_pass_selection() {
    assert!(needs_syntax_pass(false, SyntaxHotness::Visible, true));
    assert!(needs_syntax_pass(true, SyntaxHotness::Warm, true));
    assert!(!needs_syntax_pass(false, SyntaxHotness::Warm, false));
    assert!(!needs_syntax_pass(true, SyntaxHotness::Cold, true));
    assert!(needs_syntax_pass(true, SyntaxHotness::Cold, false));
}

#[test]
fn shared_state_plans() {
    assert_eq!(plan_shared_state_event(SharedStateEventKind::RemoteDelta), vec![SharedStep::ApplyRemoteDelta]);
    assert_eq!(
        plan_shared_state_event(SharedStateEventKind::ApplyAck),
        vec![SharedStep::HandleApplyAck, SharedStep::DrainPendingEdits, SharedStep::UpdateReadonly, SharedStep::Redraw]
    );
    assert_eq!(
        plan_shared_state_event(SharedStateEventKind::NothingToRedo),
        vec![
            SharedStep::UpdateReadonly,
            SharedStep::CancelPendingHistory(HistoryKind::Redo),
            SharedStep::Redraw
        ]
    );
    assert_eq!(plan_shared_state_event(SharedStateEventKind::Disconnected), vec![SharedStep::Disconnect]);
}

#[test]
fn shared_state_events_other_than_delta_and_disconnect_refresh_readonly() {
    for e in [
        SharedStateEventKind::OwnerChanged,
        SharedStateEventKind::PreferredOwnerChanged,
        SharedStateEventKind::Unlocked,
        SharedStateEventKind::Opened,
        SharedStateEventKind::ApplyAck,
        SharedStateEventKind::Snapshot,
        SharedStateEventKind::FocusAck,
        SharedStateEventKind::RequestFailed,
        SharedStateEventKind::EditRejected,
        SharedStateEventKind::NothingToUndo,
        SharedStateEventKind::NothingToRedo,
        SharedStateEventKind::HistoryUnavailable,
    ] {
        assert!(plan_shared_state_event(e).contains(&SharedStep::UpdateReadonly), "{:?}", e);
    }
}

#[test]
fn buffer_sync_plans() {
    assert_eq!(
        plan_buffer_sync_event(BufferSyncEventKind::OwnershipResult { denied: true }),
        vec![
            SyncStep::HandleOwnershipResult,
            SyncStep::NotifyOwnershipDenied,
            SyncStep::UpdateReadonlyForRole,
            SyncStep::Redraw
        ]
    );
    assert_eq!(
        plan_buffer_sync_event(BufferSyncEventKind::OwnerConfirmResult { confirmed: false, has_text: true }),
        vec![
            SyncStep::ApplySnapshotText,
            SyncStep::RecordSnapshot,
            SyncStep::UpdateReadonlyForRole,
            SyncStep::Redraw
        ]
    );
    assert_eq!(
        plan_buffer_sync_event(BufferSyncEventKind::OwnerConfirmResult { confirmed: false, has_text: false }),
        vec![SyncStep::UpdateReadonlyForRole, SyncStep::Redraw]
    );
    assert_eq!(plan_buffer_sync_event(BufferSyncEventKind::DeltaRejected), vec![SyncStep::MarkNeedsResync]);
}

#[test]
fn clamp_to_bytes_cuts_on_char_boundaries() {
    let s = chars("aé€b");
    assert_eq!(clamp_to_bytes(&s, 100), (s.clone(), false));
    assert_eq!(clamp_to_bytes(&s, 3), (chars("aé"), true));
    assert_eq!(clamp_to_bytes(&s, 5), (chars("aé"), true));
    assert_eq!(clamp_to_bytes(&s, 0), (Vec::new(), true));
}

#[test]
fn trim_end_removes_trailing_chars_only() {
    let mut v = chars("a\nb\n\n");
    trim_end_chars(&mut v, '\n');
    assert_eq!(v, chars("a\nb"));
}

#[test]
fn line_text_drops_line_ending() {
    let s = chars("one\r\ntwo\nthree");
    assert_eq!(line_text(&s, 0, 100), (chars("one"), false));
    assert_eq!(line_text(&s, 1, 100), (chars("two"), false));
    assert_eq!(line_text(&s, 2, 3), (chars("thr"), true));
}

#[test]
fn nu_ctx_reports_cursor_selection_and_text() {
    let e = editor_at("alpha\nbeta gamma\n", 8, Selection::single(6, 10));
    let ctx = e.build_nu_ctx(&"macro".to_string(), &"go".to_string(), &vec!["x".to_string()], true, 64, None, None);
    assert_eq!(ctx.kind, "macro");
    assert_eq!(ctx.function, "go");
    assert_eq!(ctx.args, vec!["x".to_string()]);
    assert_eq!(ctx.view, e.focused_view());
    assert_eq!(ctx.cursor, NuCtxPosition { line: 1, col: 2 });
    assert!(ctx.selection.active);
    assert_eq!(ctx.selection.start, NuCtxPosition { line: 1, col: 0 });
    assert_eq!(ctx.selection.end, NuCtxPosition { line: 1, col: 4 });
    assert_eq!(ctx.text.line.as_deref(), Some("beta gamma"));
    assert!(!ctx.text.line_truncated);
    assert_eq!(ctx.text.selection.as_deref(), Some("beta"));
    assert!(!ctx.text.selection_truncated);
    assert_eq!(ctx.buffer.path, None);
    assert!(ctx.state.is_empty());
}

#[test]
fn nu_ctx_truncates_and_omits_text() {
    let e = editor_at("alpha\nbeta gamma\n", 8, Selection::single(6, 10));
    let ctx = e.build_nu_ctx(&"hook".to_string(), &"h".to_string(), &Vec::new(), true, 2, None, None);
    assert_eq!(ctx.text.line.as_deref(), Some("be"));
    assert!(ctx.text.line_truncated);
    assert_eq!(ctx.text.selection.as_deref(), Some("be"));
    assert!(ctx.text.selection_truncated);

    let ctx = e.build_nu_ctx(&"hook".to_string(), &"h".to_string(), &Vec::new(), false, 2, None, None);
    assert_eq!(ctx.text.line, None);
    assert_eq!(ctx.text.selection, None);

    let p = editor_at("abc", 1, Selection::point(1));
    let ctx = p.build_nu_ctx(&"hook".to_string(), &"h".to_string(), &Vec::new(), true, 10, None, None);
    assert!(!ctx.selection.active);
    assert_eq!(ctx.text.selection, None);
    assert_eq!(ctx.text.line.as_deref(), Some("abc"));
}

fn two_docs_three_views() -> Editor {
    // view 1 and 3 show document 1, view 2 shows document 2.
    let mut e = Editor::from_content(chars("hello world"), None);
    let v2 = e.core.buffers.open_document(chars("second doc"), None);
    assert_eq!(v2, ViewId(2));
    let v3 = e.core.buffers.clone_buffer_for_split(ViewId(1)).unwrap();
    assert_eq!(v3, ViewId(3));
    e
}

#[test]
fn doc_hotness_over_views() {
    let e = two_docs_three_views();
    let recs = e.plan_doc_hotness(&vec![ViewId(3)], &vec![]);
    assert_eq!(recs, vec![(DocumentId(1), SyntaxHotness::Visible), (DocumentId(2), SyntaxHotness::Cold)]);
    let recs = e.plan_doc_hotness(&vec![], &vec![DocumentId(2)]);
    assert_eq!(recs, vec![(DocumentId(1), SyntaxHotness::Cold), (DocumentId(2), SyntaxHotness::Warm)]);
    let recs = e.plan_doc_hotness(&vec![ViewId(2)], &vec![DocumentId(1), DocumentId(2)]);
    assert_eq!(recs, vec![(DocumentId(1), SyntaxHotness::Warm), (DocumentId(2), SyntaxHotness::Visible)]);
    assert!(contains_doc(&vec![DocumentId(4)], DocumentId(4)));
    assert!(!contains_doc(&vec![DocumentId(4)], DocumentId(5)));
}

#[test]
fn doc_viewports_are_hulls_per_document() {
    let e = two_docs_three_views();
    let spans = vec![
        ScreenSpan { view: ViewId(1), start_char: 6, end_char: 8, span_cap: 100 },
        ScreenSpan { view: ViewId(2), start_char: 0, end_char: 3, span_cap: 100 },
        ScreenSpan { view: ViewId(3), start_char: 1, end_char: 2, span_cap: 100 },
        ScreenSpan { view: ViewId(9), start_char: 0, end_char: 5, span_cap: 100 },
    ];
    let recs = e.plan_doc_viewports(&spans);
    assert_eq!(recs, vec![(DocumentId(1), (1, 8)), (DocumentId(2), (0, 3))]);
    let capped = e.plan_doc_viewports(&vec![ScreenSpan { view: ViewId(1), start_char: 0, end_char: 11, span_cap: 4 }]);
    assert_eq!(capped, vec![(DocumentId(1), (0, 4))]);
}

#[test]
fn readonly_overrides_from_sync_state() {
    assert_eq!(readonly_override_for_role(Some(BufferSyncRole::Follower), false), Some(true));
    assert_eq!(readonly_override_for_role(Some(BufferSyncRole::Follower), true), Some(true));
    assert_eq!(readonly_override_for_role(Some(BufferSyncRole::Owner), true), Some(true));
    assert_eq!(readonly_override_for_role(Some(BufferSyncRole::Owner), false), None);
    assert_eq!(readonly_override_for_role(None, true), None);
    assert_eq!(readonly_override_for_status(true), Some(true));
    assert_eq!(readonly_override_for_status(false), None);
}

#[test]
fn orphaned_documents_are_dropped() {
    let mut e = two_docs_three_views();
    assert!(!e.finalize_document_if_orphaned(DocumentId(1)), "still shown");
    let v2 = e.core.buffers.remove_buffer_raw(ViewId(2)).unwrap();
    assert!(e.finalize_document_if_orphaned(v2.doc));
    assert!(e.core.buffers.get_document(DocumentId(2)).is_none());
    assert_eq!(e.core.buffers.docs.len(), 1);
}

#[test]
fn sync_roles_and_disconnects_set_view_overrides() {
    let mut e = Editor::from_content("abc".chars().collect(), None);
    e.split_horizontal_with_clone(true).unwrap();
    let other = e.core.buffers.open_document("x".chars().collect(), None);
    e.update_readonly_for_sync_role(DocumentId(1), Some(BufferSyncRole::Follower), false);
    assert_eq!(e.core.buffers.get_buffer(ViewId(1)).unwrap().readonly_override, Some(true));
    assert_eq!(e.core.buffers.get_buffer(ViewId(2)).unwrap().readonly_override, Some(true));
    assert_eq!(e.core.buffers.get_buffer(other).unwrap().readonly_override, None);
    e.update_readonly_for_shared_state(DocumentId(2), true);
    assert_eq!(e.core.buffers.get_buffer(other).unwrap().readonly_override, Some(true));
    e.update_readonly_for_sync_role(DocumentId(1), Some(BufferSyncRole::Owner), false);
    assert_eq!(e.core.buffers.get_buffer(ViewId(1)).unwrap().readonly_override, None);
    e.update_readonly_for_sync_role(DocumentId(1), Some(BufferSyncRole::Owner), true);
    e.frame.needs_redraw = false;
    e.lift_sync_readonly_overrides(&vec![DocumentId(1)]);
    assert_eq!(e.core.buffers.get_buffer(ViewId(1)).unwrap().readonly_override, None);
    assert_eq!(e.core.buffers.get_buffer(ViewId(2)).unwrap().readonly_override, None);
    assert_eq!(e.core.buffers.get_buffer(other).unwrap().readonly_override, Some(true), "other documents keep theirs");
    assert!(e.frame.needs_redraw);
}

#[test]
fn ensure_syntax_for_buffers_clamps_stale_scroll_line_after_large_delete() {
    let mut e = Editor::new_scratch();
    let mut large = String::new();
    for _ in 0..100_000 {
        large.push_str("line\n");
    }
    e.core.buffers.replace_doc_text(0, large.chars().collect(), false);
    e.core.get_buffer_mut(ViewId(1)).unwrap().scroll_line = 95_800;
    e.core.buffers.replace_doc_text(0, "collapsed\n".chars().collect(), false);
    let stale_start = 95_800 * 5;
    let recs = e.plan_doc_viewports(&vec![ScreenSpan {
        view: ViewId(1),
        start_char: stale_start,
        end_char: stale_start + 24 * 5,
        span_cap: 1 << 20,
    }]);
    assert_eq!(recs, vec![(DocumentId(1), (10, 10))]);
}

#[test]
fn from_content_starts_with_one_fresh_view() {
    let e = Editor::from_content("ab\ncd".chars().collect(), None);
    let b = e.core.buffers.get_buffer(ViewId(1)).unwrap();
    assert_eq!(b.doc, DocumentId(1));
    assert_eq!(b.cursor, 0);
    assert_eq!(b.selection.ranges.len(), 1);
    assert_eq!((b.selection.ranges[0].anchor, b.selection.ranges[0].head), (0, 0));
    assert_eq!(b.mode, InputMode::Normal);
    assert_eq!(b.readonly_override, None);
    assert_eq!(e.core.buffers.focused, ViewId(1));
}

#[test]
fn only_a_hook_context_carries_its_event() {
    let e = editor_at("ab\ncd", 4, Selection::point(4));
    let ev = || Some(NuCtxEvent::ActionPost { name: "go".to_string(), result: "ok".to_string() });
    let ctx = e.build_nu_ctx(&"macro".to_string(), &"go".to_string(), &vec!["x".to_string()], true, 64, None, ev());
    assert!(ctx.event.is_none());
    assert_eq!(ctx.mode, InputMode::Normal);
    assert_eq!(ctx.cursor, NuCtxPosition { line: 1, col: 1 });
    assert!(!ctx.selection.active);
    assert_eq!(ctx.text.line.as_deref(), Some("cd"));
    assert_eq!(ctx.text.selection, None);
    let ctx = e.build_nu_ctx(&"hook".to_string(), &"go".to_string(), &Vec::new(), false, 64, Some("rust".to_string()), ev());
    assert!(matches!(ctx.event, Some(NuCtxEvent::ActionPost { .. })));
    assert_eq!(ctx.buffer.file_type.as_deref(), Some("rust"));
}
