use xeno_editor::editor::Editor;
use xeno_editor::focus::{FocusEffect, FocusEpoch, FocusReason, FocusTarget};
use xeno_editor::ids::ViewId;

#[test]
fn test_set_focus_normalizes_invalid_buffer() {
    let mut editor = Editor::new_scratch();
    let buffer1 = editor.focused_view();
    let base_id = editor.windows.base_id();

    let buffer2 = editor.core.buffers.create_scratch();
    editor.focus = FocusTarget::Buffer { window: base_id, buffer: buffer2 };
    editor.windows.base.focused_buffer = buffer2;
    assert_eq!(editor.focused_view(), buffer2);

    editor.finalize_buffer_removal(buffer2);

    let (result, _effects) =
        editor.set_focus(FocusTarget::Buffer { window: base_id, buffer: buffer2 }, FocusReason::Programmatic);
    assert!(result, "set_focus should return true when focus changes");
    assert!(
        matches!(editor.focus, FocusTarget::Buffer { window, buffer } if window == base_id && buffer == buffer1),
        "state.focus should be normalized to buffer1"
    );
    assert_eq!(editor.focused_view(), buffer1, "focused_view() should return buffer1");
    assert!(editor.core.buffers.get_buffer(editor.focused_view()).is_some());
}

#[test]
fn test_set_focus_creates_scratch_when_no_buffers() {
    let mut editor = Editor::new_scratch();
    let buffer1 = editor.focused_view();
    editor.finalize_buffer_removal(buffer1);

    let base = editor.windows.base_id();
    let (result, _effects) =
        editor.set_focus(FocusTarget::Buffer { window: base, buffer: buffer1 }, FocusReason::Programmatic);
    assert!(result);
    let new_focus = editor.focused_view();
    assert!(new_focus != buffer1);
    assert!(editor.core.buffers.get_buffer(new_focus).is_some());
}

#[test]
fn focus_epoch_advances_only_on_change() {
    let mut editor = Editor::new_scratch();
    let base = editor.windows.base_id();
    let v = editor.focused_view();
    let before = editor.focus_epoch;
    let (changed, _) = editor.set_focus(FocusTarget::Buffer { window: base, buffer: v }, FocusReason::Click);
    assert!(!changed);
    assert_eq!(editor.focus_epoch, before);
    let mut e = FocusEpoch::initial();
    e.increment();
    assert_eq!(e, FocusEpoch(1));
}

#[test]
fn fresh_lease_resolves_to_the_leased_view() {
    let editor = Editor::new_scratch();
    let lease = editor.lease_focused_view().expect("focused view exists");
    assert_eq!(lease.preferred_view, editor.focused_view());
    assert_eq!(editor.resolve_lease(&lease), Some(editor.focused_view()));
}

#[test]
fn lease_falls_back_to_another_view_of_the_document() {
    let mut editor = Editor::new_scratch();
    let v1 = editor.focused_view();
    let lease = editor.lease_focused_view().unwrap();
    let v2 = editor.core.buffers.clone_buffer_for_split(v1).unwrap();
    editor.finalize_buffer_removal(v1);
    assert_eq!(editor.resolve_lease(&lease), Some(v2));
    editor.finalize_buffer_removal(v2);
    assert_eq!(editor.resolve_lease(&lease), None);
}

#[test]
fn removing_last_view_of_document_reports_orphan() {
    let mut editor = Editor::new_scratch();
    let v1 = editor.focused_view();
    let doc = editor.core.get_buffer(v1).unwrap().doc;
    let v2 = editor.core.buffers.clone_buffer_for_split(v1).unwrap();
    assert_eq!(editor.finalize_buffer_removal(v1), None);
    assert_eq!(editor.finalize_buffer_removal(v2), Some(doc));
    assert_eq!(editor.finalize_buffer_removal(v2), None);
}

#[test]
fn invariants_check_detects_removed_focus_and_repair_refocuses() {
    let mut editor = Editor::new_scratch();
    assert!(editor.check_invariants());
    let v = editor.focused_view();
    editor.finalize_buffer_removal(v);
    assert!(!editor.check_invariants());
    let _effects = editor.repair_invariants();
    assert!(editor.core.buffers.get_buffer(editor.focused_view()).is_some());
    assert!(editor.core.buffers.get_buffer(editor.windows.base.focused_buffer).is_some());
}

#[test]
fn focus_next_and_prev_cycle_through_layout() {
    let mut editor = Editor::new_scratch();
    let v1 = editor.focused_view();
    let v2 = editor.core.buffers.clone_buffer_for_split(v1).unwrap();
    editor.windows.base.layout.push(v2);
    let (changed, _) = editor.focus_next_view();
    assert!(changed);
    assert_eq!(editor.focused_view(), v2);
    let (changed, _) = editor.focus_next_view();
    assert!(changed);
    assert_eq!(editor.focused_view(), v1);
    let (changed, _) = editor.focus_prev_view();
    assert!(changed);
    assert_eq!(editor.focused_view(), v2);
}

#[test]
fn focus_next_and_prev_buffer_follow_the_layout() {
    let mut editor = Editor::new_scratch();
    let v1 = editor.focused_view();
    let v2 = editor.core.buffers.clone_buffer_for_split(v1).unwrap();
    let v3 = editor.core.buffers.clone_buffer_for_split(v1).unwrap();
    editor.windows.base.layout.push(v2);
    editor.windows.base.layout.push(v3);
    editor.focus_next_buffer();
    assert_eq!(editor.focused_view(), v2);
    editor.focus_prev_buffer();
    editor.focus_prev_buffer();
    assert_eq!(editor.focused_view(), v3);
}

#[test]
fn leaving_a_dismiss_on_blur_window_closes_it() {
    let mut e = Editor::from_content("abc".chars().collect(), None);
    let base = e.windows.base.id;
    let float = e.windows.create_floating(ViewId(1), true);
    let from = FocusTarget::Buffer { window: float, buffer: ViewId(1) };
    let to = FocusTarget::Buffer { window: base, buffer: ViewId(1) };
    let effects = e.handle_window_focus_change(&from, &to);
    assert_eq!(effects.len(), 3);
    assert!(matches!(effects[0], FocusEffect::WindowFocusChanged { window, focused: false } if window == float));
    assert!(matches!(effects[1], FocusEffect::WindowFocusChanged { window, focused: true } if window == base));
    assert!(matches!(effects[2], FocusEffect::FloatingWindowClosed(w) if w == float));
    assert!(e.windows.floating.is_empty());
    assert!(e.handle_window_focus_change(&to, &to).is_empty());
}
