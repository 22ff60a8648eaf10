use xeno_editor::editor::Editor;
use xeno_editor::history::{TextChange, UndoPolicy};
use xeno_editor::ids::ViewId;
use xeno_editor::selection::Selection;

fn chars(s: &str) -> Vec<char> {
    s.chars().collect()
}

fn test_editor(content: &str) -> Editor {
    Editor::from_content(chars(content), None)
}

fn insert(at: usize, text: &str) -> TextChange {
    TextChange { start: at, end: at, replacement: chars(text) }
}

fn apply_test_edit(editor: &mut Editor, text: &str, at: usize) -> bool {
    let view = editor.focused_view();
    editor.apply_edit(view, &insert(at, text), None, UndoPolicy::Record)
}

fn set_cursor(editor: &mut Editor, pos: usize) {
    editor.core.buffer_mut().set_cursor_and_selection(pos);
}

fn set_scroll(editor: &mut Editor, line: usize, segment: usize) {
    let buffer = editor.core.buffer_mut();
    buffer.scroll_line = line;
    buffer.scroll_segment = segment;
}

fn get_cursor(editor: &Editor, id: ViewId) -> usize {
    editor.core.get_buffer(id).unwrap().cursor
}

fn get_scroll(editor: &Editor, id: ViewId) -> (usize, usize) {
    let b = editor.core.get_buffer(id).unwrap();
    (b.scroll_line, b.scroll_segment)
}

fn content(editor: &Editor) -> String {
    editor.core.buffers.docs[0].text.iter().collect()
}

#[test]
fn undo_restores_cursor_position() {
    let mut editor = test_editor("hello world");
    set_cursor(&mut editor, 5);
    apply_test_edit(&mut editor, " there", 5);
    assert_eq!(editor.core.undo_manager.undo_len(), 1);
    editor.undo();
    let cursor = get_cursor(&editor, editor.focused_view());
    assert_eq!(cursor, 5, "undo should restore cursor to pre-edit position");
}

#[test]
fn undo_restores_scroll_position() {
    let mut editor = test_editor("line1\nline2\nline3\nline4\nline5");
    set_scroll(&mut editor, 2, 0);
    apply_test_edit(&mut editor, "X", 0);
    editor.undo();
    let (scroll_line, scroll_segment) = get_scroll(&editor, editor.focused_view());
    assert_eq!(scroll_line, 2, "undo should restore scroll_line");
    assert_eq!(scroll_segment, 0, "undo should restore scroll_segment");
}

#[test]
fn undo_restores_view_state_for_multiple_buffers_same_document() {
    let mut editor = test_editor("shared document content");
    let buffer1_id = editor.focused_view();
    set_cursor(&mut editor, 7);
    set_scroll(&mut editor, 0, 0);

    let buffer2_id = editor.core.buffers.clone_buffer_for_split(buffer1_id).unwrap();
    editor.core.buffers.set_focused_view(buffer2_id);
    set_cursor(&mut editor, 15);
    set_scroll(&mut editor, 1, 0);

    apply_test_edit(&mut editor, "X", 0);

    assert_eq!(editor.core.undo_manager.undo_len(), 1);
    let group = editor.core.undo_manager.last_undo_group().expect("should have undo group");
    assert_eq!(group.view_snapshots.len(), 2, "undo group should have snapshots for both buffers");
    assert!(group.has_snapshot(buffer1_id));
    assert!(group.has_snapshot(buffer2_id));

    editor.undo();

    assert_eq!(get_cursor(&editor, buffer1_id), 7, "buffer1 cursor should be restored");
    assert_eq!(get_cursor(&editor, buffer2_id), 15, "buffer2 cursor should be restored");
    assert_eq!(get_scroll(&editor, buffer1_id), (0, 0), "buffer1 scroll should be restored");
    assert_eq!(get_scroll(&editor, buffer2_id), (1, 0), "buffer2 scroll should be restored");
}

#[test]
fn redo_restores_view_state() {
    let mut editor = test_editor("hello world");
    set_cursor(&mut editor, 5);
    set_scroll(&mut editor, 0, 0);
    apply_test_edit(&mut editor, " there", 5);
    set_cursor(&mut editor, 10);
    set_scroll(&mut editor, 1, 0);

    editor.undo();
    assert_eq!(get_cursor(&editor, editor.focused_view()), 5);

    editor.redo();
    assert_eq!(get_cursor(&editor, editor.focused_view()), 10, "redo should restore cursor from before undo");
    assert_eq!(get_scroll(&editor, editor.focused_view()), (1, 0), "redo should restore scroll from before undo");
}

#[test]
fn redo_stack_clears_on_new_edit() {
    let mut editor = test_editor("hello");
    apply_test_edit(&mut editor, " world", 5);
    assert_eq!(editor.core.undo_manager.undo_len(), 1);
    editor.undo();
    assert_eq!(editor.core.undo_manager.redo_len(), 1, "redo stack should have one entry after undo");
    apply_test_edit(&mut editor, "!", 5);
    assert!(!editor.core.undo_manager.can_redo(), "new edit should clear redo stack");
}

#[test]
fn redo_stack_clears_only_when_group_pushed() {
    let mut editor = test_editor("hello");
    apply_test_edit(&mut editor, " world", 5);
    editor.undo();
    assert_eq!(editor.core.undo_manager.redo_len(), 1);

    let view = editor.focused_view();
    editor.apply_edit(view, &insert(0, "X"), None, UndoPolicy::NoUndo);
    assert_eq!(editor.core.undo_manager.redo_len(), 1, "NoUndo edit should not clear redo stack");
}

#[test]
fn merge_with_current_group_creates_single_undo_group_for_consecutive_inserts() {
    let mut editor = test_editor("hello");
    let view = editor.focused_view();
    editor.apply_edit(view, &insert(5, "A"), None, UndoPolicy::MergeWithCurrentGroup);
    assert_eq!(editor.core.undo_manager.undo_len(), 1, "first MergeWithCurrentGroup should create group");
    editor.apply_edit(view, &insert(6, "B"), None, UndoPolicy::MergeWithCurrentGroup);
    assert_eq!(editor.core.undo_manager.undo_len(), 1, "consecutive MergeWithCurrentGroup should NOT create new group");
    editor.undo();
    assert_eq!(content(&editor), "hello", "single undo should revert both merged edits");
}

#[test]
fn record_policy_breaks_merge_group() {
    let mut editor = test_editor("hello");
    let view = editor.focused_view();
    editor.apply_edit(view, &insert(5, "A"), None, UndoPolicy::MergeWithCurrentGroup);
    editor.apply_edit(view, &insert(6, "B"), None, UndoPolicy::Record);
    assert_eq!(editor.core.undo_manager.undo_len(), 2, "Record policy should create new group");
}

#[test]
fn sibling_selection_sync_after_apply() {
    let mut editor = test_editor("abcd");
    let buffer1_id = editor.focused_view();
    let buffer2_id = editor.core.buffers.clone_buffer_for_split(buffer1_id).unwrap();
    {
        let buffer = editor.core.get_buffer_mut(buffer2_id).expect("split buffer exists");
        buffer.cursor = 3;
        buffer.selection = Selection::single(1, 3);
    }
    editor.core.get_buffer_mut(buffer1_id).unwrap().set_cursor_and_selection(0);

    let applied = editor.apply_edit(buffer1_id, &insert(0, "Z"), Some(Selection::point(1)), UndoPolicy::Record);
    assert!(applied);

    let buffer2 = editor.core.get_buffer(buffer2_id).expect("split buffer exists");
    assert_eq!(buffer2.selection.ranges, Selection::single(2, 4).ranges);
    assert_eq!(buffer2.cursor, 4);
    let buffer1 = editor.core.get_buffer(buffer1_id).unwrap();
    assert_eq!(buffer1.cursor, 1);
}

#[test]
fn undo_redo_round_trip_over_several_edits() {
    let mut editor = test_editor("");
    let view = editor.focused_view();
    let steps = [(0usize, "ab"), (1, "xyz"), (5, "q"), (0, "mm")];
    for (at, text) in steps.iter() {
        set_cursor(&mut editor, *at);
        assert!(editor.apply_edit(view, &insert(*at, text), None, UndoPolicy::Record));
    }
    let final_text = content(&editor);
    let final_cursor = get_cursor(&editor, view);
    for _ in 0..steps.len() {
        assert!(editor.undo());
    }
    assert_eq!(content(&editor), "");
    assert!(!editor.undo(), "nothing left to undo");
    for _ in 0..steps.len() {
        assert!(editor.redo());
    }
    assert_eq!(content(&editor), final_text);
    assert_eq!(get_cursor(&editor, view), final_cursor);
    assert!(!editor.redo(), "nothing left to redo");
}

#[test]
fn readonly_document_refuses_edit_and_undo_changes_nothing() {
    let mut editor = test_editor("abc");
    editor.core.buffers.docs[0].readonly = true;
    let view = editor.focused_view();
    assert!(!editor.apply_edit(view, &insert(0, "X"), None, UndoPolicy::Record));
    assert_eq!(content(&editor), "abc");
    assert_eq!(editor.core.undo_manager.undo_len(), 0);
}

#[test]
fn deletion_maps_positions_inside_span_to_its_start() {
    let mut editor = test_editor("0123456789");
    let view = editor.focused_view();
    set_cursor(&mut editor, 5);
    let change = TextChange { start: 2, end: 7, replacement: chars("ab") };
    assert!(editor.apply_edit(view, &change, None, UndoPolicy::Record));
    assert_eq!(content(&editor), "01ab789");
    assert_eq!(get_cursor(&editor, view), 2);
    editor.undo();
    assert_eq!(content(&editor), "0123456789");
    assert_eq!(get_cursor(&editor, view), 5);
}

#[test]
fn restore_view_undoes_view_only_changes() {
    let mut e = Editor::from_content("hello world".chars().collect(), None);
    let b = e.core.get_buffer_mut(ViewId(1)).unwrap();
    b.set_cursor_and_selection(4);
    b.scroll_line = 2;
    let snap = b.snapshot_view();
    b.set_cursor_and_selection(9);
    b.scroll_line = 0;
    b.restore_view(&snap, 11);
    assert_eq!(b.cursor, 4);
    assert_eq!((b.selection.ranges[0].anchor, b.selection.ranges[0].head), (4, 4));
    assert_eq!(b.scroll_line, 2);
    b.restore_view(&snap, 2);
    assert_eq!(b.cursor, 2, "clamped into a shorter text");
    assert_eq!((b.selection.ranges[0].anchor, b.selection.ranges[0].head), (2, 2));
}

#[test]
fn insert_group_boundaries() {
    let mut editor = Editor::from_content(Vec::new(), None);
    let view = ViewId(1);
    let plan = [
        UndoPolicy::Record,
        UndoPolicy::MergeWithCurrentGroup,
        UndoPolicy::MergeWithCurrentGroup,
        UndoPolicy::Record,
        UndoPolicy::MergeWithCurrentGroup,
    ];
    for (i, p) in plan.iter().enumerate() {
        assert!(editor.apply_edit(view, &insert(i, "x"), None, *p));
    }
    assert_eq!(editor.core.undo_manager.undo_len(), 4, "two recorded edits and two runs of merged ones");
}
