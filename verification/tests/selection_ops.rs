use xeno_editor::buffer::InputMode;
use xeno_editor::editor::Editor;
use xeno_editor::file_ops::{delete_plan, rename_plan, resolve_path, FileOpError};
use xeno_editor::selection::{Range, Selection};
use xeno_editor::selection_ops::SelectionOp;

fn chars(s: &str) -> Vec<char> {
    s.chars().collect()
}

fn editor_at(text: &str, sel: Selection) -> Editor {
    let mut e = Editor::from_content(chars(text), None);
    let v = e.focused_view();
    e.core.get_buffer_mut(v).unwrap().selection = sel;
    e
}

fn ranges(e: &Editor) -> Vec<Range> {
    let v = e.focused_view();
    e.core.get_buffer(v).unwrap().selection.ranges.clone()
}

/// Applies `op` with the focused view in Normal mode when `normal`, else in
/// Insert mode.
fn apply_in(e: &mut Editor, op: SelectionOp, normal: bool) -> bool {
    let v = e.focused_view();
    e.core.get_buffer_mut(v).unwrap().mode = if normal { InputMode::Normal } else { InputMode::Insert };
    e.apply_selection_op(op)
}

fn pt(p: usize) -> Range {
    Range { anchor: p, head: p }
}

#[test]
fn line_start_and_end_moves() {
    let mut e = editor_at("abc\ndefg\n", Selection::point(6));
    assert!(apply_in(&mut e, SelectionOp::ToLineStart, false));
    assert_eq!(ranges(&e), vec![pt(4)]);
    assert!(apply_in(&mut e, SelectionOp::ToLineEnd, false));
    assert_eq!(ranges(&e), vec![pt(8)]);
}

#[test]
fn extend_moves_heads_and_keeps_anchors() {
    let mut e = editor_at("abcdef", Selection::single(1, 2));
    assert!(apply_in(&mut e, SelectionOp::Extend { forward: true, count: 10 }, false));
    assert_eq!(ranges(&e), vec![Range { anchor: 1, head: 6 }]);
    assert!(apply_in(&mut e, SelectionOp::Extend { forward: true, count: 1 }, true));
    assert_eq!(ranges(&e), vec![Range { anchor: 1, head: 5 }], "normal mode keeps the head on a char");
    assert!(apply_in(&mut e, SelectionOp::Extend { forward: false, count: 3 }, false));
    assert_eq!(ranges(&e), vec![Range { anchor: 1, head: 2 }]);
}

#[test]
fn char_before_and_after_drop_ranges_at_the_edges() {
    let mut e = editor_at("ab", Selection::from_vec(vec![pt(0), pt(2)], 1));
    assert!(apply_in(&mut e, SelectionOp::SelectCharBefore, false));
    assert_eq!(ranges(&e), vec![pt(1)]);
    let mut e = editor_at("ab", Selection::point(2));
    assert!(!apply_in(&mut e, SelectionOp::SelectCharAfter, false));
    assert_eq!(ranges(&e), vec![pt(2)], "nothing changes when no target is left");
}

#[test]
fn full_lines_next_line_start_and_position_after() {
    let mut e = editor_at("ab\ncd\nef", Selection::single(1, 4));
    assert!(apply_in(&mut e, SelectionOp::ExpandToFullLines, false));
    assert_eq!(ranges(&e), vec![Range { anchor: 0, head: 6 }]);
    let mut e = editor_at("ab\ncd", Selection::point(1));
    assert!(apply_in(&mut e, SelectionOp::SelectToNextLineStart, false));
    assert_eq!(ranges(&e), vec![Range { anchor: 2, head: 3 }], "the line break itself");
    let mut last = editor_at("ab\ncd", Selection::point(4));
    assert!(!apply_in(&mut last, SelectionOp::SelectToNextLineStart, false), "no line after the last");
    assert_eq!(ranges(&last), vec![pt(4)]);
    let mut e = editor_at("ab", Selection::point(2));
    assert!(apply_in(&mut e, SelectionOp::PositionAfterCursor, false));
    assert_eq!(ranges(&e), vec![pt(2)]);
    assert!(apply_in(&mut e, SelectionOp::PositionAfterCursor, true));
    assert_eq!(ranges(&e), vec![pt(1)]);
    assert!(apply_in(&mut e, SelectionOp::NoOp, false));
}

#[test]
fn relative_paths_resolve_against_the_files_directory() {
    let s = |x: &str| x.to_string();
    assert_eq!(resolve_path(&s("/tmp/a/old.txt"), &s("new.txt")), "/tmp/a/new.txt");
    assert_eq!(resolve_path(&s("/tmp/a/old.txt"), &s("sub/new.txt")), "/tmp/a/sub/new.txt");
    assert_eq!(resolve_path(&s("/tmp/a/old.txt"), &s("/abs.txt")), "/abs.txt");
    assert_eq!(resolve_path(&s("old.txt"), &s("new.txt")), "new.txt");
    assert_eq!(resolve_path(&s("/old.txt"), &s("new.txt")), "/new.txt");
}

#[test]
fn rename_checks() {
    let old = Some("/tmp/x/mod.txt".to_string());
    assert!(matches!(rename_plan(&None, false, &"a".to_string()), Err(FileOpError::InvalidArgument(_))));
    match rename_plan(&old, true, &"b.txt".to_string()) {
        Err(FileOpError::Failed(m)) => assert_eq!(m, "Buffer has unsaved changes \u{2014} save first"),
        other => panic!("expected refusal, got {other:?}"),
    }
    assert!(matches!(rename_plan(&old, false, &"mod.txt".to_string()), Ok(None)));
    match rename_plan(&old, false, &"sub/new.txt".to_string()) {
        Ok(Some((a, b))) => {
            assert_eq!(a, "/tmp/x/mod.txt");
            assert_eq!(b, "/tmp/x/sub/new.txt");
        }
        other => panic!("expected a rename, got {other:?}"),
    }
}

#[test]
fn delete_checks() {
    assert!(matches!(delete_plan(&None, false), Err(FileOpError::InvalidArgument(_))));
    assert!(matches!(delete_plan(&Some("/f".to_string()), true), Err(FileOpError::Failed(_))));
    assert_eq!(delete_plan(&Some("/f".to_string()), false).unwrap(), "/f");
}

#[test]
fn set_focused_path_renames_the_document() {
    let mut e = Editor::from_content(chars("x"), Some("/a.txt".to_string()));
    e.set_focused_path("/b.txt".to_string());
    assert_eq!(e.core.buffers.docs[0].path.as_deref(), Some("/b.txt"));
}
