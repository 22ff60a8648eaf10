use xeno_editor::editor::Editor;
use xeno_editor::focus::FocusTarget;
use xeno_editor::ids::{DocumentId, ViewId};
use xeno_editor::navigation::GotoError;
use xeno_editor::splits::SplitError;
use xeno_editor::surface::{
    hover_animation_step, utility_overlay_height_hint, HoverAnimationStep, Location, Rect, UtilityOverlay,
};

fn editor(text: &str) -> Editor {
    Editor::from_content(text.chars().collect(), None)
}

fn focused_buffer(e: &Editor) -> Option<ViewId> {
    match e.focus {
        FocusTarget::Buffer { window, buffer } if window == e.windows.base.id => Some(buffer),
        _ => None,
    }
}

#[test]
fn split_clones_the_focused_view_after_it() {
    let mut e = editor("abc\ndef");
    e.core.get_buffer_mut(ViewId(1)).unwrap().cursor = 5;
    assert_eq!(e.split_horizontal_with_clone(true), Ok(ViewId(2)));
    assert_eq!(e.windows.base.layout, vec![ViewId(1), ViewId(2)]);
    assert_eq!(focused_buffer(&e), Some(ViewId(2)));
    let v2 = e.core.get_buffer(ViewId(2)).unwrap();
    assert_eq!(v2.doc, DocumentId(1));
    assert_eq!(v2.cursor, 5);

    assert_eq!(e.split_vertical_with_clone(true), Ok(ViewId(3)));
    assert_eq!(e.windows.base.layout, vec![ViewId(1), ViewId(2), ViewId(3)]);
}

#[test]
fn split_refused_when_the_area_is_too_small() {
    let mut e = editor("abc");
    assert_eq!(e.split_vertical_with_clone(false), Err(SplitError::AreaTooSmall));
    assert_eq!(e.windows.base.layout, vec![ViewId(1)]);
    assert_eq!(e.core.buffers.views.len(), 1);
}

#[test]
fn closing_the_focused_view_moves_focus_to_its_neighbour() {
    let mut e = editor("abc");
    e.split_horizontal_with_clone(true).unwrap();
    e.split_horizontal_with_clone(true).unwrap();
    assert_eq!(e.windows.base.layout, vec![ViewId(1), ViewId(2), ViewId(3)]);
    assert_eq!(focused_buffer(&e), Some(ViewId(3)));
    let closed = e.close_current_view().expect("closed");
    assert!(closed.orphaned_doc.is_none(), "the document is still shown");
    assert_eq!(e.windows.base.layout, vec![ViewId(1), ViewId(2)]);
    assert_eq!(focused_buffer(&e), Some(ViewId(2)));
    assert!(e.core.get_buffer(ViewId(3)).is_none());
    assert!(e.frame.needs_redraw);

    // The first view hands over to the one after it.
    e.focus_view(ViewId(1));
    e.close_view(ViewId(1)).expect("closed");
    assert_eq!(focused_buffer(&e), Some(ViewId(2)));
}

#[test]
fn closing_an_unfocused_view_keeps_focus() {
    let mut e = editor("abc");
    e.split_horizontal_with_clone(true).unwrap();
    e.focus_view(ViewId(1));
    e.close_buffer(ViewId(2)).expect("closed");
    assert_eq!(focused_buffer(&e), Some(ViewId(1)));
    assert_eq!(e.windows.base.layout, vec![ViewId(1)]);
}

#[test]
fn the_last_view_and_unknown_views_stay() {
    let mut e = editor("abc");
    assert!(e.close_view(ViewId(1)).is_none());
    assert!(e.close_view(ViewId(7)).is_none());
    assert_eq!(e.windows.base.layout, vec![ViewId(1)]);
    assert!(e.core.get_buffer(ViewId(1)).is_some());
}

#[test]
fn closing_the_last_view_of_a_document_reports_it() {
    let mut e = editor("abc");
    let v = e.core.buffers.open_document("other".chars().collect(), None);
    e.windows.base.layout.push(v);
    let closed = e.close_view(v).expect("closed");
    assert_eq!(closed.orphaned_doc, Some(DocumentId(2)));
    assert_eq!(e.windows.base.layout, vec![ViewId(1)]);
}

#[test]
fn goto_location_keeps_the_focused_view_and_loads_the_file() {
    let mut e = Editor::from_content("alpha\n".chars().collect(), Some("/w/a.rs".to_string()));
    let focused = e.core.focused_view();
    let loc = Location::new("/w/b.rs".to_string(), 0, 2);
    assert_eq!(e.goto_location(&loc, None), Err(GotoError::NeedsLoad));
    assert_eq!(e.core.buffers.docs.len(), 1);
    let epoch = e.focus_epoch.0;
    assert_eq!(e.goto_location(&loc, Some(("beta\n".chars().collect(), false))), Ok(focused));
    assert_eq!(e.core.focused_view(), focused);
    let b = e.core.get_buffer(focused).unwrap();
    assert_eq!(b.cursor, 2);
    let doc = e.core.buffers.get_document(b.doc).unwrap();
    assert_eq!(doc.path.as_deref(), Some("/w/b.rs"));
    assert_eq!(doc.text.iter().collect::<String>(), "beta\n");
    assert_eq!(e.core.buffers.docs.len(), 1, "a.rs is no longer shown and is dropped");
    assert_eq!(e.focus_epoch.0, epoch + 1);
}

#[test]
fn goto_location_reuses_an_open_document_without_a_new_view() {
    let mut e = Editor::from_content("scratch".chars().collect(), None);
    let other = e.core.buffers.open_document("line one\nline two\n".chars().collect(), Some("/w/b.rs".to_string()));
    let other_doc = e.core.get_buffer(other).unwrap().doc;
    let focused = e.core.focused_view();
    assert_ne!(focused, other);
    let loc = Location::new("/w/b.rs".to_string(), 1, 99);
    assert_eq!(e.goto_location(&loc, None), Ok(focused));
    let b = e.core.get_buffer(focused).unwrap();
    assert_eq!(b.doc, other_doc);
    assert_eq!(b.cursor, 17, "clamped to the end of line two");
    assert_eq!(e.core.buffers.views.len(), 2);
    // Already there: only the cursor moves.
    let epoch = e.focus_epoch.0;
    assert_eq!(e.goto_location(&Location::new("/w/b.rs".to_string(), 0, 4), None), Ok(focused));
    assert_eq!(e.core.get_buffer(focused).unwrap().cursor, 4);
    assert_eq!(e.focus_epoch.0, epoch);
}

#[test]
fn closing_a_fresh_split_restores_layout_and_focus() {
    let mut e = editor("abc");
    e.split_horizontal_with_clone(true).unwrap();
    e.split_vertical_with_clone(true).unwrap();
    e.focus_view(ViewId(2));
    let before = e.windows.base.layout.clone();
    let id = e.split_vertical_with_clone(true).unwrap();
    assert_eq!(e.windows.base.layout, vec![ViewId(1), ViewId(2), id, ViewId(3)]);
    assert!(e.close_view(id).is_some());
    assert_eq!(e.windows.base.layout, before);
    assert_eq!(focused_buffer(&e), Some(ViewId(2)));
}

#[test]
fn frame_start_records_the_viewport() {
    let mut e = editor("abc");
    e.frame.needs_redraw = true;
    let vp = Rect::new(0, 0, 80, 24);
    let doc = Rect::new(0, 0, 80, 22);
    let plan = e.begin_frontend_frame(vp, 2, doc, Vec::new());
    assert!(!e.frame.needs_redraw);
    assert_eq!(e.viewport.width, Some(80));
    assert_eq!(e.viewport.height, Some(24));
    assert_eq!(e.viewport.doc_area, Some(doc));
    assert_eq!(plan.main_area(), Rect::new(0, 0, 80, 22));
    assert_eq!(plan.status_area(), Rect::new(0, 22, 80, 2));
    assert_eq!(plan.doc_area(), doc);
    assert!(plan.panel_render_plan().is_empty());
}

#[test]
fn hover_changes_pick_the_separator_animation() {
    let a = Rect::new(10, 0, 1, 20);
    let b = Rect::new(30, 0, 1, 20);
    assert_eq!(hover_animation_step(None, Some(a), None), HoverAnimationStep::FadeIn(a));
    assert_eq!(hover_animation_step(Some(a), None, Some(a)), HoverAnimationStep::FadeOutRunning);
    assert_eq!(hover_animation_step(Some(a), None, Some(b)), HoverAnimationStep::FadeOutFrom(a));
    assert_eq!(hover_animation_step(Some(a), None, None), HoverAnimationStep::FadeOutFrom(a));
    assert_eq!(hover_animation_step(Some(a), Some(b), Some(a)), HoverAnimationStep::FadeIn(b));
    assert_eq!(hover_animation_step(Some(a), Some(a), Some(a)), HoverAnimationStep::Keep);
    assert_eq!(hover_animation_step(None, None, None), HoverAnimationStep::Keep);
}

#[test]
fn sync_snapshot_replaces_text_and_clamps_every_view_of_the_document() {
    let mut e = editor("hello world");
    e.core.get_buffer_mut(ViewId(1)).unwrap().set_cursor_and_selection(11);
    e.split_horizontal_with_clone(true).unwrap();
    e.core.get_buffer_mut(ViewId(2)).unwrap().set_cursor_and_selection(3);
    let r = e.apply_sync_snapshot(DocumentId(1), "hey".chars().collect());
    assert_eq!(r, Some(ViewId(1)));
    let doc = e.core.buffers.get_document(DocumentId(1)).unwrap();
    assert_eq!(doc.text.iter().collect::<String>(), "hey");
    assert!(doc.modified);
    assert_eq!(e.core.get_buffer(ViewId(1)).unwrap().cursor, 3);
    assert_eq!(e.core.get_buffer(ViewId(1)).unwrap().selection.ranges[0].head, 3);
    assert_eq!(e.core.get_buffer(ViewId(2)).unwrap().cursor, 3);
    assert_eq!(e.apply_sync_snapshot(DocumentId(7), Vec::new()), None);
}

#[test]
fn utility_overlay_rows_follow_the_overlay_kind() {
    assert_eq!(utility_overlay_height_hint(None), None);
    assert_eq!(utility_overlay_height_hint(Some(UtilityOverlay::Picker { menu_rows: 0 })), Some(1));
    assert_eq!(utility_overlay_height_hint(Some(UtilityOverlay::Picker { menu_rows: 4 })), Some(5));
    assert_eq!(utility_overlay_height_hint(Some(UtilityOverlay::Picker { menu_rows: 9 })), Some(10));
    assert_eq!(utility_overlay_height_hint(Some(UtilityOverlay::Picker { menu_rows: 40 })), Some(10));
    assert_eq!(utility_overlay_height_hint(Some(UtilityOverlay::Panes { panes: 1 })), Some(1));
    assert_eq!(utility_overlay_height_hint(Some(UtilityOverlay::Panes { panes: 3 })), Some(10));
}

#[test]
fn closing_another_view_keeps_focus() {
    let mut e = editor("abc");
    e.split_horizontal_with_clone(true).unwrap();
    let third = e.split_vertical_with_clone(true).unwrap();
    e.focus_view(ViewId(1));
    assert_eq!(focused_buffer(&e), Some(ViewId(1)));
    assert!(e.close_view(third).is_some());
    assert_eq!(focused_buffer(&e), Some(ViewId(1)));
    assert_eq!(e.windows.base.layout, vec![ViewId(1), ViewId(2)]);
}
