use xeno_editor::buffer::InputMode;
use xeno_editor::editor::Editor;
use xeno_editor::focus::FocusTarget;
use xeno_editor::ids::ViewId;
use xeno_editor::lsp_sync::{choose_sync_mode, plan_immediate_change, retry_mode, IncrementalLimits, LspSyncMode};
use xeno_editor::prompt::{trim_whitespace, PromptKind, PromptOutcome};
use xeno_editor::selection::{Range, Selection};

fn chars(s: &str) -> Vec<char> {
    s.chars().collect()
}

fn sized_editor(text: &str) -> Editor {
    let mut e = Editor::from_content(chars(text), None);
    e.handle_window_resize(80, 24);
    e
}

fn place(e: &mut Editor, cursor: usize, sel: Selection) {
    let v = e.focused_view();
    let b = e.core.get_buffer_mut(v).unwrap();
    b.cursor = cursor;
    b.selection = sel;
}

fn type_into_prompt(e: &mut Editor, text: &str) {
    let pid = e.prompt.as_ref().unwrap().prompt.buffer_id;
    let doc = e.core.buffers.get_buffer(pid).unwrap().doc;
    let d = e.core.buffers.docs.iter_mut().find(|d| d.id == doc).unwrap();
    d.text = chars(text);
}

fn view_state(e: &Editor, id: ViewId) -> (usize, Vec<Range>) {
    let b = e.core.buffers.get_buffer(id).unwrap();
    (b.cursor, b.selection.ranges.clone())
}

#[test]
fn search_prompt_needs_a_known_terminal_size() {
    let mut e = Editor::from_content(chars("abc"), None);
    assert!(!e.open_search_prompt(false));
    assert!(!e.prompt_is_open());
    e.handle_window_resize(80, 24);
    assert!(e.open_search_prompt(false));
    assert!(e.prompt_is_open());
    assert!(!e.open_search_prompt(true), "only one prompt at a time");
}

#[test]
fn search_prompt_takes_focus_in_a_floating_window() {
    let mut e = sized_editor("abc");
    assert!(e.open_search_prompt(true));
    let st = e.prompt.as_ref().unwrap();
    assert_eq!(st.prompt.kind, PromptKind::Search { target_buffer: ViewId(1), reverse: true });
    let pid = st.prompt.buffer_id;
    let wid = st.prompt.window_id;
    assert!(matches!(e.focus, FocusTarget::Buffer { window, buffer } if window == wid && buffer == pid));
    assert_eq!(e.windows.floating.len(), 1);
    assert!(e.windows.floating[0].dismiss_on_blur);
    assert!(e.frame.sticky_views.contains(&pid));
    assert!(e.frame.needs_redraw);
}

#[test]
fn confirmed_search_selects_the_next_match() {
    let mut e = sized_editor("hello world hello");
    place(&mut e, 0, Selection::point(0));
    assert!(e.open_search_prompt(false));
    let pid = e.prompt.as_ref().unwrap().prompt.buffer_id;
    type_into_prompt(&mut e, "hello\n");
    match e.execute_prompt() {
        PromptOutcome::Found { pattern, reverse } => {
            assert_eq!(pattern, "hello");
            assert!(!reverse);
        }
        other => panic!("unexpected {:?}", other),
    }
    assert_eq!(view_state(&e, ViewId(1)), (12, vec![Range { anchor: 12, head: 17 }]));
    assert!(!e.prompt_is_open());
    assert!(e.core.buffers.get_buffer(pid).is_none());
    assert!(e.windows.floating.is_empty());
    let base = e.windows.base.id;
    assert!(matches!(e.focus, FocusTarget::Buffer { window, buffer } if window == base && buffer == ViewId(1)));
    assert_eq!(e.core.buffers.docs.len(), 1, "the prompt's document is dropped");
}

#[test]
fn confirmed_reverse_search_selects_the_previous_match() {
    let mut e = sized_editor("ab ab ab");
    place(&mut e, 6, Selection::point(6));
    assert!(e.open_search_prompt(true));
    type_into_prompt(&mut e, "ab");
    assert!(matches!(e.execute_prompt(), PromptOutcome::Found { reverse: true, .. }));
    assert_eq!(view_state(&e, ViewId(1)), (3, vec![Range { anchor: 3, head: 5 }]));
}

#[test]
fn unmatched_search_goes_back_to_the_origin() {
    let mut e = sized_editor("abc abc");
    place(&mut e, 1, Selection::single(1, 3));
    assert!(e.open_search_prompt(false));
    type_into_prompt(&mut e, "zzz");
    match e.execute_prompt() {
        PromptOutcome::NotFound { pattern, reverse } => {
            assert_eq!(pattern, "zzz");
            assert!(!reverse);
        }
        other => panic!("unexpected {:?}", other),
    }
    assert_eq!(view_state(&e, ViewId(1)), (1, vec![Range { anchor: 1, head: 3 }]));
    assert!(!e.prompt_is_open());
}

#[test]
fn invalid_pattern_reports_the_regex_error() {
    let mut e = sized_editor("abc");
    assert!(e.open_search_prompt(false));
    type_into_prompt(&mut e, "(");
    match e.execute_prompt() {
        PromptOutcome::RegexError(msg) => assert!(!msg.is_empty()),
        other => panic!("unexpected {:?}", other),
    }
    assert!(!e.prompt_is_open());
}

#[test]
fn blank_search_input_cancels() {
    let mut e = sized_editor("abc");
    place(&mut e, 2, Selection::point(2));
    assert!(e.open_search_prompt(false));
    type_into_prompt(&mut e, "  \n\n");
    assert!(matches!(e.execute_prompt(), PromptOutcome::Cancelled));
    assert_eq!(view_state(&e, ViewId(1)), (2, vec![Range { anchor: 2, head: 2 }]));
    assert!(matches!(e.execute_prompt(), PromptOutcome::NotOpen));
}

#[test]
fn close_prompt_restores_the_origin_on_request() {
    let mut e = sized_editor("one two");
    place(&mut e, 4, Selection::point(4));
    assert!(e.open_search_prompt(false));
    let b = e.core.get_buffer_mut(ViewId(1)).unwrap();
    b.cursor = 0;
    b.selection = Selection::single(0, 3);
    e.close_prompt(true);
    assert_eq!(view_state(&e, ViewId(1)), (4, vec![Range { anchor: 4, head: 4 }]));

    let mut e = sized_editor("one two");
    assert!(e.open_search_prompt(false));
    let b = e.core.get_buffer_mut(ViewId(1)).unwrap();
    b.cursor = 3;
    e.close_prompt(false);
    assert_eq!(view_state(&e, ViewId(1)).0, 3);
}

#[test]
fn rename_prompt_refused_without_support() {
    let mut e = sized_editor("let value = 1;");
    let (opened, warning) = e.open_rename_prompt(false);
    assert!(!opened);
    assert_eq!(warning.as_deref(), Some("Rename not supported for this buffer"));
    assert!(!e.prompt_is_open());
}

#[test]
fn rename_prompt_starts_with_the_word_at_the_cursor() {
    let mut e = sized_editor("let value = 1;");
    place(&mut e, 6, Selection::point(6));
    assert_eq!(e.open_rename_prompt(true), (true, None));
    let st = e.prompt.as_ref().unwrap();
    assert_eq!(st.prompt.kind, PromptKind::Rename { target_buffer: ViewId(1), position: 6 });
    assert!(st.search.is_none());
    let pid = st.prompt.buffer_id;
    let pb = e.core.buffers.get_buffer(pid).unwrap();
    assert_eq!(pb.cursor, 5);
    assert_eq!(pb.selection.ranges, vec![Range { anchor: 0, head: 5 }]);
    let text: String = e.core.buffers.get_document(pb.doc).unwrap().text.iter().collect();
    assert_eq!(text, "value");

    type_into_prompt(&mut e, " amount \n");
    match e.execute_prompt() {
        PromptOutcome::Rename { target_buffer, position, new_name } => {
            assert_eq!(target_buffer, ViewId(1));
            assert_eq!(position, 6);
            assert_eq!(new_name, "amount");
        }
        other => panic!("unexpected {:?}", other),
    }
    assert!(!e.prompt_is_open());
}

#[test]
fn whitespace_is_trimmed_on_both_sides() {
    assert_eq!(trim_whitespace(&chars(" \t a b \n")), chars("a b"));
    assert_eq!(trim_whitespace(&chars("   ")), Vec::<char>::new());
}

#[test]
fn immediate_sync_mode_choice() {
    let limits = IncrementalLimits { max_changes: 3, max_bytes: 10 };
    assert_eq!(choose_sync_mode(false, true, &vec![2, 3], limits), LspSyncMode::Incremental);
    assert_eq!(choose_sync_mode(false, true, &vec![5, 5], limits), LspSyncMode::Incremental);
    assert_eq!(choose_sync_mode(false, true, &vec![5, 6], limits), LspSyncMode::Full);
    assert_eq!(choose_sync_mode(false, true, &vec![1, 1, 1, 1], limits), LspSyncMode::Full);
    assert_eq!(choose_sync_mode(false, true, &vec![], limits), LspSyncMode::Full);
    assert_eq!(choose_sync_mode(true, true, &vec![1], limits), LspSyncMode::Full);
    assert_eq!(choose_sync_mode(false, false, &vec![1], limits), LspSyncMode::Full);
    assert_eq!(choose_sync_mode(false, true, &vec![usize::MAX, 1], limits), LspSyncMode::Full);
}

#[test]
fn immediate_sync_needs_path_language_and_pending_changes() {
    let limits = IncrementalLimits { max_changes: 3, max_bytes: 10 };
    assert_eq!(plan_immediate_change(true, true, true, false, true, &vec![1], limits), Some(LspSyncMode::Incremental));
    assert_eq!(plan_immediate_change(false, true, true, false, true, &vec![1], limits), None);
    assert_eq!(plan_immediate_change(true, false, true, false, true, &vec![1], limits), None);
    assert_eq!(plan_immediate_change(true, true, false, false, true, &vec![1], limits), None);
    assert_eq!(retry_mode(LspSyncMode::Incremental, true), Some(LspSyncMode::Full));
    assert_eq!(retry_mode(LspSyncMode::Full, true), None);
    assert_eq!(retry_mode(LspSyncMode::Incremental, false), None);
}

fn prompt_text(e: &Editor) -> String {
    let pid = e.prompt.as_ref().unwrap().prompt.buffer_id;
    let b = e.core.buffers.get_buffer(pid).unwrap();
    let text: String = e.core.buffers.get_document(b.doc).unwrap().text.iter().collect();
    text.trim_end_matches('\n').to_string()
}

fn open_rename_overlay(e: &mut Editor) {
    assert_eq!(e.open_rename_prompt(true), (true, None));
}

#[test]
fn prepare_rename_placeholder_replaces_untouched_prompt() {
    let mut editor = sized_editor("myVar");
    open_rename_overlay(&mut editor);
    assert_eq!(prompt_text(&editor), "myVar");
    editor.apply_prepare_rename_response(Some(chars("serverName")), Some((0, 0)), &chars("myVar"));
    assert_eq!(prompt_text(&editor), "serverName", "placeholder should replace untouched prompt");
    let pid = editor.prompt.as_ref().unwrap().prompt.buffer_id;
    let pb = editor.core.buffers.get_buffer(pid).unwrap();
    assert_eq!(pb.cursor, 10);
    assert_eq!(pb.selection.ranges, vec![Range { anchor: 0, head: 10 }]);
}

#[test]
fn prepare_rename_placeholder_does_not_clobber_user_edits() {
    let mut editor = sized_editor("myVar");
    open_rename_overlay(&mut editor);
    type_into_prompt(&mut editor, "userTyped");
    editor.apply_prepare_rename_response(Some(chars("serverName")), Some((0, 0)), &chars("myVar"));
    assert_eq!(prompt_text(&editor), "userTyped", "user edits must not be clobbered");
}

#[test]
fn prepare_rename_range_selects_the_symbol_in_the_target() {
    let mut editor = sized_editor("let value = 1;");
    place(&mut editor, 6, Selection::point(6));
    open_rename_overlay(&mut editor);
    editor.apply_prepare_rename_response(None, Some((4, 9)), &chars("value"));
    assert_eq!(view_state(&editor, ViewId(1)), (6, vec![Range { anchor: 4, head: 9 }]));
    assert_eq!(prompt_text(&editor), "value");
}

#[test]
fn prompts_type_in_insert_mode_and_submit_records_the_search() {
    let mut e = sized_editor("one two one");
    assert!(e.open_search_prompt(false));
    let pid = e.prompt.as_ref().unwrap().prompt.buffer_id;
    assert_eq!(e.core.buffers.get_buffer(pid).unwrap().mode, InputMode::Insert);
    type_into_prompt(&mut e, "one\n");
    assert!(matches!(e.execute_prompt(), PromptOutcome::Found { .. }));
    let b = e.core.buffers.get_buffer(ViewId(1)).unwrap();
    assert_eq!(b.mode, InputMode::Normal);
    assert_eq!(b.last_search, Some((String::from("one"), false)));

    assert!(e.open_search_prompt(true));
    type_into_prompt(&mut e, "zzz");
    assert!(matches!(e.execute_prompt(), PromptOutcome::NotFound { .. }));
    let b = e.core.buffers.get_buffer(ViewId(1)).unwrap();
    assert_eq!(b.last_search, Some((String::from("zzz"), true)), "recorded even without a match");

    assert!(e.open_search_prompt(false));
    type_into_prompt(&mut e, "  ");
    assert!(matches!(e.execute_prompt(), PromptOutcome::Cancelled));
    let b = e.core.buffers.get_buffer(ViewId(1)).unwrap();
    assert_eq!(b.last_search, Some((String::from("zzz"), true)), "a cancelled search records nothing");
}

#[test]
fn rename_prompt_opens_in_insert_mode() {
    let mut e = sized_editor("hello world");
    assert!(e.open_rename_prompt(true).0);
    let pid = e.prompt.as_ref().unwrap().prompt.buffer_id;
    assert_eq!(e.core.buffers.get_buffer(pid).unwrap().mode, InputMode::Insert);
    e.close_prompt(false);
    assert_eq!(e.core.buffers.get_buffer(ViewId(1)).unwrap().mode, InputMode::Normal);
}
