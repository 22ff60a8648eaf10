use xeno_editor::editor::Editor;
use xeno_editor::file_load::LoadOutcome;
use xeno_editor::ids::ViewId;

fn chars(s: &str) -> Vec<char> {
    s.chars().collect()
}

fn text_of(editor: &Editor, view: ViewId) -> String {
    let doc = editor.core.get_buffer(view).unwrap().doc;
    let d = editor.core.buffers.get_document(doc).unwrap();
    d.text.iter().collect()
}

fn open(editor: &mut Editor, path: &str) -> ViewId {
    editor.core.buffers.open_document(Vec::new(), Some(path.to_string()))
}

#[test]
fn file_loaded_stale_token_is_ignored() {
    let mut editor = Editor::new_scratch();
    let path = "/tmp/test_stale.txt".to_string();
    let view_id = open(&mut editor, &path);

    editor.loads.insert(path.clone(), 2);

    let out = editor.apply_loaded_file(&path, chars("stale content"), false, 1);
    assert_eq!(out, LoadOutcome::Stale);
    assert_ne!(text_of(&editor, view_id), "stale content", "stale token should not overwrite buffer");
    assert!(editor.is_loading_file(&path), "pending load should remain for the current token");

    let out = editor.apply_loaded_file(&path, chars("current content"), false, 2);
    assert_eq!(out, LoadOutcome::Applied);
    assert_eq!(text_of(&editor, view_id), "current content", "current token should replace buffer content");
    assert!(!editor.is_loading_file(&path), "pending load should be cleared");
}

#[test]
fn file_loaded_does_not_clobber_modified_buffer() {
    let mut editor = Editor::new_scratch();
    let path = "/tmp/test_modified.txt".to_string();
    let view_id = open(&mut editor, &path);

    editor.loads.insert(path.clone(), 1);
    let doc = editor.core.get_buffer(view_id).unwrap().doc;
    let k = editor.core.buffers.doc_index_of(doc).unwrap();
    editor.core.buffers.docs[k].modified = true;

    let out = editor.apply_loaded_file(&path, chars("disk content"), false, 1);
    assert_eq!(out, LoadOutcome::KeptUserEdits);
    assert!(editor.core.buffers.docs[k].modified, "buffer should remain modified");
    assert_ne!(text_of(&editor, view_id), "disk content", "loaded content should not overwrite modified buffer");
    assert!(!editor.is_loading_file(&path), "pending load should be cleared even on rejection");
}

#[test]
fn concurrent_file_loads_apply_by_path_out_of_order() {
    let mut editor = Editor::new_scratch();
    let path_a = "/tmp/test_a.txt".to_string();
    let path_b = "/tmp/test_b.txt".to_string();
    let view_a = open(&mut editor, &path_a);
    let view_b = open(&mut editor, &path_b);

    editor.loads.insert(path_a.clone(), 10);
    editor.loads.insert(path_b.clone(), 20);

    editor.apply_loaded_file(&path_b, chars("content B"), false, 20);
    assert_eq!(text_of(&editor, view_b), "content B");
    assert!(!editor.is_loading_file(&path_b), "B pending should be cleared");
    assert!(editor.is_loading_file(&path_a), "A pending should remain");

    editor.apply_loaded_file(&path_a, chars("content A"), false, 10);
    assert_eq!(text_of(&editor, view_a), "content A");
    assert!(!editor.is_loading_file(&path_a), "A pending should be cleared");
}

#[test]
fn load_for_path_without_buffer_clears_pending() {
    let mut editor = Editor::new_scratch();
    let path = "/tmp/nobody.txt".to_string();
    editor.loads.insert(path.clone(), 3);
    assert!(editor.has_pending_file_loads());
    assert_eq!(editor.apply_loaded_file(&path, chars("x"), false, 3), LoadOutcome::NoBuffer);
    assert!(!editor.has_pending_file_loads());
}

#[test]
fn new_with_path_registers_first_token_and_deferred_goto_applies() {
    let path = "/tmp/deferred.txt".to_string();
    let mut editor = Editor::new_with_path(path.clone());
    assert!(editor.is_loading_file(&path));
    assert_eq!(editor.loads.get(&path), Some(0));
    editor.set_deferred_goto(1, 2);
    let out = editor.apply_loaded_file(&path, chars("abc\ndefgh\n"), true, 0);
    assert_eq!(out, LoadOutcome::Applied);
    let view = editor.focused_view();
    // Line 1 starts at char 4; column 2 is char 6.
    assert_eq!(editor.core.get_buffer(view).unwrap().cursor, 6);
    assert!(editor.core.buffers.docs[0].readonly);
    assert!(!editor.core.buffers.docs[0].modified);
}

#[test]
fn load_error_clears_only_the_current_token() {
    let mut editor = Editor::new_scratch();
    let path = "/tmp/err.txt".to_string();
    editor.loads.insert(path.clone(), 5);
    assert!(!editor.notify_load_error(&path, 4));
    assert!(editor.is_loading_file(&path));
    assert!(editor.notify_load_error(&path, 5));
    assert!(!editor.is_loading_file(&path));
}

#[test]
fn begin_load_allocates_increasing_tokens_and_replaces_pending() {
    let mut editor = Editor::new_scratch();
    let p = "/tmp/tok.txt".to_string();
    let t0 = editor.loads.begin_load(p.clone());
    let t1 = editor.loads.begin_load(p.clone());
    assert_eq!((t0, t1), (0, 1));
    assert_eq!(editor.loads.get(&p), Some(1));
    editor.loads.remove(&p);
    assert!(editor.loads.is_empty());
}
