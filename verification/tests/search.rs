use xeno_editor::editor::Editor;
use xeno_editor::search::{find_all, find_next, find_prev, text_matches, SearchRegex};
use xeno_editor::search_ops::{SearchOutcome, SelectOutcome};
use xeno_editor::search_preview::{preview_find, trim_trailing_newlines, is_blank, SearchPreview};
use xeno_editor::selection::{Range, Selection};

fn chars(s: &str) -> Vec<char> {
    s.chars().collect()
}

fn re(p: &str) -> SearchRegex {
    SearchRegex::compile(&p.to_string()).expect("pattern compiles")
}

#[test]
fn compile_reports_errors() {
    assert!(SearchRegex::compile(&"foo(bar".to_string()).is_err());
    let ok = re("a+");
    assert_eq!(ok.pattern(), "a+");
}

#[test]
fn find_next_uses_char_indices_across_multibyte_text() {
    let text = chars("héllo wörld wörld");
    let r = re("w.rld");
    assert_eq!(find_next(&text, &r, 0), Some((6, 11)));
    assert_eq!(find_next(&text, &r, 7), Some((12, 17)));
    assert_eq!(find_next(&text, &r, 13), None);
    assert_eq!(find_next(&text, &r, 99), None);
}

#[test]
fn find_prev_finds_last_match_starting_before() {
    let text = chars("ab ab ab");
    let r = re("ab");
    assert_eq!(find_prev(&text, &r, 7), Some((6, 8)));
    assert_eq!(find_prev(&text, &r, 6), Some((3, 5)));
    assert_eq!(find_prev(&text, &r, 0), None);
}

#[test]
fn find_all_lists_matches_in_order() {
    let text = chars("a1b22c333");
    assert_eq!(find_all(&text, &re("[0-9]+")), vec![(1, 2), (3, 5), (6, 9)]);
    assert_eq!(find_all(&text, &re("z")), vec![]);
}

#[test]
fn text_matches_tests_whole_text() {
    assert!(text_matches(&chars("hello"), &re("ell")));
    assert!(!text_matches(&chars("hello"), &re("^ell")));
}

#[test]
fn preview_find_forward_and_reverse() {
    let text = chars("foo bar foo bar");
    let r = re("bar");
    assert_eq!(preview_find(&text, &r, false, 0), Some((4, 7)));
    assert_eq!(preview_find(&text, &r, false, 4), Some((12, 15)));
    assert_eq!(preview_find(&text, &r, true, 12), Some((4, 7)));
}

#[test]
fn trimming_and_blank_input() {
    assert_eq!(trim_trailing_newlines(&"abc\n\n".to_string()), "abc");
    assert_eq!(trim_trailing_newlines(&"a\nb".to_string()), "a\nb");
    assert!(is_blank(&" \t".to_string()));
    assert!(is_blank(&"".to_string()));
    assert!(!is_blank(&" x ".to_string()));
}

fn editor_with(text: &str) -> Editor {
    Editor::from_content(chars(text), None)
}

#[test]
fn search_preview_moves_to_match_and_back() {
    let mut editor = editor_with("one two three two");
    let view = editor.focused_view();
    let mut rt = SearchPreview::new(view, false, 0, Selection::point(0));

    let u = editor.update_search_prompt_preview(&mut rt, &"two\n".to_string());
    assert!(u.needs_redraw && u.reveal && u.notify.is_none());
    assert_eq!(editor.core.get_buffer(view).unwrap().cursor, 4);
    assert_eq!(rt.last_preview, Some((4, 7)));

    let u = editor.update_search_prompt_preview(&mut rt, &"two".to_string());
    assert!(!u.needs_redraw && !u.reveal && u.notify.is_none(), "unchanged input does nothing");

    let u = editor.update_search_prompt_preview(&mut rt, &"zzz".to_string());
    assert!(u.needs_redraw && !u.reveal);
    assert_eq!(editor.core.get_buffer(view).unwrap().cursor, 0, "lost match returns to origin");
    assert_eq!(rt.last_preview, None);

    let u = editor.update_search_prompt_preview(&mut rt, &"(".to_string());
    assert!(u.needs_redraw);
    assert!(u.notify.is_some(), "first regex error is reported");
    let u = editor.update_search_prompt_preview(&mut rt, &"((".to_string());
    assert!(u.needs_redraw);

    let u = editor.update_search_prompt_preview(&mut rt, &"  ".to_string());
    assert!(u.needs_redraw && u.notify.is_none());
    assert!(rt.cached.is_none() && rt.last_error.is_none());
}

#[test]
fn search_next_and_prev_move_cursor() {
    let mut editor = editor_with("ab ab ab");
    let view = editor.focused_view();
    let p = "ab".to_string();
    assert!(matches!(editor.search_next(Some(&p), false, false), SearchOutcome::Moved));
    assert_eq!(editor.core.get_buffer(view).unwrap().cursor, 3);
    assert!(matches!(editor.search_next(Some(&p), false, false), SearchOutcome::Moved));
    assert_eq!(editor.core.get_buffer(view).unwrap().cursor, 6);
    assert!(matches!(editor.search_next(Some(&p), false, false), SearchOutcome::NotFound));
    assert!(matches!(editor.search_prev(Some(&p), false, false), SearchOutcome::Moved));
    assert_eq!(editor.core.get_buffer(view).unwrap().cursor, 3);
    assert!(matches!(editor.search_next(None, false, false), SearchOutcome::NoPattern));
    assert!(matches!(editor.search_next(Some(&"(".to_string()), false, false), SearchOutcome::RegexError(_)));
}

#[test]
fn search_hit_can_add_a_range() {
    let mut editor = editor_with("xx yy xx");
    let view = editor.focused_view();
    assert!(matches!(editor.search_next(Some(&"xx".to_string()), true, false), SearchOutcome::Moved));
    let b = editor.core.get_buffer(view).unwrap();
    assert_eq!(b.selection.ranges, vec![Range { anchor: 0, head: 0 }, Range { anchor: 6, head: 8 }]);
}

fn select_all(editor: &mut Editor, from: usize, to: usize) {
    let view = editor.focused_view();
    let b = editor.core.get_buffer_mut(view).unwrap();
    b.selection = Selection::single(from, to);
}

#[test]
fn select_split_and_keep_by_pattern() {
    let mut editor = editor_with("a1b22c333");
    let view = editor.focused_view();
    select_all(&mut editor, 0, 9);
    assert!(matches!(editor.select_regex(&"[0-9]+".to_string()), SelectOutcome::Applied(3)));
    assert_eq!(
        editor.core.get_buffer(view).unwrap().selection.ranges,
        vec![Range { anchor: 1, head: 2 }, Range { anchor: 3, head: 5 }, Range { anchor: 6, head: 9 }]
    );

    select_all(&mut editor, 0, 9);
    assert!(matches!(editor.split_regex(&"[0-9]+".to_string()), SelectOutcome::Applied(3)));
    assert_eq!(
        editor.core.get_buffer(view).unwrap().selection.ranges,
        vec![Range { anchor: 0, head: 1 }, Range { anchor: 2, head: 3 }, Range { anchor: 5, head: 6 }]
    );

    assert!(matches!(editor.keep_matching(&"b".to_string(), false), SelectOutcome::Applied(1)));
    assert_eq!(editor.core.get_buffer(view).unwrap().selection.ranges, vec![Range { anchor: 2, head: 3 }]);
    assert!(matches!(editor.keep_matching(&"b".to_string(), true), SelectOutcome::NothingLeft));

    select_all(&mut editor, 4, 4);
    assert!(matches!(editor.select_regex(&"x".to_string()), SelectOutcome::NoSelection));
    select_all(&mut editor, 0, 9);
    assert!(matches!(editor.select_regex(&"x".to_string()), SelectOutcome::NoMatches));
    assert!(matches!(editor.select_regex(&"(".to_string()), SelectOutcome::RegexError(_)));
}

#[test]
fn selection_as_search_is_literal() {
    let mut e = editor_with("a.b axb a.b");
    let v = e.focused_view();
    e.core.get_buffer_mut(v).unwrap().selection = Selection::single(0, 3);
    let r = e.use_selection_as_search().expect("selection is not empty");
    assert_eq!(r.text, "a.b");
    assert_eq!(r.pattern, "a\\.b");
    assert!(matches!(r.outcome, SearchOutcome::Moved));
    let b = e.core.get_buffer(v).unwrap();
    assert_eq!(b.selection.ranges, vec![Range { anchor: 8, head: 11 }]);
    assert_eq!(b.cursor, 0, "the cursor stays");
    assert_eq!(b.last_search, Some((String::from("a\\.b"), false)), "the pattern becomes the last search");
}

#[test]
fn selection_as_search_without_more_matches_or_selection() {
    let mut e = editor_with("(x) y");
    let v = e.focused_view();
    e.core.get_buffer_mut(v).unwrap().selection = Selection::single(0, 3);
    let r = e.use_selection_as_search().unwrap();
    assert_eq!(r.pattern, "\\(x\\)");
    assert!(matches!(r.outcome, SearchOutcome::NotFound));
    assert_eq!(e.core.get_buffer(v).unwrap().selection.ranges, vec![Range { anchor: 0, head: 3 }]);

    assert_eq!(e.core.get_buffer(v).unwrap().last_search, Some((String::from("\\(x\\)"), false)));

    e.core.get_buffer_mut(v).unwrap().selection = Selection::point(2);
    assert!(e.use_selection_as_search().is_none());
}

#[test]
fn repeated_search_uses_the_views_last_search() {
    let mut editor = editor_with("ab ab ab");
    let view = editor.focused_view();
    assert!(matches!(editor.do_search_next(false, false), SearchOutcome::NoPattern));
    editor.core.get_buffer_mut(view).unwrap().last_search = Some(("ab".to_string(), false));
    assert!(matches!(editor.do_search_next(false, false), SearchOutcome::Moved));
    assert_eq!(editor.core.get_buffer(view).unwrap().cursor, 3);
    assert!(matches!(editor.do_search_next(false, false), SearchOutcome::Moved));
    assert_eq!(editor.core.get_buffer(view).unwrap().cursor, 6);
    assert!(matches!(editor.do_search_prev(false, false), SearchOutcome::Moved));
    assert_eq!(editor.core.get_buffer(view).unwrap().cursor, 3);
}

#[test]
fn compile_errors_carry_the_regex_message() {
    let err = SearchRegex::compile(&"(".to_string()).unwrap_err();
    assert_eq!(err, regex::Regex::new("(").unwrap_err().to_string());
    assert!(err.contains("unclosed group"), "{err}");
}
