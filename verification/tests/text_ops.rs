use xeno_editor::chars::{is_word_char, string_from_chars};
use xeno_editor::edit_ops::{deindent_plan, newline_with_indent_text};
use xeno_editor::surface::{split_viewport, FrontendFramePlan, Location, Rect};
use xeno_editor::text::{len_lines, line_col, line_col_to_char, line_to_char, normalize_to_lf, word_at_cursor};

fn chars(s: &str) -> Vec<char> {
    s.chars().collect()
}

#[test]
fn word_char_classes() {
    assert!(is_word_char('a'));
    assert!(is_word_char('Z'));
    assert!(is_word_char('7'));
    assert!(is_word_char('_'));
    assert!(is_word_char('é'));
    assert!(!is_word_char('-'));
    assert!(!is_word_char(' '));
}

#[test]
fn word_at_cursor_takes_the_run_around_the_cursor() {
    let t = chars("let foo_bar = 1;");
    assert_eq!(word_at_cursor(&t, 6), "foo_bar");
    assert_eq!(word_at_cursor(&t, 4), "foo_bar");
    assert_eq!(word_at_cursor(&t, 0), "let");
    assert_eq!(word_at_cursor(&t, 3), "let", "touching the word from after it");
    assert_eq!(word_at_cursor(&chars("a  b"), 2), "", "no word char on either side");
    assert_eq!(word_at_cursor(&chars("hello"), 100), "hello", "a cursor past the end is clamped");
}

#[test]
fn string_from_chars_keeps_order() {
    assert_eq!(string_from_chars(&['x', 'ö', 'z']), "xöz");
}

#[test]
fn line_arithmetic() {
    let t = chars("ab\ncde\n\nf");
    assert_eq!(len_lines(&t), 4);
    assert_eq!(line_to_char(&t, 1), 3);
    assert_eq!(line_to_char(&t, 3), 8);
    assert_eq!(line_col(&t, 5), (1, 2));
    assert_eq!(line_col_to_char(&t, 1, 99), 6, "column clamps to the line's content");
    assert_eq!(line_col_to_char(&t, 99, 0), 8, "line clamps to the last line");
}

#[test]
fn indentation_helpers() {
    let t = chars("    x\n  y");
    assert_eq!(newline_with_indent_text(&t, 5), chars("\n    "));
    assert_eq!(deindent_plan(&t, 7, 4), Some((6, 8, 6)));
    assert_eq!(deindent_plan(&chars("x"), 0, 4), None);
}

#[test]
fn frame_plan_splits_viewport() {
    let vp = Rect::new(0, 0, 80, 24);
    let (main, status) = split_viewport(vp, 1);
    assert_eq!(main, Rect::new(0, 0, 80, 23));
    assert_eq!(status, Rect::new(0, 23, 80, 1));
    let (main, status) = split_viewport(Rect::new(0, 0, 10, 1), 3);
    assert_eq!(main.height, 0);
    assert_eq!(status.height, 1);
    let plan = FrontendFramePlan::new(vp, 1, Rect::new(0, 0, 80, 20), Vec::new());
    assert_eq!(plan.main_area(), Rect::new(0, 0, 80, 23));
    assert_eq!(plan.status_area(), Rect::new(0, 23, 80, 1));
    assert_eq!(plan.doc_area(), Rect::new(0, 0, 80, 20));
    assert!(plan.panel_render_plan().is_empty());
}

#[test]
fn location_new_keeps_fields() {
    let l = Location::new("src/main.rs".to_string(), 3, 7);
    assert_eq!(l.path, "src/main.rs");
    assert_eq!((l.line, l.column), (3, 7));
}

#[test]
fn line_endings_normalize_to_lf() {
    assert_eq!(normalize_to_lf(&chars("a\r\nb\rc\n")), chars("a\nb\nc\n"));
    assert_eq!(normalize_to_lf(&chars("\r")), chars("\n"));
    assert_eq!(normalize_to_lf(&chars("plain")), chars("plain"));
}

#[test]
fn whitespace_is_the_unicode_white_space_list() {
    for c in ['\t', '\n', '\u{0B}', '\u{0C}', '\r', ' ', '\u{85}', '\u{A0}', '\u{1680}', '\u{2000}', '\u{200A}', '\u{2028}', '\u{2029}', '\u{202F}', '\u{205F}', '\u{3000}'] {
        assert!(xeno_editor::chars::is_whitespace(c), "{:?}", c);
    }
    for c in ['a', '\u{200B}', '\u{FEFF}', '\u{1F}', '\u{180E}'] {
        assert!(!xeno_editor::chars::is_whitespace(c), "{:?}", c);
    }
}
