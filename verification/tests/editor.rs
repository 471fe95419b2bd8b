//! End-to-end tests of the document engine: buffer actions, dirty
//! tracking, highlighting coverage, and the open/save workflows driven
//! through simulated filesystem outcomes.

use editor_core::buffer::{Action, Direction};
use editor_core::document::{Document, Position};
use editor_core::errors::{EditorError, IoErrorKind};
use editor_core::flow::{default_file, key_press_message, startup, Effect, Message};
use editor_core::highlight::{
    appearance, highlight_document, highlight_line, language_from_path, resolve_style, Appearance,
    Category, Language, Theme,
};
use editor_core::text::Grapheme;

fn chars(s: &str) -> Vec<char> {
    s.chars().collect()
}

fn g(s: &str) -> Grapheme {
    Grapheme { units: s.chars().collect() }
}

fn doc_with(text: &str) -> Document {
    let mut d = Document::new();
    let _ = d.update(Message::FileOpened(Ok(("scratch.txt".to_string(), chars(text)))));
    d
}

fn text_of(d: &Document) -> String {
    d.content_chars().into_iter().collect()
}

#[test]
fn new_document_is_empty_dirty_and_pathless() {
    let d = Document::new();
    assert_eq!(text_of(&d), "");
    assert!(d.dirty);
    assert!(d.path.is_none());
    assert!(d.selection.is_none());
    assert_eq!(d.cursor, Position { line: 0, col: 0 });
    assert_eq!(d.language, Language::PlainText);
    assert!(d.last_error.is_none());
}

#[test]
fn startup_loads_the_default_file() {
    let (d, e) = startup();
    assert!(d.dirty);
    assert_eq!(default_file(), "src/main.rs");
    match e {
        Effect::OpenPath(p) => assert_eq!(p, "src/main.rs"),
        _ => panic!("startup must open the default file"),
    }
}

#[test]
fn insert_typing_builds_text() {
    let mut d = doc_with("");
    for c in "hi there".chars() {
        let _ = d.update(Message::Edit(Action::InsertChar(Grapheme { units: vec![c] })));
    }
    assert_eq!(text_of(&d), "hi there");
    assert_eq!(d.cursor, Position { line: 0, col: 8 });
}

#[test]
fn newline_splits_line_at_cursor() {
    let mut d = doc_with("abcd");
    let _ = d.update(Message::Edit(Action::MoveCursor(Direction::Right, false)));
    let _ = d.update(Message::Edit(Action::MoveCursor(Direction::Right, false)));
    let _ = d.update(Message::Edit(Action::InsertNewline));
    assert_eq!(text_of(&d), "ab\ncd");
    assert_eq!(d.cursor, Position { line: 1, col: 0 });
}

#[test]
fn backspace_at_line_start_joins_lines() {
    let mut d = doc_with("ab\ncd");
    let _ = d.update(Message::Edit(Action::MoveCursor(Direction::Down, false)));
    assert_eq!(d.cursor, Position { line: 1, col: 0 });
    let _ = d.update(Message::Edit(Action::Backspace));
    assert_eq!(text_of(&d), "abcd");
    assert_eq!(d.cursor, Position { line: 0, col: 2 });
}

#[test]
fn backspace_at_document_start_is_a_no_op() {
    let mut d = doc_with("xy");
    let _ = d.update(Message::Edit(Action::Backspace));
    assert_eq!(text_of(&d), "xy");
    assert_eq!(d.cursor, Position { line: 0, col: 0 });
}

#[test]
fn delete_at_line_end_joins_next_line() {
    let mut d = doc_with("ab\ncd");
    let _ = d.update(Message::Edit(Action::MoveCursor(Direction::Right, false)));
    let _ = d.update(Message::Edit(Action::MoveCursor(Direction::Right, false)));
    let _ = d.update(Message::Edit(Action::Delete));
    assert_eq!(text_of(&d), "abcd");
    assert_eq!(d.cursor, Position { line: 0, col: 2 });
}

#[test]
fn delete_at_document_end_is_a_no_op() {
    let mut d = doc_with("ab");
    let _ = d.update(Message::Edit(Action::MoveCursor(Direction::Right, false)));
    let _ = d.update(Message::Edit(Action::MoveCursor(Direction::Right, false)));
    let _ = d.update(Message::Edit(Action::Delete));
    assert_eq!(text_of(&d), "ab");
}

#[test]
fn cursor_motion_clamps_at_boundaries() {
    let mut d = doc_with("ab\nlonger");
    let _ = d.update(Message::Edit(Action::MoveCursor(Direction::Up, false)));
    assert_eq!(d.cursor, Position { line: 0, col: 0 });
    let _ = d.update(Message::Edit(Action::MoveCursor(Direction::Left, false)));
    assert_eq!(d.cursor, Position { line: 0, col: 0 });
    let _ = d.update(Message::Edit(Action::SelectAll));
    assert_eq!(d.cursor, Position { line: 1, col: 6 });
    let _ = d.update(Message::Edit(Action::MoveCursor(Direction::Up, false)));
    assert_eq!(d.cursor, Position { line: 0, col: 2 });
    let _ = d.update(Message::Edit(Action::MoveCursor(Direction::Down, false)));
    let _ = d.update(Message::Edit(Action::MoveCursor(Direction::Down, false)));
    assert_eq!(d.cursor, Position { line: 1, col: 2 });
}

#[test]
fn left_at_line_start_moves_to_previous_line_end() {
    let mut d = doc_with("ab\ncd");
    let _ = d.update(Message::Edit(Action::MoveCursor(Direction::Down, false)));
    let _ = d.update(Message::Edit(Action::MoveCursor(Direction::Left, false)));
    assert_eq!(d.cursor, Position { line: 0, col: 2 });
    let _ = d.update(Message::Edit(Action::MoveCursor(Direction::Right, false)));
    assert_eq!(d.cursor, Position { line: 1, col: 0 });
}

#[test]
fn select_all_and_set_selection() {
    let mut d = doc_with("ab\ncd");
    let _ = d.update(Message::Edit(Action::SelectAll));
    assert_eq!(d.selection, Some(Position { line: 0, col: 0 }));
    assert_eq!(d.cursor, Position { line: 1, col: 2 });
    let _ = d.update(Message::Edit(Action::SetSelection(
        Position { line: 9, col: 9 },
        Position { line: 0, col: 9 },
    )));
    assert_eq!(d.selection, Some(Position { line: 1, col: 2 }));
    assert_eq!(d.cursor, Position { line: 0, col: 2 });
}

#[test]
fn extending_motion_plants_and_keeps_the_anchor() {
    let mut d = doc_with("abc");
    let _ = d.update(Message::Edit(Action::MoveCursor(Direction::Right, true)));
    assert_eq!(d.selection, Some(Position { line: 0, col: 0 }));
    let _ = d.update(Message::Edit(Action::MoveCursor(Direction::Right, true)));
    assert_eq!(d.selection, Some(Position { line: 0, col: 0 }));
    assert_eq!(d.cursor, Position { line: 0, col: 2 });
    let _ = d.update(Message::Edit(Action::MoveCursor(Direction::Left, false)));
    assert!(d.selection.is_none());
}

#[test]
fn grapheme_integrity_backspace_removes_whole_character() {
    // An 'e' with a combining acute accent: two scalar values, one grapheme.
    let mut d = doc_with("abc");
    let _ = d.update(Message::Edit(Action::InsertChar(g("e\u{0301}"))));
    assert_eq!(text_of(&d), "e\u{0301}abc");
    assert_eq!(d.cursor, Position { line: 0, col: 1 });
    let _ = d.update(Message::Edit(Action::Backspace));
    assert_eq!(text_of(&d), "abc");
    assert_eq!(d.cursor, Position { line: 0, col: 0 });
}

#[test]
fn loading_clusters_combining_marks() {
    let d = doc_with("xe\u{0301}y");
    // Three graphemes on one line: x, e-with-acute, y.
    assert_eq!(d.lines.len(), 1);
    assert_eq!(d.lines[0].len(), 3);
    assert_eq!(d.lines[0][1].units, vec!['e', '\u{0301}']);
    assert_eq!(text_of(&d), "xe\u{0301}y");
}

#[test]
fn dirty_tracks_content_changes_only() {
    let mut d = doc_with("ab");
    assert!(!d.dirty);
    let _ = d.update(Message::Edit(Action::MoveCursor(Direction::Right, false)));
    assert!(!d.dirty);
    let _ = d.update(Message::Edit(Action::SelectAll));
    assert!(!d.dirty);
    let _ = d.update(Message::Edit(Action::InsertChar(g("x"))));
    assert!(d.dirty);
}

#[test]
fn dirty_cleared_by_successful_save_and_open() {
    let mut d = doc_with("ab");
    let _ = d.update(Message::Edit(Action::Backspace));
    assert!(d.dirty);
    let _ = d.update(Message::FileSaved(Ok("out.txt".to_string())));
    assert!(!d.dirty);
    assert_eq!(d.path.as_deref(), Some("out.txt"));
    let _ = d.update(Message::Edit(Action::Delete));
    assert!(d.dirty);
    let _ = d.update(Message::FileOpened(Ok(("in.txt".to_string(), chars("zz")))));
    assert!(!d.dirty);
}

#[test]
fn new_document_reset_forces_dirty() {
    let mut d = doc_with("ab");
    assert!(!d.dirty);
    let _ = d.update(Message::New);
    assert!(d.dirty);
    assert!(d.path.is_none());
    assert_eq!(text_of(&d), "");
    assert_eq!(d.language, Language::PlainText);
}

#[test]
fn save_effect_carries_the_document_text() {
    let mut d = doc_with("keep\nme");
    match d.update(Message::Save) {
        Effect::StartSave { path, text } => {
            assert_eq!(path.as_deref(), Some("scratch.txt"));
            let t: String = text.into_iter().collect();
            assert_eq!(t, "keep\nme");
        }
        _ => panic!("Save must start a save"),
    }
}

#[test]
fn save_open_round_trip_preserves_text() {
    let source = "line one\nline two\n\ntail";
    let mut d = doc_with(source);
    // Save: the effect carries the text a filesystem would persist.
    let written = match d.update(Message::Save) {
        Effect::StartSave { text, .. } => text,
        _ => panic!("Save must start a save"),
    };
    // Open the "written file" again: content is textually identical.
    let mut d2 = Document::new();
    let _ = d2.update(Message::FileOpened(Ok(("a.txt".to_string(), written))));
    assert_eq!(text_of(&d2), source);
    assert!(!d2.dirty);
}

#[test]
fn race_open_result_overwrites_intervening_edit() {
    let mut d = Document::new();
    // Start an Open targeting file A; before it resolves, type 'x'.
    let _ = d.update(Message::Open);
    let _ = d.update(Message::Edit(Action::InsertChar(g("x"))));
    assert_eq!(text_of(&d), "x");
    // The open resolves: last writer wins, the edit is discarded.
    let _ = d.update(Message::FileOpened(Ok(("a.txt".to_string(), chars("hello")))));
    assert_eq!(text_of(&d), "hello");
    assert!(!d.dirty);
}

#[test]
fn cancelled_save_dialog_leaves_document_untouched() {
    let mut d = Document::new();
    let _ = d.update(Message::Edit(Action::InsertChar(g("q"))));
    let before_text = text_of(&d);
    let was_dirty = d.dirty;
    let e = d.update(Message::Save);
    assert!(matches!(e, Effect::StartSave { ref path, .. } if path.is_none()));
    // The user closes the picker: the runtime posts DialogClosed.
    let _ = d.update(Message::FileSaved(Err(EditorError::DialogClosed)));
    assert_eq!(text_of(&d), before_text);
    assert!(d.path.is_none());
    assert_eq!(d.dirty, was_dirty);
    assert_eq!(d.last_error, Some(EditorError::DialogClosed));
}

#[test]
fn failed_save_records_the_io_error_and_changes_nothing_else() {
    let mut d = doc_with("data");
    let _ = d.update(Message::Edit(Action::InsertChar(g("!"))));
    let before_text = text_of(&d);
    let _ = d.update(Message::FileSaved(Err(EditorError::IoFailed(
        IoErrorKind::PermissionDenied,
    ))));
    assert_eq!(
        d.last_error,
        Some(EditorError::IoFailed(IoErrorKind::PermissionDenied))
    );
    assert_eq!(text_of(&d), before_text);
    assert_eq!(d.path.as_deref(), Some("scratch.txt"));
    assert!(d.dirty);
}

#[test]
fn failed_open_leaves_prior_document() {
    let mut d = doc_with("before");
    let _ = d.update(Message::FileOpened(Err(EditorError::IoFailed(
        IoErrorKind::NotFound,
    ))));
    assert_eq!(text_of(&d), "before");
    assert_eq!(
        d.last_error,
        Some(EditorError::IoFailed(IoErrorKind::NotFound))
    );
    assert!(!d.dirty);
}

#[test]
fn content_edit_clears_the_surfaced_error_cursor_motion_does_not() {
    let mut d = doc_with("t");
    let _ = d.update(Message::FileSaved(Err(EditorError::DialogClosed)));
    assert!(d.last_error.is_some());
    // Cursor-only actions leave the error surfaced.
    let _ = d.update(Message::Edit(Action::MoveCursor(Direction::Right, false)));
    assert_eq!(d.last_error, Some(EditorError::DialogClosed));
    let _ = d.update(Message::Edit(Action::SelectAll));
    assert_eq!(d.last_error, Some(EditorError::DialogClosed));
    // A content-changing edit acknowledges and clears it.
    let _ = d.update(Message::Edit(Action::InsertChar(g("x"))));
    assert!(d.last_error.is_none());
}

#[test]
fn language_resolution_from_paths() {
    assert_eq!(language_from_path("src/main.rs"), Language::Rust);
    assert_eq!(language_from_path("notes.txt"), Language::PlainText);
    assert_eq!(language_from_path("a.tar.rs"), Language::Rust);
    assert_eq!(language_from_path(".rs"), Language::PlainText);
    assert_eq!(language_from_path("dir/.rs"), Language::PlainText);
    assert_eq!(language_from_path("noext"), Language::PlainText);
    assert_eq!(language_from_path("dir.rs/file"), Language::PlainText);
    assert_eq!(language_from_path("x.RS"), Language::PlainText);
}

#[test]
fn opening_a_rust_file_sets_the_language() {
    let mut d = Document::new();
    let _ = d.update(Message::FileOpened(Ok(("lib.rs".to_string(), chars("fn")))));
    assert_eq!(d.language, Language::Rust);
    let _ = d.update(Message::FileOpened(Ok(("lib.txt".to_string(), chars("fn")))));
    assert_eq!(d.language, Language::PlainText);
}

fn spans_cover(line: &Vec<Grapheme>, lang: Language) {
    let spans = highlight_line(line, lang);
    if line.is_empty() {
        assert!(spans.is_empty());
        return;
    }
    assert_eq!(spans[0].start, 0);
    assert_eq!(spans[spans.len() - 1].end, line.len());
    for w in spans.windows(2) {
        assert_eq!(w[0].end, w[1].start);
    }
    for s in &spans {
        assert!(s.start < s.end);
    }
}

fn line_of(s: &str) -> Vec<Grapheme> {
    s.chars().map(|c| Grapheme { units: vec![c] }).collect()
}

#[test]
fn highlight_covers_every_line_exactly() {
    for text in ["", "plain words here", "let x = 42; // answer", "   ", "//", "a//b", "étude 12"] {
        for lang in [Language::PlainText, Language::Rust] {
            spans_cover(&line_of(text), lang);
        }
    }
}

#[test]
fn plain_text_is_one_default_span_per_line() {
    let spans = highlight_line(&line_of("any text 99 //"), Language::PlainText);
    assert_eq!(spans.len(), 1);
    assert_eq!(spans[0].start, 0);
    assert_eq!(spans[0].end, 14);
    assert_eq!(spans[0].category, Category::Plain);
}

#[test]
fn rust_tokenization_categories() {
    let spans = highlight_line(&line_of("let x2 = 42; // hi"), Language::Rust);
    // "let", " ", "x2"... the comment swallows the rest.
    assert_eq!(spans[0].category, Category::Word);
    assert_eq!((spans[0].start, spans[0].end), (0, 3));
    assert_eq!(spans[1].category, Category::Space);
    let last = spans[spans.len() - 1];
    assert_eq!(last.category, Category::Comment);
    assert_eq!((last.start, last.end), (13, 18));
    let digits = spans.iter().find(|s| s.start == 9).unwrap();
    assert_eq!(digits.category, Category::Number);
    assert_eq!(digits.end, 11);
}

#[test]
fn document_highlight_tags_lines_and_resolves_styles() {
    let d = doc_with("ab\n// c");
    let rows = highlight_document(&d.lines, Language::Rust, Theme::SolarizedDark);
    assert_eq!(rows.len(), 2);
    assert_eq!(rows[0].len(), 1);
    assert_eq!(rows[0][0].line, 0);
    assert_eq!(rows[0][0].token, resolve_style(Theme::SolarizedDark, Category::Word));
    assert_eq!(rows[1][0].line, 1);
    assert_eq!(rows[1][0].token, resolve_style(Theme::SolarizedDark, Category::Comment));
}

#[test]
fn style_lookup_exact_values() {
    assert_eq!(resolve_style(Theme::SolarizedDark, Category::Comment).color, 0x586E75);
    assert_eq!(resolve_style(Theme::SolarizedDark, Category::Number).color, 0x2AA198);
    assert_eq!(resolve_style(Theme::SolarizedDark, Category::Word).color, 0x839496);
    assert_eq!(resolve_style(Theme::InspiredGithub, Category::Plain).color, 0x323232);
}

#[test]
fn themes_map_categories_to_distinct_tokens() {
    let dark = resolve_style(Theme::SolarizedDark, Category::Comment);
    let light = resolve_style(Theme::InspiredGithub, Category::Comment);
    assert_ne!(dark, light);
    assert_ne!(
        resolve_style(Theme::SolarizedDark, Category::Number),
        resolve_style(Theme::SolarizedDark, Category::Comment)
    );
}

#[test]
fn appearance_follows_theme_darkness() {
    assert_eq!(appearance(Theme::SolarizedDark), Appearance::Dark);
    assert_eq!(appearance(Theme::Base16Ocean), Appearance::Dark);
    assert_eq!(appearance(Theme::InspiredGithub), Appearance::Light);
}

#[test]
fn theme_change_is_cursor_only() {
    let mut d = doc_with("t");
    let _ = d.update(Message::ThemeChanged(Theme::Base16Mocha));
    assert_eq!(d.theme, Theme::Base16Mocha);
    assert!(!d.dirty);
    assert_eq!(text_of(&d), "t");
}

#[test]
fn status_text_shows_error_then_path_then_new_file() {
    let mut d = Document::new();
    assert_eq!(d.status_text(), "New file");
    let _ = d.update(Message::FileOpened(Ok(("s.txt".to_string(), chars("x")))));
    assert_eq!(d.status_text(), "s.txt");
    let _ = d.update(Message::FileSaved(Err(EditorError::IoFailed(
        IoErrorKind::PermissionDenied,
    ))));
    assert_eq!(d.status_text(), "permission denied");
    // A closed dialog is not a failure: the path stays shown.
    let _ = d.update(Message::FileSaved(Err(EditorError::DialogClosed)));
    assert_eq!(d.status_text(), "s.txt");
}

#[test]
fn error_descriptions() {
    assert_eq!(IoErrorKind::NotFound.describe(), "file not found");
    assert_eq!(IoErrorKind::PermissionDenied.describe(), "permission denied");
    assert_eq!(IoErrorKind::AlreadyExists.describe(), "file already exists");
    assert_eq!(IoErrorKind::InvalidData.describe(), "file is not valid text");
    assert_eq!(IoErrorKind::Other.describe(), "input/output error");
}

#[test]
fn display_position_is_one_based() {
    let mut d = doc_with("ab\ncd");
    let _ = d.update(Message::Edit(Action::MoveCursor(Direction::Down, false)));
    let _ = d.update(Message::Edit(Action::MoveCursor(Direction::Right, false)));
    assert_eq!(d.display_position(), (2, 2));
}

#[test]
fn save_control_enabled_iff_dirty() {
    let mut d = doc_with("a");
    assert!(!d.can_save());
    let _ = d.update(Message::Edit(Action::InsertChar(g("b"))));
    assert!(d.can_save());
}

#[test]
fn save_shortcut_requires_command_and_character() {
    assert!(matches!(key_press_message(true, true), Some(Message::Save)));
    assert!(key_press_message(true, false).is_none());
    assert!(key_press_message(false, true).is_none());
}

#[test]
fn trailing_newline_round_trips() {
    let d = doc_with("end\n");
    assert_eq!(d.lines.len(), 2);
    assert_eq!(text_of(&d), "end\n");
}
