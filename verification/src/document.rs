//! The document aggregate: content lines, cursor and selection, path,
//! dirty flag, highlighting parameters, and the last surfaced error.

use vstd::prelude::*;
use vstd::string::*;
use crate::text::{Grapheme, line_wf, doc_chars};
use crate::errors::{EditorError, kind_text};
use crate::highlight::{Language, Theme, language_of_doc_path};

verus! {

/// A cursor or selection-anchor position: line index and column, the
/// column counted in grapheme units.
#[derive(Debug, Clone, Copy, PartialEq, Eq, Structural)]
pub struct Position {
    pub line: usize,
    pub col: usize,
}

/// The single document an editor instance owns and mutates.
#[derive(Debug)]
pub struct Document {
    /// Content as lines of graphemes; at least one line always exists.
    pub lines: Vec<Vec<Grapheme>>,
    /// Insertion point; always valid against `lines`.
    pub cursor: Position,
    /// Selection anchor: the selected range is (anchor, cursor), in
    /// either order. `None` means no selection.
    pub selection: Option<Position>,
    /// Where the document was last loaded from or saved to.
    pub path: Option<String>,
    /// Whether content has diverged from the last loaded/saved snapshot.
    pub dirty: bool,
    /// Color theme for highlighting.
    pub theme: Theme,
    /// Highlighting language, always the one `path`'s extension selects.
    pub language: Language,
    /// The error surfaced to the user, until the next content-changing
    /// edit clears it.
    pub last_error: Option<EditorError>,
}

impl Document {
    /// A position is valid when its line exists and its column is at most
    /// that line's grapheme count.
    pub open spec fn pos_valid(&self, p: Position) -> bool {
        &&& p.line < self.lines@.len()
        &&& p.col <= self.lines@[p.line as int]@.len()
    }

    /// Validity invariant: at least one line, well-formed graphemes,
    /// cursor and anchor in bounds, and the language derived from the path.
    pub open spec fn wf(&self) -> bool {
        &&& self.lines@.len() >= 1
        &&& forall|i: int| 0 <= i < self.lines@.len() ==> line_wf(#[trigger] self.lines@[i]@)
        &&& self.pos_valid(self.cursor)
        &&& (self.selection matches Some(a) ==> self.pos_valid(a))
        &&& self.language == language_of_doc_path(self.path)
    }

    /// The full character content: lines joined by newlines.
    pub open spec fn text(&self) -> Seq<char> {
        doc_chars(self.lines@)
    }

    /// A fresh document: one empty line, no path, no selection, dirty
    /// (an unsaved document has no saved counterpart), no error.
    pub fn new() -> (d: Document)
        ensures
            d.wf(),
            d.text() == Seq::<char>::empty(),
            d.lines@.len() == 1 && d.lines@[0]@.len() == 0,
            d.cursor == (Position { line: 0, col: 0 }),
            d.selection is None,
            d.path is None,
            d.dirty,
            d.theme == Theme::SolarizedDark,
            d.language == Language::PlainText,
            d.last_error is None,
    {
        let mut lines: Vec<Vec<Grapheme>> = Vec::new();
        let first: Vec<Grapheme> = Vec::new();
        lines.push(first);
        let d = Document {
            lines,
            cursor: Position { line: 0, col: 0 },
            selection: None,
            path: None,
            dirty: true,
            theme: Theme::SolarizedDark,
            language: Language::PlainText,
            last_error: None,
        };
        proof {
            assert(d.text() =~= Seq::<char>::empty());
        }
        d
    }

    /// Whether the save control is enabled: exactly when the document is
    /// dirty.
    pub fn can_save(&self) -> (r: bool)
        ensures
            r == self.dirty,
    {
        self.dirty
    }

    /// One-based line and column for the status bar, saturating at the
    /// machine limit.
    pub fn display_position(&self) -> (r: (usize, usize))
        requires
            self.wf(),
        ensures
            r.0 == self.cursor.line + 1,
            self.cursor.col < usize::MAX ==> r.1 == self.cursor.col + 1,
            self.cursor.col == usize::MAX ==> r.1 == usize::MAX,
    {
        let n = self.lines.len();
        let col = if self.cursor.col < usize::MAX {
            self.cursor.col + 1
        } else {
            usize::MAX
        };
        (self.cursor.line + 1, col)
    }

    /// The status-bar text: the description of a filesystem failure if
    /// one is surfaced, else the document's path, else a new-file marker.
    /// A closed dialog is not a failure and leaves the path shown.
    pub fn status_text(&self) -> (r: String)
        ensures
            (match self.last_error {
                Some(EditorError::IoFailed(k)) => r@ == kind_text(k),
                _ => match self.path {
                    Some(p) => r@ == p@,
                    None => r@ == "New file"@,
                },
            }),
    {
        match &self.last_error {
            Some(EditorError::IoFailed(k)) => String::from_str(k.describe()),
            _ => match &self.path {
                Some(p) => p.clone(),
                None => String::from_str("New file"),
            },
        }
    }
}

} // verus!
