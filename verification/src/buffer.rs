//! Atomic edit and cursor actions on the document.
//!
//! `apply` executes one action, keeps the validity invariant, clamps
//! cursor motion at document boundaries instead of erroring, and returns
//! the action's classification: content-changing (the inserts, Backspace,
//! Delete) or cursor-only. Content and cursor update together; a caller
//! never observes an intermediate state. Edits operate on whole
//! graphemes, so a multi-codepoint character is never split.

use vstd::prelude::*;
use crate::text::{Grapheme, line_wf};
use crate::document::{Document, Position};

verus! {

#[derive(Debug, Clone, Copy, PartialEq, Eq, Structural)]
pub enum Direction {
    Up,
    Down,
    Left,
    Right,
}

/// The closed set of actions the buffer applies. Actions are built by the
/// surrounding surface; an `InsertChar` carries one whole grapheme.
#[derive(Debug, Clone)]
pub enum Action {
    /// Move the cursor one step; `true` extends the selection.
    MoveCursor(Direction, bool),
    InsertChar(Grapheme),
    InsertNewline,
    Backspace,
    Delete,
    SelectAll,
    SetSelection(Position, Position),
}

impl Action {
    /// Content-changing actions are the sole input of dirty tracking;
    /// cursor-only actions never mark the document dirty.
    pub open spec fn is_content_edit(&self) -> bool {
        match *self {
            Action::InsertChar(_) => true,
            Action::InsertNewline => true,
            Action::Backspace => true,
            Action::Delete => true,
            _ => false,
        }
    }

    /// An action is well formed when any grapheme it carries is.
    pub open spec fn wf(&self) -> bool {
        match *self {
            Action::InsertChar(g) => g.wf(),
            _ => true,
        }
    }

    pub fn classify(&self) -> (r: bool)
        ensures
            r == self.is_content_edit(),
    {
        match self {
            Action::InsertChar(_) => true,
            Action::InsertNewline => true,
            Action::Backspace => true,
            Action::Delete => true,
            _ => false,
        }
    }
}

/// Path, dirty flag, theme, language and last error are untouched by
/// buffer actions.
pub open spec fn meta_unchanged(pre: Document, post: Document) -> bool {
    &&& post.path == pre.path
    &&& post.dirty == pre.dirty
    &&& post.theme == pre.theme
    &&& post.language == pre.language
    &&& post.last_error == pre.last_error
}

/// Content and cursor as before (the no-op branches of clamped edits).
pub open spec fn same_content_cursor(pre: Document, post: Document) -> bool {
    &&& post.lines@ == pre.lines@
    &&& post.cursor == pre.cursor
}

/// Where one cursor step lands: clamped at the document's boundaries.
/// Left at line start moves to the previous line's end, Right at line end
/// to the next line's start; Up and Down keep the column, clamped to the
/// target line's length.
pub open spec fn moved_cursor(pre: Document, dir: Direction, p: Position) -> bool {
    let l = pre.cursor.line as int;
    let c = pre.cursor.col as int;
    match dir {
        Direction::Left => if c > 0 {
            p.line == l && p.col == c - 1
        } else if l > 0 {
            p.line == l - 1 && p.col == pre.lines@[l - 1]@.len()
        } else {
            p == pre.cursor
        },
        Direction::Right => if c < pre.lines@[l]@.len() {
            p.line == l && p.col == c + 1
        } else if l + 1 < pre.lines@.len() {
            p.line == l + 1 && p.col == 0
        } else {
            p == pre.cursor
        },
        Direction::Up => if l > 0 {
            p.line == l - 1 && p.col == (if c <= pre.lines@[l - 1]@.len() {
                c
            } else {
                pre.lines@[l - 1]@.len() as int
            })
        } else {
            p == pre.cursor
        },
        Direction::Down => if l + 1 < pre.lines@.len() {
            p.line == l + 1 && p.col == (if c <= pre.lines@[l + 1]@.len() {
                c
            } else {
                pre.lines@[l + 1]@.len() as int
            })
        } else {
            p == pre.cursor
        },
    }
}

/// `p` is `q` clamped into the document: line capped at the last line,
/// column capped at that line's length.
pub open spec fn clamped(pre: Document, q: Position, p: Position) -> bool {
    &&& p.line == (if (q.line as int) < pre.lines@.len() {
        q.line as int
    } else {
        pre.lines@.len() - 1
    })
    &&& p.col == (if (q.col as int) <= pre.lines@[p.line as int]@.len() {
        q.col as int
    } else {
        pre.lines@[p.line as int]@.len() as int
    })
}

/// Effect of inserting one grapheme at the cursor: the cursor's line gains
/// it at the cursor column, the cursor steps over it, the selection is
/// cleared, every other line is untouched. Full at the machine limit, the
/// line is left as it is.
pub open spec fn insert_char_step(pre: Document, post: Document, g: Grapheme) -> bool {
    let l = pre.cursor.line as int;
    let c = pre.cursor.col as int;
    &&& (if pre.lines@[l]@.len() < usize::MAX {
        &&& post.lines@.len() == pre.lines@.len()
        &&& post.lines@[l]@ == pre.lines@[l]@.insert(c, g)
        &&& forall|j: int| 0 <= j < pre.lines@.len() && j != l ==> post.lines@[j] == pre.lines@[j]
        &&& post.cursor.line == l && post.cursor.col == c + 1
    } else {
        same_content_cursor(pre, post)
    })
    &&& post.selection is None
}

/// Effect of a newline at the cursor: the cursor's line is split there,
/// the cursor moves to the start of the new line, the selection is
/// cleared. At the machine limit on the line count, a no-op.
pub open spec fn insert_newline_step(pre: Document, post: Document) -> bool {
    let l = pre.cursor.line as int;
    let c = pre.cursor.col as int;
    &&& (if pre.lines@.len() < usize::MAX {
        &&& post.lines@.len() == pre.lines@.len() + 1
        &&& post.lines@[l]@ == pre.lines@[l]@.take(c)
        &&& post.lines@[l + 1]@ == pre.lines@[l]@.skip(c)
        &&& forall|j: int| 0 <= j < l ==> post.lines@[j] == pre.lines@[j]
        &&& forall|j: int| l + 1 < j < post.lines@.len() ==> post.lines@[j] == pre.lines@[j - 1]
        &&& post.cursor.line == l + 1 && post.cursor.col == 0
    } else {
        same_content_cursor(pre, post)
    })
    &&& post.selection is None
}

/// Effect of Backspace: mid-line it removes the grapheme before the
/// cursor; at column 0 of a later line it joins the line onto the
/// previous one, the cursor at the join point; at the document start a
/// no-op. The selection is cleared.
pub open spec fn backspace_step(pre: Document, post: Document) -> bool {
    let l = pre.cursor.line as int;
    let c = pre.cursor.col as int;
    &&& (if c > 0 {
        &&& post.lines@.len() == pre.lines@.len()
        &&& post.lines@[l]@ == pre.lines@[l]@.remove(c - 1)
        &&& forall|j: int| 0 <= j < pre.lines@.len() && j != l ==> post.lines@[j] == pre.lines@[j]
        &&& post.cursor.line == l && post.cursor.col == c - 1
    } else if l > 0 {
        &&& post.lines@.len() == pre.lines@.len() - 1
        &&& post.lines@[l - 1]@ == pre.lines@[l - 1]@ + pre.lines@[l]@
        &&& forall|j: int| 0 <= j < l - 1 ==> post.lines@[j] == pre.lines@[j]
        &&& forall|j: int| l - 1 < j < post.lines@.len() ==> post.lines@[j] == pre.lines@[j + 1]
        &&& post.cursor.line == l - 1 && post.cursor.col == pre.lines@[l - 1]@.len()
    } else {
        same_content_cursor(pre, post)
    })
    &&& post.selection is None
}

/// Effect of Delete: mid-line it removes the grapheme at the cursor; at
/// line end it joins the next line onto this one; at the document end a
/// no-op. The cursor stays put; the selection is cleared.
pub open spec fn delete_step(pre: Document, post: Document) -> bool {
    let l = pre.cursor.line as int;
    let c = pre.cursor.col as int;
    &&& (if c < pre.lines@[l]@.len() {
        &&& post.lines@.len() == pre.lines@.len()
        &&& post.lines@[l]@ == pre.lines@[l]@.remove(c)
        &&& forall|j: int| 0 <= j < pre.lines@.len() && j != l ==> post.lines@[j] == pre.lines@[j]
        &&& post.cursor == pre.cursor
    } else if l + 1 < pre.lines@.len() {
        &&& post.lines@.len() == pre.lines@.len() - 1
        &&& post.lines@[l]@ == pre.lines@[l]@ + pre.lines@[l + 1]@
        &&& forall|j: int| 0 <= j < l ==> post.lines@[j] == pre.lines@[j]
        &&& forall|j: int| l < j < post.lines@.len() ==> post.lines@[j] == pre.lines@[j + 1]
        &&& post.cursor == pre.cursor
    } else {
        same_content_cursor(pre, post)
    })
    &&& post.selection is None
}

/// Effect of a cursor motion: content untouched; the cursor moves as
/// `moved_cursor` says; extending keeps (or plants) the anchor, a plain
/// motion drops it.
pub open spec fn move_step(pre: Document, post: Document, dir: Direction, extend: bool) -> bool {
    &&& post.lines@ == pre.lines@
    &&& moved_cursor(pre, dir, post.cursor)
    &&& post.selection == (if extend {
        if pre.selection is Some {
            pre.selection
        } else {
            Some(pre.cursor)
        }
    } else {
        None::<Position>
    })
}

/// Effect of SelectAll: anchor at the document start, cursor at its end.
pub open spec fn select_all_step(pre: Document, post: Document) -> bool {
    &&& post.lines@ == pre.lines@
    &&& post.selection == Some(Position { line: 0, col: 0 })
    &&& post.cursor.line == pre.lines@.len() - 1
    &&& post.cursor.col == pre.lines@[pre.lines@.len() - 1]@.len()
}

/// Effect of SetSelection: both positions clamped into the document,
/// the first as anchor, the second as cursor.
pub open spec fn set_selection_step(pre: Document, post: Document, a: Position, b: Position) -> bool {
    &&& post.lines@ == pre.lines@
    &&& (post.selection matches Some(sa) && clamped(pre, a, sa))
    &&& clamped(pre, b, post.cursor)
}

/// What one action does to content, cursor and selection.
pub open spec fn action_step_content(pre: Document, post: Document, a: Action) -> bool {
    match a {
        Action::MoveCursor(dir, extend) => move_step(pre, post, dir, extend),
        Action::InsertChar(g) => insert_char_step(pre, post, g),
        Action::InsertNewline => insert_newline_step(pre, post),
        Action::Backspace => backspace_step(pre, post),
        Action::Delete => delete_step(pre, post),
        Action::SelectAll => select_all_step(pre, post),
        Action::SetSelection(a0, b0) => set_selection_step(pre, post, a0, b0),
    }
}

/// What one action does to the document: the per-action effect, with all
/// non-buffer fields untouched.
pub open spec fn action_step(pre: Document, post: Document, a: Action) -> bool {
    &&& meta_unchanged(pre, post)
    &&& match a {
        Action::MoveCursor(dir, extend) => move_step(pre, post, dir, extend),
        Action::InsertChar(g) => insert_char_step(pre, post, g),
        Action::InsertNewline => insert_newline_step(pre, post),
        Action::Backspace => backspace_step(pre, post),
        Action::Delete => delete_step(pre, post),
        Action::SelectAll => select_all_step(pre, post),
        Action::SetSelection(a0, b0) => set_selection_step(pre, post, a0, b0),
    }
}

impl Document {
    /// Applies one action atomically and returns its classification:
    /// `true` for a content-changing action. Cursor and selection stay
    /// valid after every action; motion clamps at the boundaries.
    pub fn apply(&mut self, a: Action) -> (content: bool)
        requires
            old(self).wf(),
            a.wf(),
        ensures
            final(self).wf(),
            content == a.is_content_edit(),
            action_step(*old(self), *final(self), a),
    {
        match a {
            Action::MoveCursor(dir, extend) => {
                self.move_cursor(dir, extend);
                false
            },
            Action::InsertChar(g) => {
                self.insert_grapheme(g);
                true
            },
            Action::InsertNewline => {
                self.insert_newline();
                true
            },
            Action::Backspace => {
                self.backspace();
                true
            },
            Action::Delete => {
                self.delete();
                true
            },
            Action::SelectAll => {
                self.select_all();
                false
            },
            Action::SetSelection(a0, b0) => {
                self.set_selection(a0, b0);
                false
            },
        }
    }

    fn insert_grapheme(&mut self, g: Grapheme)
        requires
            old(self).wf(),
            g.wf(),
        ensures
            final(self).wf(),
            meta_unchanged(*old(self), *final(self)),
            insert_char_step(*old(self), *final(self), g),
    {
        let l = self.cursor.line;
        let c = self.cursor.col;
        let mut line = self.lines.remove(l);
        if line.len() < usize::MAX {
            line.insert(c, g);
            self.lines.insert(l, line);
            self.cursor = Position { line: l, col: c + 1 };
            self.selection = None;
            proof {
                assert(self.lines@ =~= old(self).lines@.update(l as int, self.lines@[l as int]));
                let post_line = self.lines@[l as int]@;
                let pre_line = old(self).lines@[l as int]@;
                assert(post_line == pre_line.insert(c as int, g));
                assert forall|k: int| 0 <= k < post_line.len() implies (
                #[trigger] post_line[k]).wf() by {}
            }
        } else {
            self.lines.insert(l, line);
            self.selection = None;
            proof {
                assert(self.lines@ =~= old(self).lines@);
            }
        }
    }

    fn insert_newline(&mut self)
        requires
            old(self).wf(),
        ensures
            final(self).wf(),
            meta_unchanged(*old(self), *final(self)),
            insert_newline_step(*old(self), *final(self)),
    {
        let l = self.cursor.line;
        let c = self.cursor.col;
        let n = self.lines.len();
        if n < usize::MAX {
            let mut line = self.lines.remove(l);
            let tail = line.split_off(c);
            self.lines.insert(l, line);
            self.lines.insert(l + 1, tail);
            self.cursor = Position { line: l + 1, col: 0 };
            self.selection = None;
            proof {
                let pre = old(self).lines@;
                let post = self.lines@;
                assert(post.len() == pre.len() + 1);
                assert forall|j: int| 0 <= j < l implies post[j] == pre[j] by {}
                assert forall|j: int| l + 1 < j < post.len() implies post[j] == pre[j - 1] by {}
            }
        } else {
            self.selection = None;
        }
    }

    fn backspace(&mut self)
        requires
            old(self).wf(),
        ensures
            final(self).wf(),
            meta_unchanged(*old(self), *final(self)),
            backspace_step(*old(self), *final(self)),
    {
        let l = self.cursor.line;
        let c = self.cursor.col;
        if c > 0 {
            let mut line = self.lines.remove(l);
            line.remove(c - 1);
            self.lines.insert(l, line);
            self.cursor = Position { line: l, col: c - 1 };
            self.selection = None;
            proof {
                assert(self.lines@ =~= old(self).lines@.update(l as int, self.lines@[l as int]));
            }
        } else if l > 0 {
            let cur = self.lines.remove(l);
            let mut prev = self.lines.remove(l - 1);
            let prev_len = prev.len();
            let mut cur2 = cur;
            prev.append(&mut cur2);
            self.lines.insert(l - 1, prev);
            self.cursor = Position { line: l - 1, col: prev_len };
            self.selection = None;
            proof {
                let pre = old(self).lines@;
                let post = self.lines@;
                assert(post.len() == pre.len() - 1);
                assert forall|j: int| 0 <= j < l - 1 implies post[j] == pre[j] by {}
                assert forall|j: int| l - 1 < j < post.len() implies post[j] == pre[j + 1] by {}
            }
        } else {
            self.selection = None;
        }
    }

    fn delete(&mut self)
        requires
            old(self).wf(),
        ensures
            final(self).wf(),
            meta_unchanged(*old(self), *final(self)),
            delete_step(*old(self), *final(self)),
    {
        let l = self.cursor.line;
        let c = self.cursor.col;
        let n = self.lines.len();
        let ll = self.lines[l].len();
        if c < ll {
            let mut line = self.lines.remove(l);
            line.remove(c);
            self.lines.insert(l, line);
            self.selection = None;
            proof {
                assert(self.lines@ =~= old(self).lines@.update(l as int, self.lines@[l as int]));
            }
        } else if l + 1 < n {
            let mut next = self.lines.remove(l + 1);
            let mut cur = self.lines.remove(l);
            cur.append(&mut next);
            self.lines.insert(l, cur);
            self.selection = None;
            proof {
                let pre = old(self).lines@;
                let post = self.lines@;
                assert(post.len() == pre.len() - 1);
                assert forall|j: int| 0 <= j < l implies post[j] == pre[j] by {}
                assert forall|j: int| l < j < post.len() implies post[j] == pre[j + 1] by {}
            }
        } else {
            self.selection = None;
        }
    }

    fn move_cursor(&mut self, dir: Direction, extend: bool)
        requires
            old(self).wf(),
        ensures
            final(self).wf(),
            meta_unchanged(*old(self), *final(self)),
            move_step(*old(self), *final(self), dir, extend),
    {
        if extend {
            if self.selection.is_none() {
                self.selection = Some(self.cursor);
            }
        } else {
            self.selection = None;
        }
        let n = self.lines.len();
        match dir {
            Direction::Left => {
                if self.cursor.col > 0 {
                    self.cursor = Position { line: self.cursor.line, col: self.cursor.col - 1 };
                } else if self.cursor.line > 0 {
                    let nl = self.cursor.line - 1;
                    let ll = self.lines[nl].len();
                    self.cursor = Position { line: nl, col: ll };
                }
            },
            Direction::Right => {
                let ll = self.lines[self.cursor.line].len();
                if self.cursor.col < ll {
                    self.cursor = Position { line: self.cursor.line, col: self.cursor.col + 1 };
                } else if self.cursor.line + 1 < n {
                    self.cursor = Position { line: self.cursor.line + 1, col: 0 };
                }
            },
            Direction::Up => {
                if self.cursor.line > 0 {
                    let nl = self.cursor.line - 1;
                    let ll = self.lines[nl].len();
                    let col = if self.cursor.col <= ll {
                        self.cursor.col
                    } else {
                        ll
                    };
                    self.cursor = Position { line: nl, col };
                }
            },
            Direction::Down => {
                if self.cursor.line + 1 < n {
                    let nl = self.cursor.line + 1;
                    let ll = self.lines[nl].len();
                    let col = if self.cursor.col <= ll {
                        self.cursor.col
                    } else {
                        ll
                    };
                    self.cursor = Position { line: nl, col };
                }
            },
        }
    }

    fn select_all(&mut self)
        requires
            old(self).wf(),
        ensures
            final(self).wf(),
            meta_unchanged(*old(self), *final(self)),
            select_all_step(*old(self), *final(self)),
    {
        let n = self.lines.len();
        let last = n - 1;
        let ll = self.lines[last].len();
        self.selection = Some(Position { line: 0, col: 0 });
        self.cursor = Position { line: last, col: ll };
    }

    /// Clamps a requested position into the document.
    fn clamp_position(&self, q: Position) -> (p: Position)
        requires
            self.wf(),
        ensures
            clamped(*self, q, p),
            self.pos_valid(p),
    {
        let n = self.lines.len();
        let l = if q.line < n {
            q.line
        } else {
            n - 1
        };
        let ll = self.lines[l].len();
        let c = if q.col <= ll {
            q.col
        } else {
            ll
        };
        Position { line: l, col: c }
    }

    fn set_selection(&mut self, a: Position, b: Position)
        requires
            old(self).wf(),
        ensures
            final(self).wf(),
            meta_unchanged(*old(self), *final(self)),
            set_selection_step(*old(self), *final(self), a, b),
    {
        let sa = self.clamp_position(a);
        let sb = self.clamp_position(b);
        self.selection = Some(sa);
        self.cursor = sb;
    }
}

/// Cursor validity, one step: an action's step relation leads from a
/// valid document to a valid one — cursor and selection stay within
/// line and column bounds, whatever the action.
pub proof fn lemma_action_preserves_validity(pre: Document, post: Document, a: Action)
    requires
        pre.wf(),
        a.wf(),
        action_step(pre, post, a),
    ensures
        post.wf(),
{
    let l = pre.cursor.line as int;
    let c = pre.cursor.col as int;
    match a {
        Action::MoveCursor(dir, extend) => {
        },
        Action::InsertChar(g) => {
            if pre.lines@[l]@.len() < usize::MAX {
                assert forall|i: int| 0 <= i < post.lines@.len() implies line_wf(
                    #[trigger] post.lines@[i]@,
                ) by {
                    if i == l {
                        assert(post.lines@[l]@ == pre.lines@[l]@.insert(c, g));
                        assert forall|k: int| 0 <= k < post.lines@[l]@.len() implies (
                        #[trigger] post.lines@[l]@[k]).wf() by {}
                    } else {
                        assert(post.lines@[i] == pre.lines@[i]);
                    }
                }
            }
        },
        Action::InsertNewline => {
            if pre.lines@.len() < usize::MAX {
                assert forall|i: int| 0 <= i < post.lines@.len() implies line_wf(
                    #[trigger] post.lines@[i]@,
                ) by {
                    if i == l {
                        assert(post.lines@[l]@ == pre.lines@[l]@.take(c));
                        assert forall|k: int| 0 <= k < post.lines@[i]@.len() implies (
                        #[trigger] post.lines@[i]@[k]).wf() by {
                            assert(post.lines@[i]@[k] == pre.lines@[l]@[k]);
                        }
                    } else if i == l + 1 {
                        assert(post.lines@[l + 1]@ == pre.lines@[l]@.skip(c));
                        assert forall|k: int| 0 <= k < post.lines@[i]@.len() implies (
                        #[trigger] post.lines@[i]@[k]).wf() by {
                            assert(post.lines@[i]@[k] == pre.lines@[l]@[k + c]);
                        }
                    } else if i < l {
                        assert(post.lines@[i] == pre.lines@[i]);
                    } else {
                        assert(post.lines@[i] == pre.lines@[i - 1]);
                    }
                }
            }
        },
        Action::Backspace => {
            if c > 0 {
                assert forall|i: int| 0 <= i < post.lines@.len() implies line_wf(
                    #[trigger] post.lines@[i]@,
                ) by {
                    if i == l {
                        assert(post.lines@[l]@ == pre.lines@[l]@.remove(c - 1));
                        assert forall|k: int| 0 <= k < post.lines@[i]@.len() implies (
                        #[trigger] post.lines@[i]@[k]).wf() by {}
                    } else {
                        assert(post.lines@[i] == pre.lines@[i]);
                    }
                }
            } else if l > 0 {
                assert forall|i: int| 0 <= i < post.lines@.len() implies line_wf(
                    #[trigger] post.lines@[i]@,
                ) by {
                    if i == l - 1 {
                        assert(post.lines@[l - 1]@ == pre.lines@[l - 1]@ + pre.lines@[l]@);
                        assert forall|k: int| 0 <= k < post.lines@[i]@.len() implies (
                        #[trigger] post.lines@[i]@[k]).wf() by {}
                    } else if i < l - 1 {
                        assert(post.lines@[i] == pre.lines@[i]);
                    } else {
                        assert(post.lines@[i] == pre.lines@[i + 1]);
                    }
                }
            }
        },
        Action::Delete => {
            if c < pre.lines@[l]@.len() {
                assert forall|i: int| 0 <= i < post.lines@.len() implies line_wf(
                    #[trigger] post.lines@[i]@,
                ) by {
                    if i == l {
                        assert(post.lines@[l]@ == pre.lines@[l]@.remove(c));
                        assert forall|k: int| 0 <= k < post.lines@[i]@.len() implies (
                        #[trigger] post.lines@[i]@[k]).wf() by {}
                    } else {
                        assert(post.lines@[i] == pre.lines@[i]);
                    }
                }
            } else if l + 1 < pre.lines@.len() {
                assert forall|i: int| 0 <= i < post.lines@.len() implies line_wf(
                    #[trigger] post.lines@[i]@,
                ) by {
                    if i == l {
                        assert(post.lines@[l]@ == pre.lines@[l]@ + pre.lines@[l + 1]@);
                        assert forall|k: int| 0 <= k < post.lines@[i]@.len() implies (
                        #[trigger] post.lines@[i]@[k]).wf() by {}
                    } else if i < l {
                        assert(post.lines@[i] == pre.lines@[i]);
                    } else {
                        assert(post.lines@[i] == pre.lines@[i + 1]);
                    }
                }
            }
        },
        Action::SelectAll => {
        },
        Action::SetSelection(a0, b0) => {
        },
    }
}

/// Cursor validity, whole runs: along any sequence of actions linked by
/// the step relation from a valid starting document, every intermediate
/// and final document is valid — cursor and selection positions remain
/// within line and column bounds after every action.
pub proof fn lemma_action_sequence_validity(docs: Seq<Document>, acts: Seq<Action>)
    requires
        docs.len() == acts.len() + 1,
        docs[0].wf(),
        forall|k: int|
            0 <= k < acts.len() ==> (#[trigger] acts[k]).wf() && action_step(
                docs[k],
                docs[k + 1],
                acts[k],
            ),
    ensures
        forall|k: int| 0 <= k < docs.len() ==> (#[trigger] docs[k]).wf(),
    decreases acts.len(),
{
    if acts.len() > 0 {
        lemma_action_preserves_validity(docs[0], docs[1], acts[0]);
        let dtail = docs.drop_first();
        let atail = acts.drop_first();
        assert(forall|k: int| 0 <= k < dtail.len() ==> #[trigger] dtail[k] == docs[k + 1]);
        assert(forall|k: int| 0 <= k < atail.len() ==> #[trigger] atail[k] == acts[k + 1]);
        assert forall|k: int|
            0 <= k < atail.len() implies (#[trigger] atail[k]).wf() && action_step(
            dtail[k],
            dtail[k + 1],
            atail[k],
        ) by {
            assert(acts[k + 1].wf() && action_step(docs[k + 1], docs[k + 2], acts[k + 1]));
        }
        lemma_action_sequence_validity(dtail, atail);
        assert forall|k: int| 0 <= k < docs.len() implies (#[trigger] docs[k]).wf() by {
            if k > 0 {
                assert(dtail[k - 1].wf());
            }
        }
    }
}

/// Grapheme integrity at the content level: removing, as one Backspace
/// does, the grapheme that one InsertChar put at the cursor restores the
/// line exactly — a multi-codepoint character comes out whole, never as a
/// leftover partial codepoint.
pub proof fn lemma_insert_then_remove(line: Seq<Grapheme>, c: int, g: Grapheme)
    requires
        0 <= c <= line.len(),
    ensures
        line.insert(c, g).remove(c) == line,
{
    assert(line.insert(c, g).remove(c) =~= line);
}

/// Grapheme integrity, as a two-step law: inserting any grapheme — a
/// multi-codepoint character included — and then applying one Backspace
/// restores every line's graphemes and the cursor exactly. No partial
/// codepoint is ever left behind, because the buffer edits whole
/// graphemes.
pub proof fn lemma_grapheme_integrity(pre: Document, mid: Document, post: Document, g: Grapheme)
    requires
        pre.wf(),
        g.wf(),
        pre.lines@[pre.cursor.line as int]@.len() < usize::MAX,
        insert_char_step(pre, mid, g),
        backspace_step(mid, post),
    ensures
        post.lines@.len() == pre.lines@.len(),
        forall|j: int| 0 <= j < pre.lines@.len() ==> #[trigger] post.lines@[j]@ == pre.lines@[j]@,
        post.cursor == pre.cursor,
{
    let l = pre.cursor.line as int;
    let c = pre.cursor.col as int;
    assert(mid.cursor.line == l && mid.cursor.col == c + 1);
    lemma_insert_then_remove(pre.lines@[l]@, c, g);
    assert(post.lines@[l]@ == mid.lines@[l]@.remove(c));
    assert forall|j: int| 0 <= j < pre.lines@.len() implies #[trigger] post.lines@[j]@
        == pre.lines@[j]@ by {
        if j != l {
            assert(mid.lines@[j] == pre.lines@[j]);
            assert(post.lines@[j] == mid.lines@[j]);
        }
    }
}

} // verus!
