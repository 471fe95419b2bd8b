//! The document's update loop: one message at a time.
//!
//! Edits apply synchronously. Open and save run asynchronously outside
//! this crate: `update` only decides, returning an `Effect` the
//! surrounding runtime performs (show a picker, read or write a file),
//! and the runtime posts the outcome back as a `FileOpened` or
//! `FileSaved` message. Outcomes are applied in arrival order; a
//! resolving open or save overwrites the document unconditionally
//! (last writer wins), so an edit made while one is in flight is
//! discarded when it resolves.

use vstd::prelude::*;
use vstd::string::*;
use crate::text::{
    Grapheme, doc_chars, line_wf, line_chars, line_segmented, lines_joined, extend_char,
    is_extend_char, lemma_doc_chars_snoc,
};
use crate::errors::EditorError;
use crate::document::{Document, Position};
use crate::buffer::{Action, meta_unchanged};
use crate::highlight::{Theme, Language, language_from_path, language_of_path};

verus! {

/// A state-mutating event, applied to the document one at a time: an
/// edit, a workflow request, the outcome of an asynchronous open or
/// save, or a theme change.
#[derive(Debug)]
pub enum Message {
    Edit(Action),
    New,
    Open,
    Save,
    FileOpened(Result<(String, Vec<char>), EditorError>),
    FileSaved(Result<String, EditorError>),
    ThemeChanged(Theme),
}

/// What the surrounding runtime must do after an update step: nothing;
/// pick a file interactively and open it; open a known path; or save the
/// given text, picking a path first when none is given. The runtime
/// posts the outcome back as `FileOpened` or `FileSaved`.
#[derive(Debug)]
pub enum Effect {
    Nothing,
    PickAndOpen,
    OpenPath(String),
    StartSave { path: Option<String>, text: Vec<char> },
}

/// A message is well formed when any action it carries is.
pub open spec fn message_wf(m: Message) -> bool {
    match m {
        Message::Edit(a) => a.wf(),
        _ => true,
    }
}

/// Messages that force the dirty flag: content-changing edits, and the
/// reset to a fresh unsaved document.
pub open spec fn sets_dirty(m: Message) -> bool {
    match m {
        Message::Edit(a) => a.is_content_edit(),
        Message::New => true,
        _ => false,
    }
}

/// Messages that clear the dirty flag: successful opens and saves.
pub open spec fn clears_dirty(m: Message) -> bool {
    match m {
        Message::FileOpened(r) => r is Ok,
        Message::FileSaved(r) => r is Ok,
        _ => false,
    }
}

/// The dirty flag after one message: forced, cleared, or left alone.
pub open spec fn dirty_after(d: bool, m: Message) -> bool {
    if sets_dirty(m) {
        true
    } else if clears_dirty(m) {
        false
    } else {
        d
    }
}

/// The dirty flag after a whole message sequence.
pub open spec fn dirty_after_seq(d: bool, ms: Seq<Message>) -> bool
    decreases ms.len(),
{
    if ms.len() == 0 {
        d
    } else {
        dirty_after(dirty_after_seq(d, ms.drop_last()), ms.last())
    }
}

/// Dirty correctness over sequences: after any run of messages the flag
/// is set iff some content-changing edit (or new-document reset) has no
/// successful open or save after it — or the flag was set at the start
/// and no successful open or save occurred at all. Cursor-only edits
/// never figure in it.
pub proof fn lemma_dirty_correctness(d: bool, ms: Seq<Message>)
    ensures
        dirty_after_seq(d, ms) <==> ((exists|i: int|
            0 <= i < ms.len() && sets_dirty(#[trigger] ms[i]) && (forall|j: int|
                i < j < ms.len() ==> !clears_dirty(#[trigger] ms[j]))) || (d && forall|j: int|
            0 <= j < ms.len() ==> !clears_dirty(#[trigger] ms[j]))),
    decreases ms.len(),
{
    if ms.len() > 0 {
        let rest = ms.drop_last();
        let last = ms.last();
        lemma_dirty_correctness(d, rest);
        assert(forall|k: int| 0 <= k < rest.len() ==> #[trigger] rest[k] == ms[k]);
        assert(last == ms[ms.len() - 1]);
        if sets_dirty(last) {
            assert(dirty_after_seq(d, ms));
            assert(0 <= ms.len() - 1 < ms.len() && sets_dirty(ms[ms.len() - 1]) && (forall|j: int|
                ms.len() - 1 < j < ms.len() ==> !clears_dirty(#[trigger] ms[j])));
        } else if clears_dirty(last) {
            assert(!dirty_after_seq(d, ms));
            assert(clears_dirty(ms[ms.len() - 1]));
            assert(forall|i: int|
                0 <= i < ms.len() ==> !(sets_dirty(#[trigger] ms[i]) && (forall|j: int|
                    i < j < ms.len() ==> !clears_dirty(#[trigger] ms[j]))));
        } else {
            assert(dirty_after_seq(d, ms) == dirty_after_seq(d, rest));
            if dirty_after_seq(d, rest) {
                if exists|i: int|
                    0 <= i < rest.len() && sets_dirty(#[trigger] rest[i]) && (forall|j: int|
                        i < j < rest.len() ==> !clears_dirty(#[trigger] rest[j])) {
                    let i = choose|i: int|
                        0 <= i < rest.len() && sets_dirty(#[trigger] rest[i]) && (forall|j: int|
                            i < j < rest.len() ==> !clears_dirty(#[trigger] rest[j]));
                    assert(sets_dirty(ms[i]));
                    assert forall|j: int| i < j < ms.len() implies !clears_dirty(
                        #[trigger] ms[j],
                    ) by {
                        if j < ms.len() - 1 {
                            assert(rest[j] == ms[j]);
                            assert(!clears_dirty(rest[j]));
                        }
                    }
                } else {
                    assert(d && forall|j: int|
                        0 <= j < rest.len() ==> !clears_dirty(#[trigger] rest[j]));
                    assert forall|j: int| 0 <= j < ms.len() implies !clears_dirty(
                        #[trigger] ms[j],
                    ) by {
                        if j < ms.len() - 1 {
                            assert(rest[j] == ms[j]);
                            assert(!clears_dirty(rest[j]));
                        }
                    }
                }
            } else {
                assert forall|i: int|
                    0 <= i < ms.len() implies !(sets_dirty(#[trigger] ms[i]) && (forall|j: int|
                        i < j < ms.len() ==> !clears_dirty(#[trigger] ms[j]))) by {
                    if i < ms.len() - 1 && sets_dirty(ms[i]) && (forall|j: int|
                        i < j < ms.len() ==> !clears_dirty(#[trigger] ms[j])) {
                        assert(rest[i] == ms[i]);
                        assert(forall|j: int|
                            i < j < rest.len() ==> !clears_dirty(#[trigger] rest[j]));
                    }
                }
            }
        }
    }
}

/// The views of an optional path: equal paths read back equally.
pub open spec fn opt_path_view(p: Option<String>) -> Option<Seq<char>> {
    match p {
        Some(s) => Some(s@),
        None => None,
    }
}

/// What a successful open leaves: the payload as content, cursor at the
/// start, the path stored with its language, the document clean. The
/// prior content is gone whatever it was — last writer wins.
pub open spec fn opened_step(pre: Document, post: Document, p: String, content: Seq<char>) -> bool {
    &&& post.text() == content
    &&& forall|i: int| 0 <= i < post.lines@.len() ==> line_segmented(#[trigger] post.lines@[i]@)
    &&& post.cursor == (Position { line: 0, col: 0 })
    &&& post.selection is None
    &&& post.path == Some(p)
    &&& post.language == language_of_path(p@)
    &&& !post.dirty
    &&& post.theme == pre.theme
    &&& post.last_error == pre.last_error
}

/// What a successful save leaves: content untouched, the written path
/// stored with its language, the document clean.
pub open spec fn saved_step(pre: Document, post: Document, p: String) -> bool {
    &&& post.lines@ == pre.lines@
    &&& post.cursor == pre.cursor
    &&& post.selection == pre.selection
    &&& post.path == Some(p)
    &&& post.language == language_of_path(p@)
    &&& !post.dirty
    &&& post.theme == pre.theme
    &&& post.last_error == pre.last_error
}

/// Everything as before except the recorded error: how failed workflows
/// leave the document.
pub open spec fn same_but_error(pre: Document, post: Document) -> bool {
    &&& post.lines@ == pre.lines@
    &&& post.cursor == pre.cursor
    &&& post.selection == pre.selection
    &&& post.path == pre.path
    &&& post.dirty == pre.dirty
    &&& post.theme == pre.theme
    &&& post.language == pre.language
}

/// A fresh, empty, path-less document, as the new-document reset leaves
/// it: one empty line, cursor at the start, plain text.
pub open spec fn fresh_content(post: Document) -> bool {
    &&& post.lines@.len() == 1
    &&& post.lines@[0]@.len() == 0
    &&& post.cursor == (Position { line: 0, col: 0 })
    &&& post.selection is None
    &&& post.path is None
    &&& post.language == Language::PlainText
}

impl Document {
    /// Replaces the content with the given text: split into lines at
    /// newlines, combining marks clustered onto their base characters.
    /// The new content reads back exactly as the given text; the cursor
    /// returns to the start and the selection is dropped. Only content,
    /// cursor and selection change.
    pub fn set_text(&mut self, content: &Vec<char>)
        requires
            old(self).wf(),
        ensures
            final(self).wf(),
            meta_unchanged(*old(self), *final(self)),
            final(self).text() == content@,
            forall|i: int|
                0 <= i < final(self).lines@.len() ==> line_segmented(
                    #[trigger] final(self).lines@[i]@,
                ),
            final(self).cursor == (Position { line: 0, col: 0 }),
            final(self).selection is None,
    {
        let mut lines: Vec<Vec<Grapheme>> = Vec::new();
        let mut cur: Vec<Grapheme> = Vec::new();
        let n = content.len();
        let mut i: usize = 0;
        proof {
            assert(content@.take(0) =~= Seq::<char>::empty());
            assert(lines_joined(lines@) + line_chars(cur@) =~= Seq::<char>::empty());
        }
        while i < n
            invariant
                i <= n,
                n == content@.len(),
                lines_joined(lines@) + line_chars(cur@) == content@.take(i as int),
                forall|k: int| 0 <= k < lines@.len() ==> line_wf(#[trigger] lines@[k]@),
                forall|k: int| 0 <= k < lines@.len() ==> line_segmented(#[trigger] lines@[k]@),
                line_wf(cur@),
                line_segmented(cur@),
            decreases n - i,
        {
            let c = content[i];
            let ghost lines0 = lines@;
            let ghost cur0 = cur@;
            if c == '\n' {
                lines.push(cur);
                cur = Vec::new();
                proof {
                    assert(lines@.drop_last() =~= lines0);
                    assert(lines_joined(lines@) =~= lines_joined(lines0) + line_chars(cur0)
                        + seq!['\n']);
                    assert(line_chars(cur@) =~= Seq::<char>::empty());
                    assert(content@.take(i + 1) =~= content@.take(i as int).push(c));
                    assert(lines_joined(lines@) + line_chars(cur@) =~= content@.take(i + 1));
                    assert forall|k: int| 0 <= k < lines@.len() implies line_segmented(
                        #[trigger] lines@[k]@,
                    ) by {
                        if k < lines0.len() {
                            assert(lines@[k] == lines0[k]);
                        } else {
                            assert(lines@[k]@ == cur0);
                        }
                    }
                }
            } else {
                let is_ext = extend_char(c);
                if is_ext && cur.len() > 0 {
                    let li = cur.len() - 1;
                    let mut g = cur.remove(li);
                    g.units.push(c);
                    cur.push(g);
                    proof {
                        assert(c != '\n');
                        assert(cur@.drop_last() =~= cur0.drop_last());
                        assert(cur@.last().chars() =~= cur0.last().chars() + seq![c]);
                        assert(line_chars(cur@) =~= line_chars(cur0) + seq![c]);
                        assert(content@.take(i + 1) =~= content@.take(i as int).push(c));
                        assert(lines_joined(lines@) + line_chars(cur@) =~= content@.take(i + 1));
                        assert(cur@.last().wf());
                        assert forall|k: int| 0 <= k < cur@.len() implies (#[trigger] cur@[k]).wf()
                            by {
                            if k < cur@.len() - 1 {
                                assert(cur@[k] == cur0[k]);
                            }
                        }
                        assert forall|k: int, t: int|
                            0 <= k < cur@.len() && 1 <= t < cur@[k].chars().len()
                            implies is_extend_char(#[trigger] cur@[k].chars()[t]) by {
                            if k < cur@.len() - 1 {
                                assert(cur@[k] == cur0[k]);
                            } else {
                                if t < cur@[k].chars().len() - 1 {
                                    assert(cur@[k].chars()[t] == cur0[k].chars()[t]);
                                } else {
                                    assert(cur@[k].chars()[t] == c);
                                }
                            }
                        }
                        assert forall|k: int| 1 <= k < cur@.len() implies !is_extend_char(
                            (#[trigger] cur@[k]).chars()[0],
                        ) by {
                            if k < cur@.len() - 1 {
                                assert(cur@[k] == cur0[k]);
                            } else {
                                assert(cur@[k].chars()[0] == cur0[k].chars()[0]);
                            }
                        }
                    }
                } else {
                    cur.push(Grapheme::single(c));
                    proof {
                        assert(cur@.drop_last() =~= cur0);
                        assert(line_chars(cur@) =~= line_chars(cur0) + seq![c]);
                        assert(content@.take(i + 1) =~= content@.take(i as int).push(c));
                        assert(lines_joined(lines@) + line_chars(cur@) =~= content@.take(i + 1));
                        assert forall|k: int| 0 <= k < cur@.len() - 1 implies #[trigger] cur@[k]
                            == cur0[k] by {}
                        assert(cur@.last().chars() =~= seq![c]);
                        assert(!is_ext || cur0.len() == 0);
                    }
                }
            }
            i += 1;
        }
        let ghost done = lines@;
        let ghost curf = cur@;
        lines.push(cur);
        self.lines = lines;
        self.cursor = Position { line: 0, col: 0 };
        self.selection = None;
        proof {
            assert(content@.take(n as int) =~= content@);
            lemma_doc_chars_snoc(done, self.lines@.last());
            assert(self.lines@ == done.push(self.lines@.last()));
            assert(self.lines@.last()@ == curf);
            assert(self.text() == content@);
            assert forall|i: int| 0 <= i < self.lines@.len() implies line_segmented(
                #[trigger] self.lines@[i]@,
            ) by {
                if i < done.len() {
                    assert(self.lines@[i] == done[i]);
                } else {
                    assert(self.lines@[i]@ == curf);
                }
            }
        }
    }

    /// The document text as a character vector, for saving: lines joined
    /// by newlines, each grapheme contributing its scalar values in order.
    pub fn content_chars(&self) -> (out: Vec<char>)
        requires
            self.wf(),
        ensures
            out@ == self.text(),
    {
        let mut out: Vec<char> = Vec::new();
        let n = self.lines.len();
        let mut li: usize = 0;
        proof {
            assert(self.lines@.take(0).len() == 0);
        }
        while li < n
            invariant
                li <= n,
                n == self.lines@.len(),
                self.wf(),
                out@ == doc_chars(self.lines@.take(li as int)),
            decreases n - li,
        {
            if li > 0 {
                out.push('\n');
            }
            let ghost base = out@;
            let line = &self.lines[li];
            let m = line.len();
            let mut k: usize = 0;
            proof {
                assert(line@.take(0).len() == 0);
                assert(base + line_chars(line@.take(0)) =~= base);
            }
            while k < m
                invariant
                    k <= m,
                    m == line@.len(),
                    line_wf(line@),
                    out@ == base + line_chars(line@.take(k as int)),
                decreases m - k,
            {
                proof {
                    assert(line@[k as int].wf());
                }
                let g = &line[k];
                let u = g.units.len();
                let mut t: usize = 0;
                proof {
                    assert(g.chars().take(0).len() == 0);
                    assert(out@ + g.chars().take(0) =~= out@);
                }
                let ghost mid = out@;
                while t < u
                    invariant
                        t <= u,
                        u == g.chars().len(),
                        out@ == mid + g.chars().take(t as int),
                    decreases u - t,
                {
                    out.push(g.units[t]);
                    proof {
                        assert(g.chars().take(t + 1) =~= g.chars().take(t as int).push(
                            g.chars()[t as int],
                        ));
                    }
                    t += 1;
                }
                proof {
                    assert(g.chars().take(u as int) =~= g.chars());
                    assert(line@.take(k + 1).drop_last() =~= line@.take(k as int));
                    assert(line@.take(k + 1).last() == line@[k as int]);
                    assert(line_chars(line@.take(k + 1)) =~= line_chars(line@.take(k as int))
                        + g.chars());
                    assert(out@ =~= base + line_chars(line@.take(k + 1)));
                }
                k += 1;
            }
            proof {
                assert(line@.take(m as int) =~= line@);
                let taken = self.lines@.take(li + 1);
                assert(taken.drop_last() =~= self.lines@.take(li as int));
                assert(taken.last() == self.lines@[li as int]);
                assert(out@ =~= doc_chars(taken));
            }
            li += 1;
        }
        proof {
            assert(self.lines@.take(n as int) =~= self.lines@);
        }
        out
    }

    /// Applies one message and returns the effect the runtime must
    /// perform. The document stays valid; the dirty flag follows
    /// `dirty_after` exactly; each workflow outcome changes precisely the
    /// fields its step predicate names, and failed workflows leave
    /// everything but the recorded error untouched.
    pub fn update(&mut self, m: Message) -> (e: Effect)
        requires
            old(self).wf(),
            message_wf(m),
        ensures
            final(self).wf(),
            final(self).dirty == dirty_after(old(self).dirty, m),
            (match m {
                Message::Edit(a) => {
                    &&& crate::buffer::action_step_content(*old(self), *final(self), a)
                    &&& (a.is_content_edit() ==> final(self).last_error is None)
                    &&& (!a.is_content_edit() ==> final(self).last_error == old(self).last_error)
                    &&& final(self).path == old(self).path
                    &&& final(self).theme == old(self).theme
                    &&& final(self).language == old(self).language
                },
                Message::New => {
                    &&& fresh_content(*final(self))
                    &&& final(self).theme == old(self).theme
                    &&& final(self).last_error == old(self).last_error
                },
                Message::Open => *final(self) == *old(self),
                Message::Save => *final(self) == *old(self),
                Message::FileOpened(r) => match r {
                    Ok((p, content)) => opened_step(*old(self), *final(self), p, content@),
                    Err(err) => same_but_error(*old(self), *final(self)) && final(self).last_error == Some(err),
                },
                Message::FileSaved(r) => match r {
                    Ok(p) => saved_step(*old(self), *final(self), p),
                    Err(err) => same_but_error(*old(self), *final(self)) && final(self).last_error == Some(err),
                },
                Message::ThemeChanged(t) => {
                    &&& final(self).theme == t
                    &&& same_but_theme(*old(self), *final(self))
                },
            }),
            (match m {
                Message::Open => e is PickAndOpen,
                Message::Save => e matches Effect::StartSave { path, text } && opt_path_view(path)
                    == opt_path_view(old(self).path) && text@ == old(self).text(),
                _ => e is Nothing,
            }),
    {
        match m {
            Message::Edit(a) => {
                let content = self.apply(a);
                if content {
                    self.dirty = true;
                    self.last_error = None;
                }
                Effect::Nothing
            },
            Message::New => {
                let mut lines: Vec<Vec<Grapheme>> = Vec::new();
                let empty_line: Vec<Grapheme> = Vec::new();
                lines.push(empty_line);
                self.lines = lines;
                self.cursor = Position { line: 0, col: 0 };
                self.selection = None;
                self.path = None;
                self.dirty = true;
                self.language = Language::PlainText;
                Effect::Nothing
            },
            Message::Open => Effect::PickAndOpen,
            Message::Save => {
                let text = self.content_chars();
                let path = match &self.path {
                    Some(p) => Some(p.clone()),
                    None => None,
                };
                Effect::StartSave { path, text }
            },
            Message::FileOpened(r) => match r {
                Ok((p, content)) => {
                    self.set_text(&content);
                    let lang = language_from_path(p.as_str());
                    self.path = Some(p);
                    self.language = lang;
                    self.dirty = false;
                    Effect::Nothing
                },
                Err(err) => {
                    self.last_error = Some(err);
                    Effect::Nothing
                },
            },
            Message::FileSaved(r) => match r {
                Ok(p) => {
                    let lang = language_from_path(p.as_str());
                    self.path = Some(p);
                    self.language = lang;
                    self.dirty = false;
                    Effect::Nothing
                },
                Err(err) => {
                    self.last_error = Some(err);
                    Effect::Nothing
                },
            },
            Message::ThemeChanged(t) => {
                self.theme = t;
                Effect::Nothing
            },
        }
    }
}

/// Save/Open round trip: a save effect carries exactly the document's
/// text; when the filesystem hands those characters back, reopening
/// makes any document textually identical to the one that was saved —
/// and clean.
pub proof fn lemma_save_open_round_trip(
    saved: Document,
    written: Seq<char>,
    pre: Document,
    post: Document,
    p: String,
)
    requires
        written == saved.text(),
        opened_step(pre, post, p, written),
    ensures
        post.text() == saved.text(),
        !post.dirty,
{
}

/// Everything as before except the theme.
pub open spec fn same_but_theme(pre: Document, post: Document) -> bool {
    &&& post.lines@ == pre.lines@
    &&& post.cursor == pre.cursor
    &&& post.selection == pre.selection
    &&& post.path == pre.path
    &&& post.dirty == pre.dirty
    &&& post.language == pre.language
    &&& post.last_error == pre.last_error
}

/// The file loaded at startup before any user action.
pub fn default_file() -> (r: String)
    ensures
        r@ == "src/main.rs"@,
{
    String::from_str("src/main.rs")
}

/// The editor's initial state and startup work: a fresh dirty document,
/// immediately superseded by the load of the default file once the
/// runtime performs the returned open effect.
pub fn startup() -> (r: (Document, Effect))
    ensures
        r.0.wf(),
        r.0.dirty,
        r.0.path is None,
        r.0.text() == Seq::<char>::empty(),
        r.0.cursor == (Position { line: 0, col: 0 }),
        r.0.selection is None,
        r.0.theme == Theme::SolarizedDark,
        r.0.language == Language::PlainText,
        r.0.last_error is None,
        r.1 matches Effect::OpenPath(p) && p@ == "src/main.rs"@,
{
    let d = Document::new();
    (d, Effect::OpenPath(default_file()))
}

/// The keyboard shortcut policy: a character key with the platform
/// command modifier held requests a save; every other key is ignored.
pub fn key_press_message(is_character: bool, command: bool) -> (r: Option<Message>)
    ensures
        is_character && command ==> r == Some(Message::Save),
        !(is_character && command) ==> r is None,
{
    if is_character && command {
        Some(Message::Save)
    } else {
        None
    }
}

} // verus!
