//! Syntax-highlight span computation.
//!
//! Highlighting is a pure function from (document lines, language, theme)
//! to styled spans. For an unrecognized or absent language every non-empty
//! line is a single default-styled span; for a recognized language a line
//! is cut into maximal runs of one syntactic category, with a line comment
//! swallowing the rest of its line. Spans of one line are contiguous,
//! non-overlapping, and cover the line exactly.

use vstd::prelude::*;
use vstd::string::*;
use crate::text::{Grapheme, line_wf};

verus! {

/// The highlighting language, resolved from a file path's extension.
#[derive(Debug, Clone, Copy, PartialEq, Eq, Structural)]
pub enum Language {
    PlainText,
    Rust,
}

/// The color theme of the editor; selects the style token attached to
/// each syntactic category.
#[derive(Debug, Clone, Copy, PartialEq, Eq, Structural)]
pub enum Theme {
    SolarizedDark,
    Base16Eighties,
    Base16Mocha,
    Base16Ocean,
    InspiredGithub,
}

/// Overall appearance class of a theme, for window chrome.
#[derive(Debug, Clone, Copy, PartialEq, Eq, Structural)]
pub enum Appearance {
    Dark,
    Light,
}

/// Syntactic category of a run of graphemes.
#[derive(Debug, Clone, Copy, PartialEq, Eq, Structural)]
pub enum Category {
    Plain,
    Word,
    Number,
    Space,
    Symbol,
    Comment,
}

/// Visual attribute a theme assigns to a category: a packed RGB color.
#[derive(Debug, Clone, Copy, PartialEq, Eq, Structural)]
pub struct StyleToken {
    pub color: u32,
}

/// A styled run within a single line, in grapheme units:
/// the graphemes at indices `start..end` share one category.
#[derive(Debug, Clone, Copy, PartialEq, Eq, Structural)]
pub struct Span {
    pub start: usize,
    pub end: usize,
    pub category: Category,
}

/// A styled run within a document: `start..end` in grapheme units on the
/// given source line, carrying the theme-resolved style token.
#[derive(Debug, Clone, Copy, PartialEq, Eq, Structural)]
pub struct StyledSpan {
    pub line: usize,
    pub start: usize,
    pub end: usize,
    pub token: StyleToken,
}

pub open spec fn theme_is_dark(t: Theme) -> bool {
    !(t is InspiredGithub)
}

impl Theme {
    pub fn is_dark(&self) -> (r: bool)
        ensures
            r == theme_is_dark(*self),
    {
        match self {
            Theme::InspiredGithub => false,
            _ => true,
        }
    }
}

/// The window appearance a theme asks for: dark themes get a dark window.
pub fn appearance(t: Theme) -> (r: Appearance)
    ensures
        theme_is_dark(t) ==> r == Appearance::Dark,
        !theme_is_dark(t) ==> r == Appearance::Light,
{
    if t.is_dark() {
        Appearance::Dark
    } else {
        Appearance::Light
    }
}

/// Base text color of a theme.
pub open spec fn theme_base_color(t: Theme) -> u32 {
    match t {
        Theme::SolarizedDark => 0x839496,
        Theme::Base16Eighties => 0xD3D0C8,
        Theme::Base16Mocha => 0xD0C8C6,
        Theme::Base16Ocean => 0xC0C5CE,
        Theme::InspiredGithub => 0x323232,
    }
}

/// Muted color of a theme, used for comments.
pub open spec fn theme_muted_color(t: Theme) -> u32 {
    match t {
        Theme::SolarizedDark => 0x586E75,
        Theme::Base16Eighties => 0x747369,
        Theme::Base16Mocha => 0x7E705A,
        Theme::Base16Ocean => 0x65737E,
        Theme::InspiredGithub => 0x969896,
    }
}

/// Accent color of a theme, used for numbers.
pub open spec fn theme_accent_color(t: Theme) -> u32 {
    match t {
        Theme::SolarizedDark => 0x2AA198,
        Theme::Base16Eighties => 0xF99157,
        Theme::Base16Mocha => 0xF4BC87,
        Theme::Base16Ocean => 0xD08770,
        Theme::InspiredGithub => 0x0086B3,
    }
}

/// The style token a theme assigns to a syntactic category.
pub open spec fn style_of(t: Theme, c: Category) -> StyleToken {
    match c {
        Category::Comment => StyleToken { color: theme_muted_color(t) },
        Category::Number => StyleToken { color: theme_accent_color(t) },
        _ => StyleToken { color: theme_base_color(t) },
    }
}

/// Resolves the `(category, theme)` lookup table at one point.
pub fn resolve_style(t: Theme, c: Category) -> (r: StyleToken)
    ensures
        r == style_of(t, c),
{
    let color: u32 = match c {
        Category::Comment => match t {
            Theme::SolarizedDark => 0x586E75,
            Theme::Base16Eighties => 0x747369,
            Theme::Base16Mocha => 0x7E705A,
            Theme::Base16Ocean => 0x65737E,
            Theme::InspiredGithub => 0x969896,
        },
        Category::Number => match t {
            Theme::SolarizedDark => 0x2AA198,
            Theme::Base16Eighties => 0xF99157,
            Theme::Base16Mocha => 0xF4BC87,
            Theme::Base16Ocean => 0xD08770,
            Theme::InspiredGithub => 0x0086B3,
        },
        _ => match t {
            Theme::SolarizedDark => 0x839496,
            Theme::Base16Eighties => 0xD3D0C8,
            Theme::Base16Mocha => 0xD0C8C6,
            Theme::Base16Ocean => 0xC0C5CE,
            Theme::InspiredGithub => 0x323232,
        },
    };
    StyleToken { color }
}

/// Syntactic category of a single scalar value.
pub open spec fn char_category(c: char) -> Category {
    if c == ' ' || c == '\t' {
        Category::Space
    } else if '0' <= c && c <= '9' {
        Category::Number
    } else if ('a' <= c && c <= 'z') || ('A' <= c && c <= 'Z') || c == '_' || c as u32 > 0x7F {
        Category::Word
    } else {
        Category::Symbol
    }
}

pub fn category_of(c: char) -> (r: Category)
    ensures
        r == char_category(c),
{
    if c == ' ' || c == '\t' {
        Category::Space
    } else if '0' <= c && c <= '9' {
        Category::Number
    } else if ('a' <= c && c <= 'z') || ('A' <= c && c <= 'Z') || c == '_' || c as u32 > 0x7F {
        Category::Word
    } else {
        Category::Symbol
    }
}

/// Category of a grapheme: that of its base (first) scalar value.
pub open spec fn grapheme_category(g: Grapheme) -> Category {
    char_category(g.chars()[0])
}

/// Whether a line comment (`//`) begins at grapheme index `i`.
pub open spec fn comment_at(line: Seq<Grapheme>, i: int) -> bool {
    &&& i + 1 < line.len()
    &&& line[i].chars()[0] == '/'
    &&& line[i + 1].chars()[0] == '/'
}

/// End (exclusive) of the maximal run of one category starting at `i`:
/// the first index past `i` that leaves the line, changes category, or
/// starts a line comment.
pub open spec fn run_end(line: Seq<Grapheme>, i: int) -> int
    decreases line.len() - i,
    when 0 <= i < line.len()
{
    if i + 1 >= line.len() {
        i + 1
    } else if grapheme_category(line[i + 1]) != grapheme_category(line[i]) || comment_at(
        line,
        i + 1,
    ) {
        i + 1
    } else {
        run_end(line, i + 1)
    }
}

/// The tokenization of a line from grapheme index `i` on: a comment span
/// to end of line where a comment starts, otherwise one span per maximal
/// category run. Spans are `(start, end, category)` in grapheme units.
pub open spec fn tok_from(line: Seq<Grapheme>, i: int) -> Seq<(int, int, Category)>
    decreases line.len() - i,
    when 0 <= i
    via tok_from_decreases
{
    if i >= line.len() {
        Seq::empty()
    } else if comment_at(line, i) {
        seq![(i, line.len() as int, Category::Comment)]
    } else {
        seq![(i, run_end(line, i), grapheme_category(line[i]))] + tok_from(
            line,
            run_end(line, i),
        )
    }
}

#[via_fn]
proof fn tok_from_decreases(line: Seq<Grapheme>, i: int) {
    if i < line.len() && !comment_at(line, i) {
        lemma_run_end_bounds(line, i);
    }
}

/// A maximal run starting inside the line ends after it begins and within
/// the line.
pub proof fn lemma_run_end_bounds(line: Seq<Grapheme>, i: int)
    requires
        0 <= i < line.len(),
    ensures
        i < run_end(line, i) <= line.len(),
    decreases line.len() - i,
{
    if i + 1 < line.len() && grapheme_category(line[i + 1]) == grapheme_category(line[i])
        && !comment_at(line, i + 1) {
        lemma_run_end_bounds(line, i + 1);
    }
}

/// The spans of one line under a language: nothing for an empty line, one
/// default-styled span for plain text, the tokenization otherwise.
pub open spec fn line_spans(line: Seq<Grapheme>, lang: Language) -> Seq<(int, int, Category)> {
    if line.len() == 0 {
        Seq::empty()
    } else if lang is PlainText {
        seq![(0, line.len() as int, Category::Plain)]
    } else {
        tok_from(line, 0)
    }
}

/// The spans emitted for a suffix of a line are non-empty spans in bounds,
/// contiguous, starting at `i` and ending at the end of the line.
pub proof fn lemma_tok_partition(line: Seq<Grapheme>, i: int)
    requires
        0 <= i <= line.len(),
    ensures
        i == line.len() ==> tok_from(line, i).len() == 0,
        i < line.len() ==> tok_from(line, i).len() > 0,
        i < line.len() ==> tok_from(line, i)[0].0 == i,
        i < line.len() ==> tok_from(line, i).last().1 == line.len(),
        forall|k: int|
            0 <= k < tok_from(line, i).len() ==> i <= #[trigger] tok_from(line, i)[k].0
                < tok_from(line, i)[k].1 <= line.len(),
        forall|k: int|
            0 <= k < tok_from(line, i).len() - 1 ==> #[trigger] tok_from(line, i)[k].1 == tok_from(
                line,
                i,
            )[k + 1].0,
    decreases line.len() - i,
{
    if i < line.len() {
        if comment_at(line, i) {
        } else {
            lemma_run_end_bounds(line, i);
            let j = run_end(line, i);
            lemma_tok_partition(line, j);
            let head = seq![(i, j, grapheme_category(line[i]))];
            let rest = tok_from(line, j);
            assert(tok_from(line, i) == head + rest);
            assert forall|k: int| 0 <= k < tok_from(line, i).len() implies i <= #[trigger] tok_from(
                line,
                i,
            )[k].0 < tok_from(line, i)[k].1 <= line.len() by {
                if k > 0 {
                    assert(tok_from(line, i)[k] == rest[k - 1]);
                }
            }
            assert forall|k: int| 0 <= k < tok_from(line, i).len() - 1 implies #[trigger] tok_from(
                line,
                i,
            )[k].1 == tok_from(line, i)[k + 1].0 by {
                if k > 0 {
                    assert(tok_from(line, i)[k] == rest[k - 1]);
                    assert(tok_from(line, i)[k + 1] == rest[k]);
                } else {
                    if rest.len() > 0 {
                        assert(tok_from(line, i)[1] == rest[0]);
                    }
                }
            }
            if rest.len() > 0 {
                assert(tok_from(line, i).last() == rest.last());
            }
        }
    }
}

/// Coverage of one line, for every language and line: the spans are
/// non-empty, in bounds, contiguous, the first starts at 0 and the last
/// ends at the line's length — so together they cover the line exactly,
/// without gap or overlap.
pub proof fn lemma_line_spans_partition(line: Seq<Grapheme>, lang: Language)
    ensures
        line.len() == 0 ==> line_spans(line, lang).len() == 0,
        line.len() > 0 ==> line_spans(line, lang).len() > 0,
        line.len() > 0 ==> line_spans(line, lang)[0].0 == 0,
        line.len() > 0 ==> line_spans(line, lang).last().1 == line.len(),
        forall|k: int|
            0 <= k < line_spans(line, lang).len() ==> 0 <= #[trigger] line_spans(line, lang)[k].0
                < line_spans(line, lang)[k].1 <= line.len(),
        forall|k: int|
            0 <= k < line_spans(line, lang).len() - 1 ==> #[trigger] line_spans(line, lang)[k].1
                == line_spans(line, lang)[k + 1].0,
{
    if line.len() > 0 && !(lang is PlainText) {
        lemma_tok_partition(line, 0);
    }
}

/// The graphemes the given spans slice out of a line, concatenated in
/// span order.
pub open spec fn spans_slices(line: Seq<Grapheme>, sp: Seq<(int, int, Category)>) -> Seq<Grapheme>
    decreases sp.len(),
{
    if sp.len() == 0 {
        Seq::empty()
    } else {
        line.subrange(sp[0].0, sp[0].1) + spans_slices(line, sp.drop_first())
    }
}

/// A contiguous chain of spans slices out exactly the stretch of the line
/// from the first span's start to the last span's end.
pub proof fn lemma_chain_slices(line: Seq<Grapheme>, sp: Seq<(int, int, Category)>)
    requires
        sp.len() > 0,
        forall|k: int| 0 <= k < sp.len() ==> 0 <= #[trigger] sp[k].0 <= sp[k].1 <= line.len(),
        forall|k: int| 0 <= k < sp.len() - 1 ==> #[trigger] sp[k].1 == sp[k + 1].0,
    ensures
        sp[0].0 <= sp.last().1,
        spans_slices(line, sp) == line.subrange(sp[0].0, sp.last().1),
    decreases sp.len(),
{
    let a = sp[0].0;
    let b = sp.last().1;
    assert(0 <= sp[0].0 <= sp[0].1 <= line.len());
    assert(0 <= sp[sp.len() - 1].0 <= sp[sp.len() - 1].1 <= line.len());
    if sp.len() == 1 {
        assert(sp.drop_first().len() == 0);
        assert(spans_slices(line, sp.drop_first()) =~= Seq::<Grapheme>::empty());
        assert(spans_slices(line, sp) =~= line.subrange(a, b));
    } else {
        let rest = sp.drop_first();
        let m = sp[0].1;
        assert(forall|k: int| 0 <= k < rest.len() ==> #[trigger] rest[k] == sp[k + 1]);
        assert(rest[0].0 == sp[1].0);
        assert(sp[0].1 == sp[1].0);
        assert(rest.last() == sp.last());
        lemma_chain_slices(line, rest);
        assert(a <= m <= b <= line.len());
        assert(line.subrange(a, m) + line.subrange(m, b) =~= line.subrange(a, b));
    }
}

/// Index of the last occurrence of `c` in `s`, or -1 if there is none.
pub open spec fn last_index_of(s: Seq<char>, c: char) -> int
    decreases s.len(),
{
    if s.len() == 0 {
        -1
    } else if s.last() == c {
        s.len() - 1
    } else {
        last_index_of(s.drop_last(), c)
    }
}

/// The extension of a path: what follows the last dot of the file name,
/// unless that dot begins the file name (a dot-file has no extension).
pub open spec fn extension_of(s: Seq<char>) -> Option<Seq<char>> {
    let dot = last_index_of(s, '.');
    let slash = last_index_of(s, '/');
    if dot > slash + 1 {
        Some(s.skip(dot + 1))
    } else {
        None
    }
}

/// The language an extension selects; unrecognized extensions are plain text.
pub open spec fn language_of_ext(e: Seq<char>) -> Language {
    if e == seq!['r', 's'] {
        Language::Rust
    } else {
        Language::PlainText
    }
}

/// The language a path selects through its extension.
pub open spec fn language_of_path(s: Seq<char>) -> Language {
    match extension_of(s) {
        Some(e) => language_of_ext(e),
        None => Language::PlainText,
    }
}

/// The language of a document with the given optional path: a pathless
/// document is plain text.
pub open spec fn language_of_doc_path(p: Option<String>) -> Language {
    match p {
        Some(s) => language_of_path(s@),
        None => Language::PlainText,
    }
}

/// Index of the last occurrence of `c` in `s`, scanning from the end.
fn rfind_char(s: &str, c: char) -> (r: Option<usize>)
    ensures
        match r {
            Some(k) => k < s@.len() && k as int == last_index_of(s@, c),
            None => last_index_of(s@, c) == -1,
        },
{
    let n = s.unicode_len();
    let mut i: usize = n;
    proof {
        assert(s@.take(n as int) =~= s@);
    }
    while i > 0
        invariant
            i <= n,
            n == s@.len(),
            last_index_of(s@, c) == last_index_of(s@.take(i as int), c),
        decreases i,
    {
        let j = i - 1;
        let ch = s.get_char(j);
        proof {
            assert(s@.take(i as int).last() == s@[j as int]);
            assert(s@.take(i as int).drop_last() =~= s@.take(j as int));
        }
        if ch == c {
            return Some(j);
        }
        i = j;
    }
    proof {
        assert(s@.take(0).len() == 0);
    }
    None
}

/// Resolves the highlighting language from a file path, as the document
/// does when its path changes: the extension decides, `rs` meaning Rust;
/// any other or absent extension means plain text.
pub fn language_from_path(path: &str) -> (r: Language)
    ensures
        r == language_of_path(path@),
{
    let n = path.unicode_len();
    let dot = rfind_char(path, '.');
    let slash = rfind_char(path, '/');
    match dot {
        None => Language::PlainText,
        Some(d) => {
            let named = match slash {
                None => d >= 1,
                Some(sl) => d >= 1 && d - 1 > sl,
            };
            if !named {
                Language::PlainText
            } else {
                let ghost e = path@.skip(d + 1);
                proof {
                    assert(e.len() == n - (d + 1));
                    assert(seq!['r', 's'].len() == 2);
                    if e.len() >= 1 {
                        assert(e[0] == path@[d + 1]);
                    }
                    if e.len() >= 2 {
                        assert(e[1] == path@[d + 2]);
                    }
                }
                if n - (d + 1) == 2 && path.get_char(d + 1) == 'r' && path.get_char(d + 2) == 's' {
                    proof {
                        assert(e =~= seq!['r', 's']);
                    }
                    Language::Rust
                } else {
                    proof {
                        assert(seq!['r', 's'][0] == 'r');
                        assert(seq!['r', 's'][1] == 's');
                        assert(e != seq!['r', 's']);
                    }
                    Language::PlainText
                }
            }
        },
    }
}

/// Highlight coverage, per line: for every line, language and theme, the
/// concatenation of the slices named by the emitted spans is the whole
/// line — the spans lose no text and invent none.
pub proof fn lemma_highlight_covers_line(line: Seq<Grapheme>, lang: Language)
    ensures
        spans_slices(line, line_spans(line, lang)) == line,
{
    lemma_line_spans_partition(line, lang);
    if line.len() == 0 {
        assert(spans_slices(line, line_spans(line, lang)) =~= line);
    } else {
        lemma_chain_slices(line, line_spans(line, lang));
        assert(line.subrange(0, line.len() as int) =~= line);
    }
}

/// Highlight coverage, whole document: on every line of any document,
/// for every language, the emitted spans slice the line back together
/// exactly. With the per-line partition facts this is the coverage
/// guarantee for a full highlighting pass.
pub proof fn lemma_highlight_covers_document(lines: Seq<Vec<Grapheme>>, lang: Language)
    ensures
        forall|li: int|
            0 <= li < lines.len() ==> spans_slices(
                #[trigger] lines[li]@,
                line_spans(lines[li]@, lang),
            ) == lines[li]@,
{
    assert forall|li: int| 0 <= li < lines.len() implies spans_slices(
        #[trigger] lines[li]@,
        line_spans(lines[li]@, lang),
    ) == lines[li]@ by {
        lemma_highlight_covers_line(lines[li]@, lang);
    }
}

/// The `(start, end, category)` triple a span stands for.
pub open spec fn span_model(s: Span) -> (int, int, Category) {
    (s.start as int, s.end as int, s.category)
}

pub open spec fn spans_view(v: Seq<Span>) -> Seq<(int, int, Category)> {
    v.map_values(|s: Span| span_model(s))
}

/// The `(line, start, end, token)` tuple a styled span stands for.
pub open spec fn styled_model(s: StyledSpan) -> (int, int, int, StyleToken) {
    (s.line as int, s.start as int, s.end as int, s.token)
}

pub open spec fn styled_view(v: Seq<StyledSpan>) -> Seq<(int, int, int, StyleToken)> {
    v.map_values(|s: StyledSpan| styled_model(s))
}

/// The styled spans of one source line: its spans under the language,
/// each tagged with the line index and the theme's token for its category.
pub open spec fn styled_line(line: Seq<Grapheme>, li: int, lang: Language, theme: Theme) -> Seq<
    (int, int, int, StyleToken),
> {
    line_spans(line, lang).map_values(
        |t: (int, int, Category)| (li, t.0, t.1, style_of(theme, t.2)),
    )
}

fn grapheme_cat(g: &Grapheme) -> (r: Category)
    requires
        g.wf(),
    ensures
        r == grapheme_category(*g),
{
    category_of(g.units[0])
}

fn comment_start_at(line: &Vec<Grapheme>, i: usize) -> (r: bool)
    requires
        line_wf(line@),
        i < line@.len(),
    ensures
        r == comment_at(line@, i as int),
{
    let n = line.len();
    if i + 1 < n {
        proof {
            assert(line@[i as int].wf());
            assert(line@[i as int + 1].wf());
        }
        let a = line[i].units[0];
        let b = line[i + 1].units[0];
        a == '/' && b == '/'
    } else {
        false
    }
}

/// Tokenizes one line. The result is exactly `line_spans` of the line, so
/// by the coverage lemmas its spans are contiguous, non-overlapping, and
/// cover the line.
pub fn highlight_line(line: &Vec<Grapheme>, lang: Language) -> (r: Vec<Span>)
    requires
        line_wf(line@),
    ensures
        spans_view(r@) == line_spans(line@, lang),
{
    let n = line.len();
    let mut out: Vec<Span> = Vec::new();
    if n == 0 {
        proof {
            assert(spans_view(out@) =~= line_spans(line@, lang));
        }
        return out;
    }
    match lang {
        Language::PlainText => {
            out.push(Span { start: 0, end: n, category: Category::Plain });
            proof {
                assert(spans_view(out@) =~= line_spans(line@, lang));
            }
            out
        },
        Language::Rust => {
            let mut i: usize = 0;
            proof {
                assert(spans_view(out@) =~= Seq::<(int, int, Category)>::empty());
            }
            while i < n
                invariant
                    i <= n,
                    n == line@.len(),
                    line_wf(line@),
                    tok_from(line@, 0) == spans_view(out@) + tok_from(line@, i as int),
                decreases n - i,
            {
                let ghost out0 = out@;
                if comment_start_at(line, i) {
                    out.push(Span { start: i, end: n, category: Category::Comment });
                    proof {
                        assert(tok_from(line@, i as int) =~= seq![
                            (i as int, n as int, Category::Comment),
                        ]);
                        assert(spans_view(out@) =~= spans_view(out0).push(
                            (i as int, n as int, Category::Comment),
                        ));
                        assert(spans_view(out@) + tok_from(line@, n as int) =~= spans_view(out0)
                            + tok_from(line@, i as int));
                    }
                    i = n;
                } else {
                    proof {
                        assert(line@[i as int].wf());
                    }
                    let gc = grapheme_cat(&line[i]);
                    let mut j = i + 1;
                    while j < n && !comment_start_at(line, j) && grapheme_cat(&line[j]) == gc
                        invariant
                            i < j <= n,
                            n == line@.len(),
                            line_wf(line@),
                            gc == grapheme_category(line@[i as int]),
                            run_end(line@, i as int) == run_end(line@, j - 1),
                            forall|k: int|
                                i <= k < j ==> grapheme_category(#[trigger] line@[k])
                                    == grapheme_category(line@[i as int]),
                        decreases n - j,
                    {
                        proof {
                            assert(grapheme_category(line@[j - 1]) == grapheme_category(
                                line@[i as int],
                            ));
                            assert(run_end(line@, j - 1) == run_end(line@, j as int));
                        }
                        j += 1;
                    }
                    proof {
                        assert(grapheme_category(line@[j - 1]) == grapheme_category(
                            line@[i as int],
                        ));
                        assert(run_end(line@, j - 1) == j);
                        assert(run_end(line@, i as int) == j);
                        assert(tok_from(line@, i as int) == seq![(i as int, j as int, gc)]
                            + tok_from(line@, j as int));
                    }
                    out.push(Span { start: i, end: j, category: gc });
                    proof {
                        assert(spans_view(out@) =~= spans_view(out0).push((i as int, j as int, gc)));
                        assert(spans_view(out@) + tok_from(line@, j as int) =~= spans_view(out0)
                            + tok_from(line@, i as int));
                    }
                    i = j;
                }
            }
            proof {
                assert(tok_from(line@, n as int) =~= Seq::<(int, int, Category)>::empty());
                assert(spans_view(out@) =~= tok_from(line@, 0));
            }
            out
        },
    }
}

/// Highlights a whole document: entry `li` of the result holds exactly
/// the styled spans of line `li` under the language and theme.
pub fn highlight_document(lines: &Vec<Vec<Grapheme>>, lang: Language, theme: Theme) -> (r: Vec<
    Vec<StyledSpan>,
>)
    requires
        forall|i: int| 0 <= i < lines@.len() ==> line_wf(#[trigger] lines@[i]@),
    ensures
        r@.len() == lines@.len(),
        forall|li: int|
            0 <= li < lines@.len() ==> styled_view(#[trigger] r@[li]@) == styled_line(
                lines@[li]@,
                li,
                lang,
                theme,
            ),
{
    let n = lines.len();
    let mut out: Vec<Vec<StyledSpan>> = Vec::new();
    let mut li: usize = 0;
    while li < n
        invariant
            li <= n,
            n == lines@.len(),
            out@.len() == li,
            forall|i: int| 0 <= i < lines@.len() ==> line_wf(#[trigger] lines@[i]@),
            forall|k: int|
                0 <= k < li ==> styled_view(#[trigger] out@[k]@) == styled_line(
                    lines@[k]@,
                    k,
                    lang,
                    theme,
                ),
        decreases n - li,
    {
        proof {
            assert(line_wf(lines@[li as int]@));
        }
        let spans = highlight_line(&lines[li], lang);
        let m = spans.len();
        let mut srow: Vec<StyledSpan> = Vec::new();
        let mut k: usize = 0;
        while k < m
            invariant
                k <= m,
                m == spans@.len(),
                srow@.len() == k,
                li < n,
                n == lines@.len(),
                spans_view(spans@) == line_spans(lines@[li as int]@, lang),
                forall|q: int|
                    0 <= q < k ==> styled_model(#[trigger] srow@[q]) == styled_line(
                        lines@[li as int]@,
                        li as int,
                        lang,
                        theme,
                    )[q],
            decreases m - k,
        {
            let sp = spans[k];
            let st = resolve_style(theme, sp.category);
            srow.push(StyledSpan { line: li, start: sp.start, end: sp.end, token: st });
            proof {
                assert(spans_view(spans@)[k as int] == span_model(sp));
                assert(styled_line(lines@[li as int]@, li as int, lang, theme)[k as int] == (
                    li as int,
                    span_model(sp).0,
                    span_model(sp).1,
                    style_of(theme, span_model(sp).2),
                ));
            }
            k += 1;
        }
        proof {
            assert(styled_view(srow@) =~= styled_line(lines@[li as int]@, li as int, lang, theme));
        }
        out.push(srow);
        li += 1;
    }
    out
}

} // verus!
