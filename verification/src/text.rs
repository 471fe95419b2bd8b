//! Graphemes and the textual model of a line-oriented document.
//!
//! A document is a non-empty sequence of lines; a line is a sequence of
//! graphemes; a grapheme is a non-empty sequence of Unicode scalar values
//! (a base character possibly followed by combining marks), the unit of
//! cursor-column addressing. The spec functions here give the flattened
//! character content of lines and documents; newlines separate lines and
//! never occur inside a grapheme.

use vstd::prelude::*;

verus! {

/// A user-perceived character: a base scalar value together with any
/// combining marks attached to it. Cursor columns count graphemes, so a
/// multi-codepoint glyph moves and deletes as one unit.
#[derive(Debug, Clone)]
pub struct Grapheme {
    pub units: Vec<char>,
}

/// Scalar values that attach to the preceding base character when text is
/// segmented into graphemes: combining diacritics, combining marks for
/// symbols, variation selectors, and the zero-width joiner.
pub open spec fn is_extend_char(c: char) -> bool {
    ||| 0x0300 <= c as u32 && c as u32 <= 0x036F
    ||| 0x1AB0 <= c as u32 && c as u32 <= 0x1AFF
    ||| 0x20D0 <= c as u32 && c as u32 <= 0x20FF
    ||| 0xFE00 <= c as u32 && c as u32 <= 0xFE0F
    ||| c as u32 == 0x200D
}

pub fn extend_char(c: char) -> (r: bool)
    ensures
        r == is_extend_char(c),
{
    let u = c as u32;
    (0x0300 <= u && u <= 0x036F) || (0x1AB0 <= u && u <= 0x1AFF) || (0x20D0 <= u && u <= 0x20FF)
        || (0xFE00 <= u && u <= 0xFE0F) || u == 0x200D
}

impl Grapheme {
    /// The scalar values of this grapheme, in order.
    pub open spec fn chars(&self) -> Seq<char> {
        self.units@
    }

    /// A grapheme holds at least one scalar value and never a newline.
    pub open spec fn wf(&self) -> bool {
        &&& self.units@.len() >= 1
        &&& forall|i: int| 0 <= i < self.units@.len() ==> self.units@[i] != '\n'
    }

    /// A grapheme of a single scalar value.
    pub fn single(c: char) -> (g: Grapheme)
        requires
            c != '\n',
        ensures
            g.wf(),
            g.chars() == seq![c],
    {
        let mut units: Vec<char> = Vec::new();
        units.push(c);
        proof {
            assert(units@ =~= seq![c]);
        }
        Grapheme { units }
    }
}

/// Every grapheme of the line is well formed.
pub open spec fn line_wf(line: Seq<Grapheme>) -> bool {
    forall|i: int| 0 <= i < line.len() ==> (#[trigger] line[i]).wf()
}

/// The line is maximally clustered: within a grapheme everything after
/// the base character is an extend character, and no grapheme after the
/// first begins with one (it would have joined its predecessor). Given
/// the line's character content, this pins the grapheme boundaries
/// uniquely.
pub open spec fn line_segmented(line: Seq<Grapheme>) -> bool {
    &&& forall|k: int, t: int|
        0 <= k < line.len() && 1 <= t < line[k].chars().len() ==> is_extend_char(
            #[trigger] line[k].chars()[t],
        )
    &&& forall|k: int|
        1 <= k < line.len() ==> !is_extend_char((#[trigger] line[k]).chars()[0])
}

/// The character content of a line: its graphemes' scalar values, concatenated.
pub open spec fn line_chars(line: Seq<Grapheme>) -> Seq<char>
    decreases line.len(),
{
    if line.len() == 0 {
        Seq::empty()
    } else {
        line_chars(line.drop_last()) + line.last().chars()
    }
}

/// The character content of a whole document: its lines' contents joined
/// by single newline characters.
pub open spec fn doc_chars(lines: Seq<Vec<Grapheme>>) -> Seq<char>
    decreases lines.len(),
{
    if lines.len() == 0 {
        Seq::empty()
    } else if lines.len() == 1 {
        line_chars(lines[0]@)
    } else {
        doc_chars(lines.drop_last()) + seq!['\n'] + line_chars(lines.last()@)
    }
}

/// The character content of a run of completed lines, each followed by the
/// newline that ended it. This is the shape a left-to-right scan of a
/// document's text produces before the final (unterminated) line.
pub open spec fn lines_joined(lines: Seq<Vec<Grapheme>>) -> Seq<char>
    decreases lines.len(),
{
    if lines.len() == 0 {
        Seq::empty()
    } else {
        lines_joined(lines.drop_last()) + line_chars(lines.last()@) + seq!['\n']
    }
}

/// A non-empty document followed by one more newline is the run of all its
/// lines, each newline-terminated.
pub proof fn lemma_joined_is_doc_plus_newline(lines: Seq<Vec<Grapheme>>)
    requires
        lines.len() >= 1,
    ensures
        lines_joined(lines) == doc_chars(lines) + seq!['\n'],
    decreases lines.len(),
{
    if lines.len() == 1 {
        assert(lines_joined(lines.drop_last()) =~= Seq::<char>::empty());
        assert(lines_joined(lines) =~= doc_chars(lines) + seq!['\n']);
    } else {
        lemma_joined_is_doc_plus_newline(lines.drop_last());
        assert(lines_joined(lines) =~= doc_chars(lines) + seq!['\n']);
    }
}

/// Closing the final line of a scan: completed lines plus a last line form
/// the document whose lines are those completed lines with the last pushed.
pub proof fn lemma_doc_chars_snoc(lines: Seq<Vec<Grapheme>>, last: Vec<Grapheme>)
    ensures
        doc_chars(lines.push(last)) == lines_joined(lines) + line_chars(last@),
{
    assert(lines.push(last).last() == last);
    assert(lines.push(last).drop_last() =~= lines);
    if lines.len() == 0 {
        assert(doc_chars(lines.push(last)) =~= lines_joined(lines) + line_chars(last@));
    } else {
        lemma_joined_is_doc_plus_newline(lines);
        assert(doc_chars(lines.push(last)) =~= lines_joined(lines) + line_chars(last@));
    }
}

} // verus!
