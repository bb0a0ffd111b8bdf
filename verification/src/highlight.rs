//! Syntax highlighting for editor panes: the spans a highlighter reports,
//! fitted to the line a pane actually draws.
use vstd::prelude::*;

use std::collections::HashMap;

use crate::text::to_chars;

verus! {

broadcast use vstd::std_specs::hash::group_hash_axioms;

/// A line of text and the styled spans over it, as `(start, end, style)`
/// character columns.
#[derive(Debug, Clone, PartialEq)]
pub struct StyledLine<S> {
    pub text: String,
    pub highlights: Vec<(usize, usize, S)>,
}

/// A line with no highlighting.
pub fn plain<S>(text: &str) -> (r: StyledLine<S>)
    ensures
        r.text@ == text@,
        r.highlights@.len() == 0,
{
    StyledLine { text: text.to_string(), highlights: Vec::new() }
}

/// The spans cut to a line `len` characters long: each end held to the
/// line, and a span left empty by that dropped.
pub open spec fn clipped<S>(spans: Seq<(usize, usize, S)>, len: nat) -> Seq<(usize, usize, S)>
    decreases spans.len(),
{
    if spans.len() == 0 {
        Seq::empty()
    } else {
        let prev = clipped(spans.drop_last(), len);
        let (s, e, st) = spans.last();
        let s2 = if s < len {
            s
        } else {
            len as usize
        };
        let e2 = if e < len {
            e
        } else {
            len as usize
        };
        if s2 < e2 {
            prev.push((s2, e2, st))
        } else {
            prev
        }
    }
}

/// Spans clipped to what `text` actually contains (see [`clipped`]).
///
/// A highlighter indexes the buffer's line, terminator and all, while a
/// pane's line has been trimmed of it; a span running past the end would
/// slice outside the string when it is drawn.
pub fn clip_spans<S: Copy>(spans: &[(usize, usize, S)], text: &str) -> (r: Vec<(usize, usize, S)>)
    ensures
        r@ == clipped(spans@, text@.len()),
{
    let len = to_chars(text).len();
    let mut out: Vec<(usize, usize, S)> = Vec::new();
    let mut i: usize = 0;
    while i < spans.len()
        invariant
            i <= spans.len(),
            len == text@.len(),
            out@ == clipped(spans@.take(i as int), len as nat),
        decreases spans.len() - i,
    {
        assert(spans@.take(i + 1).drop_last() =~= spans@.take(i as int));
        let (start, end, style) = spans[i];
        let s = if start < len {
            start
        } else {
            len
        };
        let e = if end < len {
            end
        } else {
            len
        };
        if s < e {
            out.push((s, e, style));
        }
        i += 1;
    }
    assert(spans@.take(i as int) =~= spans@);
    out
}

/// The lines a pane shows, styled: each with the spans the parse reported
/// for its row (`spans[i]` for `lines[i]`), fitted to the line. Without a
/// parse (a language with no grammar, a file that failed to parse) the
/// lines come back plain: unhighlighted text rather than an empty pane.
pub fn styled_lines<S: Copy>(lines: &Vec<String>, spans: Option<&Vec<Vec<(usize, usize, S)>>>) -> (r:
    Vec<StyledLine<S>>)
    requires
        spans matches Some(sp) ==> sp@.len() == lines@.len(),
    ensures
        r@.len() == lines@.len(),
        forall|i: int|
            0 <= i < r@.len() ==> {
                &&& (#[trigger] r@[i]).text@ == lines@[i]@
                &&& r@[i].highlights@ == match spans {
                    Some(sp) => clipped(sp@[i]@, lines@[i]@.len()),
                    None => Seq::empty(),
                }
            },
{
    let mut out: Vec<StyledLine<S>> = Vec::new();
    let mut i: usize = 0;
    while i < lines.len()
        invariant
            i <= lines@.len(),
            spans matches Some(sp) ==> sp@.len() == lines@.len(),
            out@.len() == i,
            forall|j: int|
                0 <= j < i ==> {
                    &&& (#[trigger] out@[j]).text@ == lines@[j]@
                    &&& out@[j].highlights@ == match spans {
                        Some(sp) => clipped(sp@[j]@, lines@[j]@.len()),
                        None => Seq::empty(),
                    }
                },
        decreases lines.len() - i,
    {
        let text = lines[i].as_str();
        let line = match spans {
            Some(sp) => StyledLine { text: text.to_string(), highlights: clip_spans(sp[i].as_slice(), text) },
            None => plain(text),
        };
        out.push(line);
        i += 1;
    }
    out
}

/// What has to happen before a document's lines can be coloured.
#[derive(Debug, Clone, Copy, PartialEq, Eq, Structural)]
pub enum ParseStep {
    /// It has never been parsed: parse it.
    Parse,
    /// Its buffer has moved on since it was parsed: parse it again.
    Reparse,
    /// The parse is of the text as it is.
    Keep,
}

/// What the parse of `doc` needs, given the revisions `parses` reflect,
/// now that its buffer is at `revision`: a first parse when it has none, a
/// new one when the buffer has moved on since, nothing when it has not.
pub open spec fn step_for(parses: Map<u64, u64>, doc: u64, revision: u64) -> ParseStep {
    if !parses.contains_key(doc) {
        ParseStep::Parse
    } else if parses[doc] != revision {
        ParseStep::Reparse
    } else {
        ParseStep::Keep
    }
}

/// A parse stays good until its buffer moves: once `doc` is parsed at
/// `revision`, asking again at that revision parses nothing, asking at any
/// other parses it again, and other documents are not affected. A forgotten
/// document is parsed from scratch.
pub proof fn law_a_still_buffer_is_parsed_once(
    parses: Map<u64, u64>,
    doc: u64,
    revision: u64,
    other: u64,
    later: u64,
)
    ensures
        step_for(parses.insert(doc, revision), doc, revision) == ParseStep::Keep,
        later != revision ==> step_for(parses.insert(doc, revision), doc, later)
            == ParseStep::Reparse,
        other != doc ==> step_for(parses.insert(doc, revision), other, later) == step_for(
            parses,
            other,
            later,
        ),
        step_for(parses.remove(doc), doc, later) == ParseStep::Parse,
{
}

/// Which buffer revision each document's parse reflects, by document id.
///
/// One parse per document, not per pane: two panes on one file share it.
/// Comparing revisions is what keeps a still buffer from being parsed again
/// every frame, which on a long file is the whole cost of highlighting.
#[derive(Debug)]
pub struct Highlights {
    revisions: HashMap<u64, u64>,
}

impl Highlights {
    /// The documents parsed, each with the revision its parse reflects.
    pub closed spec fn parses(&self) -> Map<u64, u64> {
        self.revisions@
    }

    /// Nothing parsed.
    pub fn new() -> (r: Self)
        ensures
            r.parses() == Map::<u64, u64>::empty(),
    {
        Highlights { revisions: HashMap::new() }
    }

    /// What the parse of `doc` needs now that its buffer is at `revision`
    /// (see [`step_for`]).
    pub fn step(&self, doc: u64, revision: u64) -> (r: ParseStep)
        ensures
            r == step_for(self.parses(), doc, revision),
    {
        match self.revisions.get(&doc) {
            None => ParseStep::Parse,
            Some(r) => if *r != revision {
                ParseStep::Reparse
            } else {
                ParseStep::Keep
            },
        }
    }

    /// Record that `doc`'s parse now reflects `revision`.
    pub fn parsed(&mut self, doc: u64, revision: u64)
        ensures
            final(self).parses() == old(self).parses().insert(doc, revision),
    {
        self.revisions.insert(doc, revision);
    }

    /// The revision `doc`'s parse reflects, if it has one.
    pub fn revision_of(&self, doc: u64) -> (r: Option<u64>)
        ensures
            r == if self.parses().contains_key(doc) {
                Some(self.parses()[doc])
            } else {
                None
            },
    {
        match self.revisions.get(&doc) {
            Some(r) => Some(*r),
            None => None,
        }
    }

    /// Forget a document's parse: called when its buffer is closed, so a long
    /// session does not keep parses of files nobody has open.
    pub fn forget(&mut self, doc: u64)
        ensures
            final(self).parses() == old(self).parses().remove(doc),
    {
        self.revisions.remove(&doc);
    }

    /// Whether nothing is parsed.
    pub fn is_empty(&self) -> (r: bool)
        ensures
            r == (self.parses().len() == 0),
    {
        self.revisions.len() == 0
    }
}

/// The lines a parse is asked to colour, as `(first, end)`: from
/// `first_line`, as many as are `shown` but at least one. Only the lines on
/// screen are coloured.
pub fn viewport(first_line: usize, shown: usize) -> (r: (usize, usize))
    requires
        first_line + (if shown == 0 {
            1
        } else {
            shown
        }) <= usize::MAX,
    ensures
        r.0 == first_line,
        r.1 == first_line + if shown == 0 {
            1
        } else {
            shown
        },
{
    let n = if shown == 0 {
        1
    } else {
        shown
    };
    (first_line, first_line + n)
}

} // verus!
