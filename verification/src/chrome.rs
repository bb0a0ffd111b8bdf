//! Measurements of the compositor's own drawing, and what its statusline
//! and its panes say.
use vstd::prelude::*;

use crate::action::Layout;
use crate::highlight::StyledLine;
use crate::text::{decimal_of, push_decimal, slice_of, string_from, to_chars};

verus! {

/// How many decimal digits `n` is written with.
pub open spec fn dec_len(n: nat) -> nat
    decreases n,
{
    if n < 10 {
        1
    } else {
        1 + dec_len(n / 10)
    }
}

/// How many cells the line-number gutter needs for lines counted from
/// `first_line`, `shown` of them, including its trailing space: wide enough
/// for the largest number shown, and nothing when nothing is shown.
pub open spec fn gutter_width_of(first_line: nat, shown: nat) -> nat {
    if shown == 0 {
        0
    } else {
        dec_len(first_line + shown) + 1
    }
}

/// How many cells the line-number gutter needs, including its trailing
/// space.
pub fn gutter_width(first_line: usize, shown: usize) -> (r: usize)
    requires
        first_line + shown <= usize::MAX,
    ensures
        r == gutter_width_of(first_line as nat, shown as nat),
        r < usize::MAX,
{
    if shown == 0 {
        return 0;
    }
    let last = first_line + shown;
    proof { lemma_dec_len_small(last as nat); lemma_dec_len_pos(last as nat); }
    let mut n = last;
    let mut digits: usize = 1;
    while n >= 10
        invariant
            1 <= digits,
            digits + dec_len(n as nat) == dec_len(last as nat) + 1,
            n <= last,
            last >= 1,
            dec_len(last as nat) < last || last == 1,
        decreases n,
    {
        assert(dec_len(n as nat) == 1 + dec_len((n / 10) as nat));
        assert(dec_len(n as nat) >= 2) by {
            assert(dec_len((n / 10) as nat) >= 1) by {
                lemma_dec_len_pos((n / 10) as nat);
            }
        }
        n = n / 10;
        digits = digits + 1;
    }
    digits + 1
}

proof fn lemma_dec_len_pos(n: nat)
    ensures
        dec_len(n) >= 1,
    decreases n,
{
    if n >= 10 {
        lemma_dec_len_pos(n / 10);
    }
}

proof fn lemma_dec_len_small(n: nat)
    requires
        n >= 1,
    ensures
        n >= 2 ==> dec_len(n) < n,
        n >= 3 ==> dec_len(n) + 2 <= n,
        dec_len(n) <= n,
    decreases n,
{
    if n >= 10 {
        lemma_dec_len_small(n / 10);
    }
}

proof fn lemma_dec_len_monotone(a: nat, b: nat)
    requires
        a <= b,
    ensures
        dec_len(a) <= dec_len(b),
    decreases b,
{
    if b >= 10 && a >= 10 {
        lemma_dec_len_monotone(a / 10, b / 10);
    } else if b >= 10 {
        lemma_dec_len_pos(b / 10);
    }
}

/// Only the numbers widen with the line count: showing lines further down
/// the buffer never narrows the gutter, and the sign column never changes
/// width.
pub proof fn law_the_gutter_never_narrows_as_lines_grow(first: nat, shown: nat, first2: nat, shown2: nat)
    requires
        shown > 0,
        first + shown <= first2 + shown2,
        shown2 > 0,
    ensures
        gutter_width_of(first, shown) <= gutter_width_of(first2, shown2),
{
    lemma_dec_len_monotone(first + shown, first2 + shown2);
}

/// The diagnostic sign's own column, left of the line numbers.
pub const SIGN_COLS: usize = 1;

/// Total gutter width: the sign column plus the numbers, or nothing.
pub fn gutter_cols(first_line: usize, shown: usize) -> (r: usize)
    requires
        first_line + shown <= usize::MAX,
    ensures
        r == if gutter_width_of(first_line as nat, shown as nat) == 0 {
            0
        } else {
            gutter_width_of(first_line as nat, shown as nat) + SIGN_COLS
        },
{
    match gutter_width(first_line, shown) {
        0 => 0,
        numbers => numbers + SIGN_COLS,
    }
}

/// Which of the theme's foreground colours a diagnostic sign is drawn in.
#[derive(Debug, Clone, Copy, PartialEq, Eq, Structural)]
pub enum SignColour {
    /// The accent: errors, the one sign that must stand out.
    Accent,
    /// The text colour: warnings.
    Foreground,
    /// The gutter's own dim grey: the two that are only advice.
    Gutter,
}

/// The letter and colour of the sign for an LSP severity: `E` in the accent
/// for an error (1), `W` in the text colour for a warning (2), `I` for
/// information (3) and `H` for anything else, both in the gutter's colour.
/// Every one is a foreground colour: a background swatch drawn as text is
/// drawn, correct, and invisible.
pub open spec fn sign_of(severity: u8) -> (Seq<char>, SignColour) {
    if severity == 1 {
        ("E"@, SignColour::Accent)
    } else if severity == 2 {
        ("W"@, SignColour::Foreground)
    } else if severity == 3 {
        ("I"@, SignColour::Gutter)
    } else {
        ("H"@, SignColour::Gutter)
    }
}

/// The sign drawn in the gutter for a line's worst diagnostic (see
/// [`sign_of`]).
pub fn severity_sign(severity: u8) -> (r: (&'static str, SignColour))
    ensures
        (r.0@, r.1) == sign_of(severity),
{
    match severity {
        1 => ("E", SignColour::Accent),
        2 => ("W", SignColour::Foreground),
        3 => ("I", SignColour::Gutter),
        _ => ("H", SignColour::Gutter),
    }
}

/// What the statusline says about the container tree.
#[derive(Debug, Clone, Copy, PartialEq, Eq)]
pub struct TreeStatus {
    /// How the split holding the focused window divides its space, which is
    /// the direction the next window will appear in.
    pub layout: Option<Layout>,
    /// Windows sharing the active workspace, floating included.
    pub windows: usize,
    /// Whether the focused window floats above the tiling.
    pub floating: bool,
}

/// The glyph for a split axis: `|` side by side, `-` stacked, `·` for no
/// split at all.
pub open spec fn axis_glyph(layout: Option<Layout>) -> Seq<char> {
    match layout {
        Some(Layout::Horizontal) => "|"@,
        Some(Layout::Vertical) => "-"@,
        None => "·"@,
    }
}

impl TreeStatus {
    /// The short form drawn on the bar: the axis glyph, the window count,
    /// and ` ~` when the focused window is floating.
    pub fn indicator(&self) -> (r: String)
        ensures
            r@ == axis_glyph(self.layout) + " "@ + decimal_of(self.windows as nat) + if self.floating {
                " ~"@
            } else {
                Seq::<char>::empty()
            },
    {
        let axis = match self.layout {
            Some(Layout::Horizontal) => "|",
            Some(Layout::Vertical) => "-",
            None => "·",
        };
        let mut s = String::new();
        s.append(axis);
        s.append(" ");
        push_decimal(&mut s, self.windows);
        if self.floating {
            s.append(" ~");
        }
        s
    }
}

/// One stretch of a line drawn in a single style.
#[derive(Debug, Clone, PartialEq)]
pub struct Run<S> {
    /// Column the run starts at, in cells from the body's left edge.
    pub column: usize,
    pub text: String,
    /// `None` where the highlighter had no opinion, which is most of a line.
    pub style: Option<S>,
}

/// The runs drawn for the spans seen so far, and the column the pen is at.
pub open spec fn runs_acc<S>(chars: Seq<char>, spans: Seq<(usize, usize, S)>) -> (Seq<(nat, Seq<char>, Option<S>)>, nat)
    decreases spans.len(),
{
    if spans.len() == 0 {
        (Seq::empty(), 0)
    } else {
        let (out, at) = runs_acc(chars, spans.drop_last());
        let start = spans.last().0 as nat;
        let end = if spans.last().1 < chars.len() {
            spans.last().1 as nat
        } else {
            chars.len()
        };
        if start < at || start >= end {
            (out, at)
        } else {
            let gap = if start > at {
                out.push((at, chars.subrange(at as int, start as int), None))
            } else {
                out
            };
            (gap.push((start, chars.subrange(start as int, end as int), Some(spans.last().2))), end)
        }
    }
}

/// A line split into runs: each span in order, cut to the line, with the
/// plain text before, between and after them as runs of their own; a span
/// that starts behind the pen, or is empty once cut, is skipped.
pub open spec fn runs_of<S>(chars: Seq<char>, spans: Seq<(usize, usize, S)>) -> Seq<(nat, Seq<char>, Option<S>)> {
    let (out, at) = runs_acc(chars, spans);
    if at < chars.len() {
        out.push((at, chars.subrange(at as int, chars.len() as int), None))
    } else {
        out
    }
}

/// The views of runs.
pub open spec fn run_views<S>(v: Seq<Run<S>>) -> Seq<(nat, Seq<char>, Option<S>)> {
    v.map_values(|r: Run<S>| (r.column as nat, r.text@, r.style))
}

/// A line split into runs (see [`runs_of`]): the gaps between spans are
/// drawn as much as the spans are.
pub fn runs<S: Copy>(line: &StyledLine<S>) -> (r: Vec<Run<S>>)
    ensures
        run_views(r@) == runs_of(line.text@, line.highlights@),
{
    let chars = to_chars(line.text.as_str());
    let spans = &line.highlights;
    let mut out: Vec<Run<S>> = Vec::new();
    let mut at: usize = 0;
    let mut i: usize = 0;
    while i < spans.len()
        invariant
            i <= spans.len(),
            chars@ == line.text@,
            spans == &line.highlights,
            (run_views(out@), at as nat) == runs_acc(chars@, spans@.take(i as int)),
            at <= chars.len(),
        decreases spans.len() - i,
    {
        assert(spans@.take(i + 1).drop_last() =~= spans@.take(i as int));
        let (start, end0, style) = spans[i];
        let end = if end0 < chars.len() {
            end0
        } else {
            chars.len()
        };
        if start < at || start >= end {
            i += 1;
            continue;
        }
        let ghost before = run_views(out@);
        if start > at {
            let text = string_from(&slice_of(&chars, at, start));
            out.push(Run { column: at, text, style: None });
        }
        let text = string_from(&slice_of(&chars, start, end));
        out.push(Run { column: start, text, style: Some(style) });
        proof {
            let gap = if start > at {
                before.push((at as nat, chars@.subrange(at as int, start as int), None))
            } else {
                before
            };
            assert(run_views(out@) =~= gap.push(
                (start as nat, chars@.subrange(start as int, end as int), Some(style)),
            ));
        }
        at = end;
        i += 1;
    }
    assert(spans@.take(i as int) =~= spans@);
    if at < chars.len() {
        let ghost before = run_views(out@);
        let text = string_from(&slice_of(&chars, at, chars.len()));
        out.push(Run { column: at, text, style: None });
        assert(run_views(out@) =~= before.push(
            (at as nat, chars@.subrange(at as int, chars.len() as int), None),
        ));
    }
    out
}

} // verus!
