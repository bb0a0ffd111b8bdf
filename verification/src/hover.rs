//! The panel a language server's hover answer is shown in.
//!
//! The answer is Markdown, and the panel draws plain lines: the code in a
//! fenced block is kept and the fences go, horizontal rules go, and blank
//! lines at either end are dropped. An answer that is nothing but formatting
//! shows no panel at all.
use vstd::prelude::*;

use crate::desktop::{line_acc, lines_of};
use crate::persist::WindowId;
use crate::text::{
    slice_of, string_from, text_end, text_start, to_chars, trim, trim_end, trim_range, trim_start,
    views,
};

verus! {

/// Whether `s` begins with `p`.
pub open spec fn starts_with(s: Seq<char>, p: Seq<char>) -> bool {
    p.len() <= s.len() && s.take(p.len() as int) == p
}

/// A line that shows: neither a code fence (three backquotes, after any
/// indentation) nor a horizontal rule (`---` alone on its line).
pub open spec fn kept(line: Seq<char>) -> bool {
    !starts_with(trim_start(line), "```"@) && trim(line) != "---"@
}

/// The lines of `ls` that show, each without its trailing whitespace.
pub open spec fn kept_lines(ls: Seq<Seq<char>>) -> Seq<Seq<char>>
    decreases ls.len(),
{
    if ls.len() == 0 {
        Seq::empty()
    } else if kept(ls.last()) {
        kept_lines(ls.drop_last()).push(trim_end(ls.last()))
    } else {
        kept_lines(ls.drop_last())
    }
}

/// `ls` without the empty lines at its start and at its end.
pub open spec fn strip_blank_ends(ls: Seq<Seq<char>>) -> Seq<Seq<char>>
    decreases ls.len(),
{
    if ls.len() > 0 && ls[0].len() == 0 {
        strip_blank_ends(ls.drop_first())
    } else if ls.len() > 0 && ls.last().len() == 0 {
        strip_blank_ends(ls.drop_last())
    } else {
        ls
    }
}

/// The lines a hover answer `markup` is shown as.
pub open spec fn hover_body(markup: Seq<char>) -> Seq<Seq<char>> {
    strip_blank_ends(kept_lines(lines_of(markup)))
}

/// The views of a sequence of strings.
pub open spec fn string_views(s: Seq<String>) -> Seq<Seq<char>> {
    s.map_values(|x: String| x@)
}

/// Whether the line `v` shows (see [`kept`]).
fn is_kept(v: &Vec<char>) -> (r: bool)
    ensures
        r == kept(v@),
{
    let s = text_start(v);
    let fence = v.len() - s >= 3 && v[s] == '`' && v[s + 1] == '`' && v[s + 2] == '`';
    proof {
        reveal_strlit("```");
        let t = trim_start(v@);
        if fence {
            assert(t.take(3) =~= "```"@);
        }
        if starts_with(t, "```"@) {
            assert(t.take(3)[0] == v@[s as int]);
            assert(t.take(3)[1] == v@[s + 1]);
            assert(t.take(3)[2] == v@[s + 2]);
        }
    }
    let (lo, hi) = trim_range(v);
    let rule = hi - lo == 3 && v[lo] == '-' && v[lo + 1] == '-' && v[lo + 2] == '-';
    proof {
        reveal_strlit("---");
        let t = trim(v@);
        if rule {
            assert(t =~= "---"@);
        }
        if t == "---"@ {
            assert(hi - lo == t.len() == 3);
            assert(t[0] == v@[lo as int] && t[1] == v@[lo + 1] && t[2] == v@[lo + 2]);
        }
    }
    !fence && !rule
}

/// Record the line `cur` in `out` if it shows.
fn keep_line(out: &mut Vec<Vec<char>>, cur: &Vec<char>)
    ensures
        views(final(out)@) == if kept(cur@) {
            views(old(out)@).push(trim_end(cur@))
        } else {
            views(old(out)@)
        },
{
    if is_kept(cur) {
        let e = text_end(cur);
        let line = slice_of(cur, 0, e);
        let ghost before = views(out@);
        assert(line@ == trim_end(cur@));
        out.push(line);
        assert(views(out@) =~= before.push(trim_end(cur@)));
    }
}

/// The lines of a hover answer the panel shows: code fences and horizontal
/// rules dropped, trailing whitespace trimmed, and no empty lines at either
/// end.
pub fn hover_lines(markup: &str) -> (r: Vec<String>)
    ensures
        string_views(r@) == hover_body(markup@),
{
    let v = to_chars(markup);
    let mut out: Vec<Vec<char>> = Vec::new();
    let mut cur: Vec<char> = Vec::new();
    let mut i: usize = 0;
    assert(v@.take(0) == Seq::<char>::empty());
    assert(views(out@) =~= Seq::<Seq<char>>::empty());
    while i < v.len()
        invariant
            i <= v.len(),
            v@ == markup@,
            views(out@) == kept_lines(line_acc(v@.take(i as int)).0),
            cur@ == line_acc(v@.take(i as int)).1,
        decreases v.len() - i,
    {
        assert(v@.take(i + 1).drop_last() == v@.take(i as int));
        let ghost done = line_acc(v@.take(i as int)).0;
        if v[i] == '\n' {
            keep_line(&mut out, &cur);
            assert(done.push(cur@).drop_last() == done);
            cur = Vec::new();
        } else {
            cur.push(v[i]);
        }
        i += 1;
    }
    assert(v@.take(v.len() as int) == v@);
    let ghost done = line_acc(v@).0;
    keep_line(&mut out, &cur);
    assert(lines_of(v@).drop_last() == done);
    let ghost all = views(out@);
    assert(all == kept_lines(lines_of(v@)));
    let n = out.len();
    let mut lo: usize = 0;
    assert(all.subrange(0, n as int) == all);
    while lo < n && out[lo].len() == 0
        invariant
            lo <= n == out.len(),
            all == views(out@),
            strip_blank_ends(all) == strip_blank_ends(all.subrange(lo as int, n as int)),
        decreases n - lo,
    {
        assert(all.subrange(lo as int, n as int).drop_first() == all.subrange(lo + 1, n as int));
        lo += 1;
    }
    let mut hi: usize = n;
    while hi > lo && out[hi - 1].len() == 0
        invariant
            lo <= hi <= n == out.len(),
            all == views(out@),
            lo < n ==> all[lo as int].len() > 0,
            strip_blank_ends(all) == strip_blank_ends(all.subrange(lo as int, hi as int)),
        decreases hi - lo,
    {
        assert(all.subrange(lo as int, hi as int).drop_last() == all.subrange(lo as int, hi - 1));
        hi -= 1;
    }
    proof {
        let t = all.subrange(lo as int, hi as int);
        if t.len() > 0 {
            assert(t[0] == all[lo as int]);
            assert(t.last() == all[hi - 1]);
        }
    }
    let mut r: Vec<String> = Vec::new();
    let mut j: usize = lo;
    while j < hi
        invariant
            lo <= j <= hi <= n == out.len(),
            all == views(out@),
            string_views(r@) == all.subrange(lo as int, j as int),
        decreases hi - j,
    {
        let s = string_from(&out[j]);
        let ghost before = r@;
        assert(s@ == all[j as int]);
        r.push(s);
        assert(r@ == before.push(s));
        assert(string_views(r@) =~= string_views(before).push(all[j as int]));
        assert(all.subrange(lo as int, j + 1) =~= all.subrange(lo as int, j as int).push(all[j as int]));
        j += 1;
    }
    r
}

/// What blank-stripping leaves starts and ends with a line that has
/// something on it.
proof fn lemma_strip_blank_ends(ls: Seq<Seq<char>>)
    ensures
        strip_blank_ends(ls).len() > 0 ==> strip_blank_ends(ls)[0].len() > 0
            && strip_blank_ends(ls).last().len() > 0,
    decreases ls.len(),
{
    if ls.len() > 0 && ls[0].len() == 0 {
        lemma_strip_blank_ends(ls.drop_first());
    } else if ls.len() > 0 && ls.last().len() == 0 {
        lemma_strip_blank_ends(ls.drop_last());
    }
}

/// A hover panel never opens or closes on an empty line: whatever the
/// answer, the first and the last line shown have something on them.
pub proof fn law_a_hover_panel_has_no_blank_ends(markup: Seq<char>)
    ensures
        hover_body(markup).len() > 0 ==> hover_body(markup)[0].len() > 0
            && hover_body(markup).last().len() > 0,
{
    lemma_strip_blank_ends(kept_lines(lines_of(markup)));
}

/// A hover answer shown beside the caret that asked for it.
#[derive(Debug, Clone, PartialEq)]
pub struct HoverPanel {
    /// The pane whose caret asked.
    pub pane: WindowId,
    /// The caret's line and column, where the panel is anchored.
    pub row: usize,
    pub col: usize,
    /// What the panel says.
    pub lines: Vec<String>,
}

impl HoverPanel {
    /// The panel to show for the answer `markup` to a hover asked at
    /// `(row, col)` in `pane`, or `None` when the answer is nothing but
    /// formatting: an empty box beside the caret would read as "this symbol
    /// is not documented" rather than "the server said nothing".
    pub fn show(pane: WindowId, row: usize, col: usize, markup: &str) -> (r: Option<HoverPanel>)
        ensures
            r is None <==> hover_body(markup@).len() == 0,
            r matches Some(p) ==> {
                &&& p.pane == pane
                &&& p.row == row
                &&& p.col == col
                &&& string_views(p.lines@) == hover_body(markup@)
            },
    {
        let lines = hover_lines(markup);
        if lines.len() == 0 {
            None
        } else {
            Some(HoverPanel { pane, row, col, lines })
        }
    }
}

} // verus!
