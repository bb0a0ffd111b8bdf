//! The arithmetic of an editor pane's view onto its buffer: which lines show,
//! how far it scrolls, and which diagnostic marks each line.
//!
//! Lines are counted from zero; a pane shows `rows` of them from its first
//! visible line.
use vstd::prelude::*;

verus! {

/// The first visible line after the cursor moved to `line`: unchanged while
/// the cursor is on screen, otherwise just far enough to bring it back.
pub open spec fn followed(scroll_top: nat, rows: nat, line: nat) -> nat {
    if rows == 0 {
        scroll_top
    } else if line < scroll_top {
        line
    } else if line >= scroll_top + rows {
        (line + 1 - rows) as nat
    } else {
        scroll_top
    }
}

/// Scroll just enough to keep the cursor's line on screen; a pane with no
/// rows yet does not scroll.
pub fn follow_cursor(scroll_top: usize, rows: u16, line: usize) -> (r: usize)
    ensures
        r == followed(scroll_top as nat, rows as nat, line as nat),
        rows > 0 ==> r <= line < r + rows,
{
    let rows = rows as usize;
    if rows == 0 {
        return scroll_top;
    }
    if line < scroll_top {
        line
    } else if line - scroll_top >= rows {
        line - (rows - 1)
    } else {
        scroll_top
    }
}

/// The lines on screen, `first..last`: from the scroll position held to the
/// buffer's last line, for as many rows as the pane has and the buffer holds.
pub open spec fn visible_range(scroll_top: nat, rows: nat, total: nat) -> (nat, nat) {
    let first = if total == 0 {
        0
    } else if scroll_top < total {
        scroll_top
    } else {
        (total - 1) as nat
    };
    let last = if first + rows < total {
        first + rows
    } else {
        total
    };
    (first, last)
}

/// The first and one-past-last line on screen for a pane scrolled to
/// `scroll_top`, `rows` tall, over `total` lines. Clamped to the buffer
/// rather than to the last scroll, so a pane scrolled to the bottom and then
/// grown shows more instead of a gap.
pub fn visible_lines(scroll_top: usize, rows: u16, total: usize) -> (r: (usize, usize))
    ensures
        (r.0 as nat, r.1 as nat) == visible_range(scroll_top as nat, rows as nat, total as nat),
{
    let first = if total == 0 {
        0
    } else if scroll_top < total {
        scroll_top
    } else {
        total - 1
    };
    let rows = rows as usize;
    let last = if rows < total - first {
        first + rows
    } else {
        total
    };
    (first, last)
}

/// The first visible line after scrolling `delta` lines through a buffer of
/// `total` lines: stopping at the top, and at the last line rather than the
/// last screenful.
pub open spec fn scrolled(scroll_top: int, total: nat, delta: int) -> int {
    let max: int = if total == 0 {
        0
    } else {
        total - 1
    };
    let next = scroll_top + delta;
    if next < 0 {
        0
    } else if next > max {
        max
    } else {
        next
    }
}

/// Scroll by `delta` lines, stopping at the ends (see [`scrolled`]).
pub fn scroll_by(scroll_top: usize, total: usize, delta: i64) -> (r: usize)
    ensures
        r == scrolled(scroll_top as int, total as nat, delta as int),
{
    let max: usize = if total == 0 {
        0
    } else {
        total - 1
    };
    let next = scroll_top as i128 + delta as i128;
    if next < 0 {
        0
    } else if next > max as i128 {
        max
    } else {
        next as usize
    }
}

/// The worst severity (the lowest number: 1 is an error, 4 a hint) among
/// the diagnostics on `line`, or `None` when none is on it.
pub open spec fn worst_on(diagnostics: Seq<(usize, u8)>, line: int) -> Option<u8>
    decreases diagnostics.len(),
{
    if diagnostics.len() == 0 {
        None
    } else {
        let rest = worst_on(diagnostics.drop_last(), line);
        let (l, sev) = diagnostics.last();
        if l as int != line {
            rest
        } else {
            match rest {
                Some(s) => Some(if s < sev {
                    s
                } else {
                    sev
                }),
                None => Some(sev),
            }
        }
    }
}

/// The worst diagnostic severity on each of the `shown` lines from
/// `first_line`, given diagnostics as `(line, severity)`: worst rather than
/// first, so the sign does not depend on the order the server sent them in.
pub fn line_severities(diagnostics: &[(usize, u8)], first_line: usize, shown: usize) -> (r: Vec<Option<u8>>)
    requires
        first_line + shown <= usize::MAX,
    ensures
        r@.len() == shown,
        forall|k: int| 0 <= k < shown ==> #[trigger] r@[k] == worst_on(diagnostics@, first_line + k),
{
    let mut out: Vec<Option<u8>> = Vec::new();
    let mut k: usize = 0;
    while k < shown
        invariant
            k <= shown,
            first_line + shown <= usize::MAX,
            out@.len() == k,
            forall|j: int| 0 <= j < k ==> #[trigger] out@[j] == None::<u8>,
        decreases shown - k,
    {
        out.push(None);
        k += 1;
    }
    let mut i: usize = 0;
    while i < diagnostics.len()
        invariant
            i <= diagnostics.len(),
            first_line + shown <= usize::MAX,
            out@.len() == shown,
            forall|j: int|
                0 <= j < shown ==> #[trigger] out@[j] == worst_on(diagnostics@.take(i as int), first_line + j),
        decreases diagnostics.len() - i,
    {
        assert(diagnostics@.take(i + 1).drop_last() =~= diagnostics@.take(i as int));
        let (line, sev) = diagnostics[i];
        if line >= first_line && line - first_line < shown {
            let slot = line - first_line;
            let now = match out[slot] {
                Some(existing) => if existing < sev {
                    existing
                } else {
                    sev
                },
                None => sev,
            };
            out.set(slot, Some(now));
        }
        i += 1;
    }
    assert(diagnostics@.take(i as int) =~= diagnostics@);
    out
}

} // verus!
