//! The launcher: what has been typed, and the rows the providers answered
//! with, flattened into one list under their group headings.
//!
//! The rows are not filtered again by the query: the providers have already
//! scored against it, and a maths row labelled `42` answers `6*7` without
//! matching a character of it.
use vstd::prelude::*;

use crate::action::{Action, ActionView};
use crate::provider::{Activation, Candidate, Group};
use crate::text::{pop_char, push_char};

verus! {

/// What accepting a row does, with its text as characters.
pub enum ActivationView {
    Action(ActionView),
    Copy(Seq<char>),
    Report(Seq<char>),
}

impl View for Activation {
    type V = ActivationView;

    open spec fn view(&self) -> ActivationView {
        match self {
            Activation::Action(a) => ActivationView::Action(a@),
            Activation::Copy(s) => ActivationView::Copy(s@),
            Activation::Report(s) => ActivationView::Report(s@),
        }
    }
}

impl Action {
    /// A copy of this action.
    pub fn duplicate(&self) -> (r: Action)
        ensures
            r@ == self@,
    {
        match self {
            Action::Quit => Action::Quit,
            Action::CycleWorkspace => Action::CycleWorkspace,
            Action::Focus(d) => Action::Focus(*d),
            Action::Swap(d) => Action::Swap(*d),
            Action::Resize(d) => Action::Resize(*d),
            Action::Split(l) => Action::Split(*l),
            Action::ToggleFloating => Action::ToggleFloating,
            Action::Workspace(n) => Action::Workspace(*n),
            Action::MoveToWorkspace(n) => Action::MoveToWorkspace(*n),
            Action::Spawn(s) => Action::Spawn(s.clone()),
            Action::ToggleHelp => Action::ToggleHelp,
            Action::Prompt(p) => Action::Prompt(*p),
            Action::Screenshot => Action::Screenshot,
        }
    }
}

impl Activation {
    /// A copy of this activation.
    pub fn duplicate(&self) -> (r: Activation)
        ensures
            r@ == self@,
    {
        match self {
            Activation::Action(a) => Activation::Action(a.duplicate()),
            Activation::Copy(s) => Activation::Copy(s.clone()),
            Activation::Report(s) => Activation::Report(s.clone()),
        }
    }
}

/// One row as the launcher holds it: the group it came from, and the
/// provider's candidate.
#[derive(Debug)]
struct Entry {
    group: String,
    row: Candidate,
}

/// A row as it is drawn.
#[derive(Debug, Clone, PartialEq)]
pub struct LauncherRow {
    pub label: String,
    pub detail: String,
    /// The heading to draw above this row; empty unless the row starts a run
    /// of rows from one provider.
    pub group: String,
    pub selected: bool,
}

/// What to draw for an open launcher.
#[derive(Debug, Clone, PartialEq)]
pub struct LauncherView {
    pub query: String,
    /// The rows inside the panel, from `scrolled` on.
    pub rows: Vec<LauncherRow>,
    pub message: String,
    /// How many rows lie above the panel.
    pub scrolled: usize,
    /// How many rows there are in all.
    pub total: usize,
}

/// The open launcher: what has been typed, and what answered.
#[derive(Debug)]
pub struct Launcher {
    /// The providers' input.
    pub query: String,
    entries: Vec<Entry>,
    selected: usize,
    scroll: usize,
    /// Shown when nothing answered.
    pub message: String,
}

/// The rows of `groups`, in order, each with the name of its group.
pub open spec fn flattened(groups: Seq<Group>) -> Seq<(Seq<char>, Candidate)>
    decreases groups.len(),
{
    if groups.len() == 0 {
        Seq::empty()
    } else {
        let g = groups.last();
        flattened(groups.drop_last()) + g.rows@.map_values(|c: Candidate| (g.name@, c))
    }
}

/// The selection after moving `delta` rows from `selected` through `n` rows,
/// wrapping at both ends.
pub open spec fn wrapped(selected: int, delta: int, n: int) -> int {
    (selected + delta) % n
}

/// Where a list `total` rows long, showing `viewport` of them from
/// `scroll`, must be scrolled so `selected` is on screen: unchanged when it
/// already is, otherwise the least movement that shows it.
pub open spec fn scroll_for(scroll: int, selected: int, viewport: int, total: int) -> int {
    if total == 0 {
        0
    } else if selected < scroll {
        selected
    } else if selected >= scroll + viewport {
        selected + 1 - viewport
    } else {
        scroll
    }
}

/// The heading drawn above row `i`: its group's name where a run of rows
/// from one group starts, nothing inside a run.
pub open spec fn heading(rows: Seq<(Seq<char>, Candidate)>, i: int) -> Seq<char> {
    if i == 0 || rows[i].0 != rows[i - 1].0 {
        rows[i].0
    } else {
        Seq::empty()
    }
}

/// How far a list `total` rows long must be scrolled so `selected` shows in
/// a panel `viewport` rows tall that was scrolled to `scroll`.
pub fn list_scroll(scroll: usize, selected: usize, viewport: usize, total: usize) -> (r: usize)
    requires
        viewport >= 1,
        selected < total || total == 0,
    ensures
        r == scroll_for(scroll as int, selected as int, viewport as int, total as int),
        total > 0 ==> r <= selected < r + viewport,
{
    if total == 0 {
        0
    } else if selected < scroll {
        selected
    } else if selected - scroll >= viewport {
        selected + 1 - viewport
    } else {
        scroll
    }
}

impl Launcher {
    /// The rows, in order, each with the name of its group.
    pub closed spec fn rows(&self) -> Seq<(Seq<char>, Candidate)> {
        self.entries@.map_values(|e: Entry| (e.group@, e.row))
    }

    /// What has been typed.
    pub closed spec fn typed(&self) -> Seq<char> {
        self.query@
    }

    /// The message shown when nothing answered.
    pub closed spec fn notice(&self) -> Seq<char> {
        self.message@
    }

    /// The selected row's index.
    pub closed spec fn selection(&self) -> int {
        self.selected as int
    }

    /// How far the list is scrolled.
    pub closed spec fn scrolled(&self) -> int {
        self.scroll as int
    }

    /// The selection is a row, or there are no rows and it is the first.
    pub closed spec fn wf(&self) -> bool {
        &&& self.selected < self.entries@.len() || (self.entries@.len() == 0 && self.selected == 0)
    }

    /// Nothing typed, nothing answered.
    pub fn new() -> (l: Self)
        ensures
            l.wf(),
            l.typed().len() == 0,
            l.rows().len() == 0,
            l.selection() == 0,
            l.scrolled() == 0,
            l.notice().len() == 0,
    {
        let l = Launcher {
            query: String::new(),
            entries: Vec::new(),
            selected: 0,
            scroll: 0,
            message: String::new(),
        };
        assert(l.rows() =~= Seq::<(Seq<char>, Candidate)>::empty());
        l
    }

    /// Type a character.
    pub fn push(&mut self, c: char)
        ensures
            final(self).typed() == old(self).typed().push(c),
            final(self).rows() == old(self).rows(),
            final(self).selection() == old(self).selection(),
            final(self).scrolled() == old(self).scrolled(),
            final(self).notice() == old(self).notice(),
            final(self).wf() == old(self).wf(),
    {
        push_char(&mut self.query, c);
    }

    /// Delete a character, reporting whether the query is now empty, which
    /// closes the launcher.
    pub fn backspace(&mut self) -> (r: bool)
        ensures
            final(self).typed() == (if old(self).typed().len() > 0 {
                old(self).typed().drop_last()
            } else {
                old(self).typed()
            }),
            r == (final(self).typed().len() == 0),
            final(self).rows() == old(self).rows(),
            final(self).selection() == old(self).selection(),
            final(self).scrolled() == old(self).scrolled(),
            final(self).notice() == old(self).notice(),
            final(self).wf() == old(self).wf(),
    {
        let _ = pop_char(&mut self.query);
        self.query.as_str().unicode_len() == 0
    }

    /// How many rows there are.
    pub fn row_count(&self) -> (r: usize)
        ensures
            r == self.rows().len(),
    {
        self.entries.len()
    }

    /// The selected row's index.
    pub fn selected(&self) -> (r: usize)
        ensures
            r == self.selection(),
    {
        self.selected
    }

    /// Move the selection `delta` rows, wrapping past either end; with no
    /// rows there is nothing to move.
    pub fn move_selection(&mut self, delta: i32)
        requires
            old(self).wf(),
        ensures
            final(self).wf(),
            final(self).selection() == if old(self).rows().len() == 0 {
                old(self).selection()
            } else {
                wrapped(old(self).selection(), delta as int, old(self).rows().len() as int)
            },
            final(self).rows() == old(self).rows(),
            final(self).typed() == old(self).typed(),
            final(self).scrolled() == old(self).scrolled(),
            final(self).notice() == old(self).notice(),
    {
        let n = self.entries.len();
        if n == 0 {
            return;
        }
        let sel = self.selected;
        let next = if delta >= 0 {
            let d = delta as usize % n;
            let r = if d < n - sel {
                sel + d
            } else {
                d - (n - sel)
            };
            proof {
                let m = n as int;
                vstd::arithmetic::div_mod::lemma_add_mod_noop(sel as int, delta as int, m);
                vstd::arithmetic::div_mod::lemma_small_mod(sel as nat, n as nat);
                vstd::arithmetic::div_mod::lemma_mod_multiples_vanish(-1, sel + d, m);
                vstd::arithmetic::div_mod::lemma_small_mod(r as nat, n as nat);
            }
            r
        } else {
            let a: usize = if delta == i32::MIN {
                2147483648usize
            } else {
                (-delta) as usize
            };
            let k = a % n;
            let r = if sel >= k {
                sel - k
            } else {
                sel + (n - k)
            };
            proof {
                let m = n as int;
                vstd::arithmetic::div_mod::lemma_fundamental_div_mod(a as int, m);
                vstd::arithmetic::div_mod::lemma_mod_bound(a as int, m);
                vstd::arithmetic::div_mod::lemma_mod_multiples_vanish(
                    -(1 + (a as int) / m),
                    sel as int + m - k as int,
                    m,
                );
                assert(m * (-(1 + (a as int) / m)) + (sel as int + m - k as int) == sel as int + delta)
                    by (nonlinear_arith)
                    requires
                        a as int == m * ((a as int) / m) + k as int,
                        delta == -(a as int),
                ;
                vstd::arithmetic::div_mod::lemma_mod_multiples_vanish(-1, sel as int + m - k as int, m);
                vstd::arithmetic::div_mod::lemma_small_mod(r as nat, n as nat);
            }
            r
        };
        self.selected = next;
    }

    /// Replace the rows with `groups`' rows, flattened in order; the
    /// selection and the scroll go back to the top, and the message says
    /// "no matches" when nothing answered something typed.
    pub fn set_groups(&mut self, groups: Vec<Group>)
        ensures
            final(self).wf(),
            final(self).rows() == flattened(groups@),
            final(self).selection() == 0,
            final(self).scrolled() == 0,
            final(self).typed() == old(self).typed(),
            final(self).notice() == if flattened(groups@).len() == 0 && old(self).typed().len() > 0 {
                "no matches"@
            } else {
                Seq::<char>::empty()
            },
    {
        let ghost input = groups@;
        let mut rest = groups;
        let n = rest.len();
        let mut entries: Vec<Entry> = Vec::new();
        let mut i: usize = 0;
        proof {
            assert(input.take(0) =~= Seq::<Group>::empty());
            assert(entries@.map_values(|e: Entry| (e.group@, e.row)) =~= flattened(input.take(0)));
        }
        while rest.len() > 0
            invariant
                i + rest@.len() == input.len() == n,
                rest@ == input.skip(i as int),
                entries@.map_values(|e: Entry| (e.group@, e.row)) == flattened(input.take(i as int)),
            decreases rest.len(),
        {
            let g = rest.remove(0);
            assert(g == input[i as int]);
            assert(input.take(i + 1).drop_last() =~= input.take(i as int));
            assert(input.take(i + 1).last() == g);
            let Group { name, rows } = g;
            let ghost before = entries@.map_values(|e: Entry| (e.group@, e.row));
            let ghost all = rows@;
            let mut rows = rows;
            let mut j: usize = 0;
            let m = rows.len();
            while rows.len() > 0
                invariant
                    j + rows@.len() == all.len() == m,
                    rows@ == all.skip(j as int),
                    entries@.map_values(|e: Entry| (e.group@, e.row)) == before + all.take(
                        j as int,
                    ).map_values(|c: Candidate| (name@, c)),
                decreases rows.len(),
            {
                let row = rows.remove(0);
                assert(row == all[j as int]);
                let ghost prev = entries@.map_values(|e: Entry| (e.group@, e.row));
                entries.push(Entry { group: name.clone(), row });
                assert(all.take(j + 1) =~= all.take(j as int).push(row));
                assert(entries@.map_values(|e: Entry| (e.group@, e.row)) =~= prev.push((name@, row)));
                assert(all.take(j + 1).map_values(|c: Candidate| (name@, c)) =~= all.take(
                    j as int,
                ).map_values(|c: Candidate| (name@, c)).push((name@, row)));
                j += 1;
            }
            assert(all.take(j as int) =~= all);
            i += 1;
        }
        assert(input.take(i as int) =~= input);
        let empty = entries.len() == 0;
        self.entries = entries;
        self.selected = 0;
        self.scroll = 0;
        if empty && self.query.as_str().unicode_len() > 0 {
            self.message = "no matches".to_string();
        } else {
            self.message = String::new();
        }
    }

    /// What accepting the selected row does, or `None` with no rows.
    pub fn accept(&self) -> (r: Option<Activation>)
        requires
            self.wf(),
        ensures
            self.rows().len() == 0 ==> r is None,
            self.rows().len() > 0 ==> (r matches Some(a) && a@ == self.rows()[self.selection()].1.activation@),
    {
        if self.entries.len() == 0 {
            return None;
        }
        Some(self.entries[self.selected].row.activation.duplicate())
    }

    /// The panel for a launcher `viewport` rows tall: scrolled so the
    /// selection shows, the rows from there that fit, each under the heading
    /// of its group where a run of that group starts.
    pub fn view(&mut self, viewport: usize) -> (v: LauncherView)
        requires
            old(self).wf(),
        ensures
            final(self).wf(),
            final(self).rows() == old(self).rows(),
            final(self).selection() == old(self).selection(),
            final(self).typed() == old(self).typed(),
            final(self).notice() == old(self).notice(),
            ({
                let rows = old(self).rows();
                let n = rows.len() as int;
                let shown = if viewport == 0 {
                    1
                } else {
                    viewport as int
                };
                let s = scroll_for(old(self).scrolled(), old(self).selection(), shown, n);
                &&& final(self).scrolled() == s
                &&& v.total == n
                &&& v.scrolled == s
                &&& v.query@ == old(self).typed()
                &&& v.message@ == old(self).notice()
                &&& v.rows@.len() == if n - s < shown {
                    n - s
                } else {
                    shown
                }
                &&& forall|k: int|
                    0 <= k < v.rows@.len() ==> {
                        let i = s + k;
                        &&& (#[trigger] v.rows@[k]).label@ == rows[i].1.label@
                        &&& v.rows@[k].detail@ == rows[i].1.detail@
                        &&& v.rows@[k].group@ == heading(rows, i)
                        &&& v.rows@[k].selected == (i == old(self).selection())
                    }
            }),
    {
        let total = self.entries.len();
        let shown = if viewport == 0 {
            1
        } else {
            viewport
        };
        let s = list_scroll(self.scroll, self.selected, shown, total);
        self.scroll = s;
        let end = if total - s < shown {
            total
        } else {
            s + shown
        };
        let ghost rows = self.rows();
        let mut out: Vec<LauncherRow> = Vec::new();
        let mut i = s;
        while i < end
            invariant
                s <= i <= end <= total == self.entries@.len(),
                rows == self.rows(),
                out@.len() == i - s,
                forall|k: int|
                    0 <= k < out@.len() ==> {
                        let j = s + k;
                        &&& (#[trigger] out@[k]).label@ == rows[j].1.label@
                        &&& out@[k].detail@ == rows[j].1.detail@
                        &&& out@[k].group@ == heading(rows, j)
                        &&& out@[k].selected == (j == self.selected)
                    },
            decreases end - i,
        {
            let e = &self.entries[i];
            assert(rows[i as int] == (e.group@, e.row));
            let group = if i == 0 || self.entries[i].group != self.entries[i - 1].group {
                proof {
                    if i > 0 {
                        assert(rows[i - 1] == (self.entries@[i - 1].group@, self.entries@[i - 1].row));
                    }
                }
                e.group.clone()
            } else {
                assert(rows[i - 1] == (self.entries@[i - 1].group@, self.entries@[i - 1].row));
                String::new()
            };
            let row = LauncherRow {
                label: e.row.label.clone(),
                detail: e.row.detail.clone(),
                group,
                selected: i == self.selected,
            };
            out.push(row);
            i += 1;
        }
        LauncherView {
            query: self.query.clone(),
            rows: out,
            message: self.message.clone(),
            scrolled: s,
            total,
        }
    }
}

/// The selection is always on screen: the panel, scrolled as
/// [`Launcher::view`] scrolls it, always shows the selected row.
pub proof fn law_the_selection_is_always_in_view(scroll: int, selected: int, shown: int, total: int)
    requires
        0 <= selected < total,
        shown >= 1,
        0 <= scroll,
    ensures
        ({
            let s = scroll_for(scroll, selected, shown, total);
            let rows = if total - s < shown {
                total - s
            } else {
                shown
            };
            0 <= s <= selected < s + rows
        }),
{
}

} // verus!
