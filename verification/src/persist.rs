//! Bringing a session back: which process a window came from, and which
//! relaunched client fills which slot of the saved layout.
use vstd::prelude::*;

use std::collections::HashMap;

use crate::action::parse_u32;
use crate::text::{rfind, rfind_char, slice_of, split_words, to_chars, words};

verus! {

broadcast use {vstd::std_specs::hash::group_hash_axioms, crate::text::lemma_rfind_in_bounds};

/// How far up the process tree a client is followed before giving up.
pub const MAX_ANCESTRY: usize = 16;

/// The ppid field of a `/proc/<pid>/stat` line: the second whitespace-
/// separated field after the *last* closing parenthesis, since the command
/// name before it may hold spaces and parentheses of its own.
pub open spec fn ppid_of(stat: Seq<char>) -> Option<u32> {
    match rfind(stat, ')') {
        None => None,
        Some(k) => {
            let fields = words(stat.skip(k as int + 1));
            if fields.len() >= 2 {
                parse_u32(fields[1])
            } else {
                None
            }
        },
    }
}

/// The ppid field of a `/proc/<pid>/stat` line.
pub fn parse_ppid(stat: &str) -> (r: Option<u32>)
    ensures
        r == ppid_of(stat@),
{
    let v = to_chars(stat);
    match rfind_char(&v, ')') {
        None => None,
        Some(k) => {
            let after = slice_of(&v, k + 1, v.len());
            assert(after@ == v@.skip(k as int + 1));
            let fields = split_words(&after);
            if fields.len() >= 2 {
                let f = &fields[1];
                assert(f@.skip(0) == f@);
                crate::action::parse_u32_at(f, 0)
            } else {
                None
            }
        },
    }
}

/// A walk up the process tree: each step is a parent `parent_of` reported.
pub open spec fn is_walk<F: Fn(u32) -> Option<u32>>(parent_of: F, chain: Seq<u32>) -> bool {
    forall|j: int| 0 <= j < chain.len() - 1 ==> #[trigger] parent_of.ensures((chain[j],), Some(chain[j + 1]))
}

/// `v` is what `known` holds for the first of `pid` and its ancestors that
/// it has an entry for, at most [`MAX_ANCESTRY`] processes up.
pub open spec fn found_by_walk<T, F: Fn(u32) -> Option<u32>>(pid: u32, known: Map<u32, T>, parent_of: F, v: T) -> bool {
    exists|chain: Seq<u32>|
        1 <= chain.len() <= MAX_ANCESTRY && chain[0] == pid && is_walk(parent_of, chain)
            && known.contains_key(chain.last()) && known[chain.last()] == v && (forall|j: int|
            0 <= j < chain.len() - 1 ==> !known.contains_key(#[trigger] chain[j]))
}

/// Neither `pid` nor any of its ancestors within reach has an entry: the
/// walk ran out of parents, or of steps.
pub open spec fn walked_past<T, F: Fn(u32) -> Option<u32>>(pid: u32, known: Map<u32, T>, parent_of: F) -> bool {
    exists|chain: Seq<u32>|
        1 <= chain.len() <= MAX_ANCESTRY && chain[0] == pid && is_walk(parent_of, chain) && (forall|
            j: int,
        |
            0 <= j < chain.len() ==> !known.contains_key(#[trigger] chain[j])) && (chain.len()
            == MAX_ANCESTRY || parent_of.ensures((chain.last(),), None))
}

/// The first of `pid` and its ancestors that `known` has an entry for, at
/// most [`MAX_ANCESTRY`] processes up; a cycle in what `parent_of` reports
/// cannot make this loop.
pub fn ancestor_in<'a, T, F: Fn(u32) -> Option<u32>>(
    pid: u32,
    known: &'a HashMap<u32, T>,
    parent_of: F,
) -> (r: Option<&'a T>)
    requires
        forall|p: u32| #[trigger] parent_of.requires((p,)),
    ensures
        match r {
            Some(v) => found_by_walk(pid, known@, parent_of, *v),
            None => walked_past(pid, known@, parent_of),
        },
{
    let mut current = pid;
    let ghost mut chain: Seq<u32> = seq![pid];
    let mut i: usize = 0;
    while i < MAX_ANCESTRY
        invariant
            i < MAX_ANCESTRY,
            chain.len() == i + 1,
            chain[0] == pid,
            chain.last() == current,
            is_walk(parent_of, chain),
            forall|j: int| 0 <= j < chain.len() - 1 ==> !known@.contains_key(#[trigger] chain[j]),
            forall|p: u32| #[trigger] parent_of.requires((p,)),
        decreases MAX_ANCESTRY - i,
    {
        match known.get(&current) {
            Some(found) => {
                return Some(found);
            },
            None => {},
        }
        let next = parent_of(current);
        match next {
            None => {
                return None;
            },
            Some(p) => {
                if i + 1 == MAX_ANCESTRY {
                    return None;
                }
                proof {
                    let old_chain = chain;
                    chain = chain.push(p);
                    assert forall|j: int| 0 <= j < chain.len() - 1 implies #[trigger] parent_of.ensures(
                        (chain[j],),
                        Some(chain[j + 1]),
                    ) by {
                        if j < old_chain.len() - 1 {
                            assert(parent_of.ensures((old_chain[j],), Some(old_chain[j + 1])));
                        }
                    }
                }
                current = p;
            },
        }
        i += 1;
    }
    None
}

/// A window, by the id the shell gave it.
#[derive(Debug, Clone, Copy, PartialEq, Eq, Hash, Structural)]
pub struct WindowId(pub u64);

/// Which relaunched process fills which app slot of the session being
/// restored, and the windows that have arrived for them.
#[derive(Debug)]
pub struct Restore {
    /// The app entry each relaunched process is meant to fill.
    pub pending: HashMap<u32, usize>,
    /// The window that turned up for an app entry.
    pub claimed: HashMap<usize, WindowId>,
}

impl Restore {
    /// Hand `window` to the app entry the session relaunched `pid` (or one of
    /// its ancestors) for, reporting whether it was waiting for one at all.
    ///
    /// A second window for an entry already claimed takes nothing: the slot
    /// belongs to the first.
    pub fn claim<F: Fn(u32) -> Option<u32>>(&mut self, pid: u32, window: WindowId, parent_of: F) -> (r: bool)
        requires
            forall|p: u32| #[trigger] parent_of.requires((p,)),
        ensures
            final(self).pending@ == old(self).pending@,
            r ==> exists|app: usize|
                found_by_walk(pid, old(self).pending@, parent_of, app) && !old(self).claimed@.contains_key(app)
                    && final(self).claimed@ == old(self).claimed@.insert(app, window),
            !r ==> final(self).claimed@ == old(self).claimed@,
            !r ==> (walked_past(pid, old(self).pending@, parent_of) || exists|app: usize|
                found_by_walk(pid, old(self).pending@, parent_of, app) && old(self).claimed@.contains_key(app)),
    {
        let app = match ancestor_in(pid, &self.pending, parent_of) {
            Some(app) => *app,
            None => {
                return false;
            },
        };
        if self.claimed.contains_key(&app) {
            return false;
        }
        self.claimed.insert(app, window);
        true
    }

    /// Every relaunched client has appeared; there is nothing left to wait
    /// for.
    pub fn is_complete(&self) -> (r: bool)
        ensures
            r == (self.claimed@.len() >= self.pending@.len()),
    {
        self.claimed.len() >= self.pending.len()
    }
}

/// One app of a saved session: the command that relaunches it, if the
/// compositor knew it, the title it had, and whether it was an editor pane,
/// which is recreated rather than relaunched.
#[derive(Debug, Clone, PartialEq)]
pub struct SavedApp {
    pub command: Option<String>,
    pub title: String,
    pub pane: bool,
}

impl SavedApp {
    /// A client window, saved with the command that started it if there was
    /// one.
    pub fn window(command: Option<String>, title: String) -> (r: SavedApp)
        ensures
            r == (SavedApp { command, title, pane: false }),
    {
        SavedApp { command, title, pane: false }
    }

    /// An editor pane, saved as itself: there is no command to relaunch, and a
    /// window with no command would be dropped from the layout.
    pub fn pane(title: String) -> (r: SavedApp)
        ensures
            r == (SavedApp { command: None, title, pane: true }),
    {
        SavedApp { command: None, title, pane: true }
    }
}

/// What bringing back one saved app takes.
#[derive(Debug, Clone, PartialEq)]
pub enum RestoreStep {
    /// Recreate the pane now: there is no process to wait for.
    Pane,
    /// Run this command and wait for its window.
    Relaunch(String),
    /// A window the compositor did not start: there is nothing to run.
    Skip,
}

/// What bringing back `app` takes: a pane is recreated, a window with a
/// command relaunched, and any other window left out.
pub fn restore_step(app: &SavedApp) -> (r: RestoreStep)
    ensures
        app.pane ==> r == RestoreStep::Pane,
        !app.pane ==> match app.command {
            Some(c) => r matches RestoreStep::Relaunch(s) && s@ == c@,
            None => r == RestoreStep::Skip,
        },
{
    if app.pane {
        return RestoreStep::Pane;
    }
    match &app.command {
        Some(c) => RestoreStep::Relaunch(c.clone()),
        None => RestoreStep::Skip,
    }
}

/// `pairs` as a map, a later pair for a key replacing an earlier one.
pub open spec fn pairs_map<K, V>(pairs: Seq<(K, V)>) -> Map<K, V>
    decreases pairs.len(),
{
    if pairs.len() == 0 {
        Map::empty()
    } else {
        pairs_map(pairs.drop_last()).insert(pairs.last().0, pairs.last().1)
    }
}

impl Restore {
    /// The start of a restore: `spawned` pairs each relaunched process with
    /// the app it is to fill, and `panes` each recreated pane with its app,
    /// which is filled already.
    pub fn new(spawned: &[(u32, usize)], panes: &[(usize, WindowId)]) -> (r: Restore)
        ensures
            r.pending@ == pairs_map(spawned@),
            r.claimed@ == pairs_map(panes@),
    {
        let mut pending: HashMap<u32, usize> = HashMap::new();
        let mut i: usize = 0;
        while i < spawned.len()
            invariant
                i <= spawned@.len(),
                pending@ == pairs_map(spawned@.take(i as int)),
            decreases spawned.len() - i,
        {
            assert(spawned@.take(i + 1).drop_last() == spawned@.take(i as int));
            let (pid, app) = spawned[i];
            pending.insert(pid, app);
            i += 1;
        }
        assert(spawned@.take(spawned.len() as int) == spawned@);
        let mut claimed: HashMap<usize, WindowId> = HashMap::new();
        let mut j: usize = 0;
        while j < panes.len()
            invariant
                j <= panes@.len(),
                claimed@ == pairs_map(panes@.take(j as int)),
            decreases panes.len() - j,
        {
            assert(panes@.take(j + 1).drop_last() == panes@.take(j as int));
            let (app, window) = panes[j];
            claimed.insert(app, window);
            j += 1;
        }
        assert(panes@.take(panes.len() as int) == panes@);
        Restore { pending, claimed }
    }

    /// Nothing was relaunched, so nothing is coming: what was recreated is
    /// the whole restore, and the layout is rebuilt at once rather than as
    /// clients arrive.
    pub fn is_immediate(&self) -> (r: bool)
        ensures
            r == (self.pending@.len() == 0),
    {
        self.pending.len() == 0
    }
}

} // verus!
