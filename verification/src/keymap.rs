//! Multi-key bindings: a binding is a whitespace-separated sequence of chords,
//! so `"M-w h"` means Super+w, then h.
use vstd::prelude::*;

use std::time::Instant;

use crate::action::{action_named, Action, ActionView};
use crate::bind::{bind_matches, bind_spec, keybind_matches, parse_bind, ModifiersState};
use crate::text::{
    all_words, join_words, lemma_words_are_words, lemma_words_of_join, split_words, string_from,
    to_chars, views, words,
};

verus! {

/// How long a half-typed sequence waits for its next key, in milliseconds.
pub const CHORD_TIMEOUT_MS: u64 = 1000;

/// What a keypress meant, given what had already been typed.
#[derive(Debug, Clone, PartialEq)]
pub enum Resolved {
    /// Not bound here. The key belongs to the focused client.
    Unbound,
    /// A prefix of at least one binding — wait for the next key.
    Pending,
    /// A complete binding.
    Action(Action),
}

/// One key that could come next, and what it does.
#[derive(Debug, Clone, PartialEq)]
pub struct WhichKeyEntry {
    pub key: String,
    pub desc: String,
}

/// The overlay for a half-typed sequence: what has been typed, and what may
/// follow.
#[derive(Debug, Clone, PartialEq)]
pub struct WhichKeyView {
    pub title: String,
    pub rows: Vec<WhichKeyEntry>,
}

/// The bindings in force, as chord sequences.
#[derive(Debug)]
pub struct Keymap {
    /// `(chord specs, action name)`, in config order — first match wins.
    binds: Vec<(Vec<String>, String)>,
}

/// The views of a sequence of strings.
pub open spec fn strs(v: Seq<String>) -> Seq<Seq<char>> {
    v.map_values(|s: String| s@)
}

/// The views of `(binding, action)` pairs.
pub open spec fn pairs(v: Seq<(String, String)>) -> Seq<(Seq<char>, Seq<char>)> {
    v.map_values(|p: (String, String)| (p.0@, p.1@))
}

/// The binds a config's `(binding, action)` pairs make: each binding split
/// on whitespace, and a binding with no chord in it dropped.
pub open spec fn binds_of(b: Seq<(Seq<char>, Seq<char>)>) -> Seq<(Seq<Seq<char>>, Seq<char>)>
    decreases b.len(),
{
    if b.len() == 0 {
        seq![]
    } else {
        let rest = binds_of(b.drop_last());
        let w = words(b.last().0);
        if w.len() > 0 {
            rest.push((w, b.last().1))
        } else {
            rest
        }
    }
}

/// `chords` continues the typed `pending` sequence by at least one chord.
pub open spec fn extends(chords: Seq<Seq<char>>, pending: Seq<Seq<char>>) -> bool {
    chords.len() > pending.len() && chords.take(pending.len() as int) == pending
}

/// A bind whose next chord is `(mods, key)` and which ends there, naming an
/// action.
pub open spec fn completes(
    b: (Seq<Seq<char>>, Seq<char>),
    pending: Seq<Seq<char>>,
    mods: ModifiersState,
    key: Seq<char>,
) -> bool {
    extends(b.0, pending) && bind_matches(b.0[pending.len() as int], mods, key)
        && b.0.len() == pending.len() + 1 && action_named(b.1) is Some
}

/// A bind whose next chord is `(mods, key)` and which goes on after it.
pub open spec fn continues(
    b: (Seq<Seq<char>>, Seq<char>),
    pending: Seq<Seq<char>>,
    mods: ModifiersState,
    key: Seq<char>,
) -> bool {
    extends(b.0, pending) && bind_matches(b.0[pending.len() as int], mods, key)
        && b.0.len() > pending.len() + 1
}

/// The row a bind contributes after `pending`: its next chord, and either
/// its action or, for a key that leads on, `+` and the rest of the sequence.
pub open spec fn row_of(b: (Seq<Seq<char>>, Seq<char>), p: nat) -> (Seq<char>, Seq<char>) {
    (b.0[p as int], if b.0.len() == p + 1 {
        b.1
    } else {
        "+"@ + join_words(b.0.skip(p as int + 1))
    })
}

/// The keys that could come next after `pending`, one row per key, the
/// first bind naming a key deciding its row.
pub open spec fn continuation_rows(
    b: Seq<(Seq<Seq<char>>, Seq<char>)>,
    pending: Seq<Seq<char>>,
) -> Seq<(Seq<char>, Seq<char>)>
    decreases b.len(),
{
    if b.len() == 0 {
        seq![]
    } else {
        let rows = continuation_rows(b.drop_last(), pending);
        let last = b.last();
        if !extends(last.0, pending) {
            rows
        } else if exists|i: int| 0 <= i < rows.len() && rows[i].0 == last.0[pending.len() as int] {
            rows
        } else {
            rows.push(row_of(last, pending.len()))
        }
    }
}

/// Bind `t` is the first of `b` to go on after `pending` with its next
/// chord: every earlier bind that goes on after `pending` has another one.
pub open spec fn first_to_offer(
    b: Seq<(Seq<Seq<char>>, Seq<char>)>,
    pending: Seq<Seq<char>>,
    t: int,
) -> bool {
    &&& 0 <= t < b.len()
    &&& extends(b[t].0, pending)
    &&& forall|u: int|
        0 <= u < t && extends(#[trigger] b[u].0, pending) ==> b[u].0[pending.len() as int]
            != b[t].0[pending.len() as int]
}

/// The which-key rows after `pending` offer each key once: no two rows name
/// the same key, and every bind that goes on after `pending` has its next
/// chord offered.
pub proof fn law_each_key_is_offered_once(
    b: Seq<(Seq<Seq<char>>, Seq<char>)>,
    pending: Seq<Seq<char>>,
)
    ensures
        forall|i: int, j: int|
            0 <= i < j < continuation_rows(b, pending).len() ==> #[trigger] continuation_rows(
                b,
                pending,
            )[i].0 != #[trigger] continuation_rows(b, pending)[j].0,
        forall|t: int|
            0 <= t < b.len() && extends(#[trigger] b[t].0, pending) ==> exists|i: int|
                0 <= i < continuation_rows(b, pending).len() && #[trigger] continuation_rows(
                    b,
                    pending,
                )[i].0 == b[t].0[pending.len() as int],
{
    lemma_offered_keys_differ(b, pending);
    lemma_each_bind_is_offered(b, pending);
}

proof fn lemma_offered_keys_differ(b: Seq<(Seq<Seq<char>>, Seq<char>)>, pending: Seq<Seq<char>>)
    ensures
        forall|i: int, j: int|
            0 <= i < j < continuation_rows(b, pending).len() ==> #[trigger] continuation_rows(
                b,
                pending,
            )[i].0 != #[trigger] continuation_rows(b, pending)[j].0,
    decreases b.len(),
{
    if b.len() > 0 {
        let prev = b.drop_last();
        lemma_offered_keys_differ(prev, pending);
        let rows = continuation_rows(prev, pending);
        let last = b.last();
        let p = pending.len() as int;
        let out = continuation_rows(b, pending);
        if !extends(last.0, pending) {
            assert(out == rows);
        } else if exists|i: int| 0 <= i < rows.len() && rows[i].0 == last.0[p] {
            assert(out == rows);
        } else {
            assert(out == rows.push(row_of(last, pending.len())));
            assert forall|i: int, j: int| 0 <= i < j < out.len() implies #[trigger] out[i].0
                != #[trigger] out[j].0 by {
                assert(out[i] == rows[i]);
                if j < rows.len() {
                    assert(out[j] == rows[j]);
                }
            }
        }
    }
}

proof fn lemma_each_bind_is_offered(b: Seq<(Seq<Seq<char>>, Seq<char>)>, pending: Seq<Seq<char>>)
    ensures
        forall|t: int|
            0 <= t < b.len() && extends(#[trigger] b[t].0, pending) ==> exists|i: int|
                0 <= i < continuation_rows(b, pending).len() && #[trigger] continuation_rows(
                    b,
                    pending,
                )[i].0 == b[t].0[pending.len() as int],
    decreases b.len(),
{
    if b.len() > 0 {
        let prev = b.drop_last();
        lemma_each_bind_is_offered(prev, pending);
        let rows = continuation_rows(prev, pending);
        let out = continuation_rows(b, pending);
        let last = b.last();
        let p = pending.len() as int;
        let pushed = extends(last.0, pending) && !(exists|i: int|
            0 <= i < rows.len() && rows[i].0 == last.0[p]);
        if pushed {
            assert(out == rows.push(row_of(last, pending.len())));
        } else {
            assert(out == rows);
        }
        assert forall|t: int|
            0 <= t < b.len() && extends(#[trigger] b[t].0, pending) implies exists|i: int|
                0 <= i < out.len() && #[trigger] out[i].0 == b[t].0[p] by {
            if t < prev.len() {
                assert(prev[t] == b[t]);
                assert(extends(prev[t].0, pending));
                let i = choose|i: int| 0 <= i < rows.len() && #[trigger] rows[i].0 == prev[t].0[p];
                assert(out[i] == rows[i]);
                assert(out[i].0 == b[t].0[p]);
            } else {
                assert(b[t] == last);
                if pushed {
                    assert(out[rows.len() as int] == row_of(last, pending.len()));
                    assert(out[rows.len() as int].0 == b[t].0[p]);
                } else {
                    let i = choose|i: int| 0 <= i < rows.len() && rows[i].0 == last.0[p];
                    assert(out[i].0 == b[t].0[p]);
                }
            }
        }
    }
}

/// The first bind to offer a key decides its row: row `i` after `pending`
/// is the row of a bind `t` that goes on after `pending`, and no bind
/// before `t` that goes on after `pending` offers the same key, so a later
/// bind with that key changes nothing.
pub proof fn law_the_first_bind_decides_a_row(
    b: Seq<(Seq<Seq<char>>, Seq<char>)>,
    pending: Seq<Seq<char>>,
    i: int,
) -> (t: int)
    requires
        0 <= i < continuation_rows(b, pending).len(),
    ensures
        first_to_offer(b, pending, t),
        continuation_rows(b, pending)[i] == row_of(b[t], pending.len()),
    decreases b.len(),
{
    let prev = b.drop_last();
    let rows = continuation_rows(prev, pending);
    let out = continuation_rows(b, pending);
    let last = b.last();
    let p = pending.len() as int;
    let pushed = extends(last.0, pending) && !(exists|k: int|
        0 <= k < rows.len() && rows[k].0 == last.0[p]);
    if pushed {
        assert(out == rows.push(row_of(last, pending.len())));
    } else {
        assert(out == rows);
    }
    if i < rows.len() {
        assert(out[i] == rows[i]);
        let t = law_the_first_bind_decides_a_row(prev, pending, i);
        assert(prev[t] == b[t]);
        assert forall|u: int| 0 <= u < t && extends(#[trigger] b[u].0, pending) implies b[u].0[p]
            != b[t].0[p] by {
            assert(prev[u] == b[u]);
            assert(extends(prev[u].0, pending));
        }
        t
    } else {
        lemma_each_bind_is_offered(prev, pending);
        let n = b.len() - 1;
        assert(b[n] == last);
        assert forall|u: int| 0 <= u < n && extends(#[trigger] b[u].0, pending) implies b[u].0[p]
            != b[n].0[p] by {
            assert(prev[u] == b[u]);
            assert(extends(prev[u].0, pending));
        }
        n
    }
}

pub open spec fn entry_views(v: Seq<WhichKeyEntry>) -> Seq<(Seq<char>, Seq<char>)> {
    v.map_values(|e: WhichKeyEntry| (e.key@, e.desc@))
}

impl Default for Keymap {
    fn default() -> (k: Self)
        ensures
            k@ == Seq::<(Seq<Seq<char>>, Seq<char>)>::empty(),
    {
        let k = Keymap { binds: Vec::new() };
        assert(k@ =~= Seq::<(Seq<Seq<char>>, Seq<char>)>::empty());
        k
    }
}

impl Clone for Keymap {
    /// The same binds, in the same order.
    fn clone(&self) -> (r: Self)
        ensures
            r@ == self@,
    {
        proof {
            use_type_invariant(self);
        }
        let n = self.binds.len();
        let mut out: Vec<(Vec<String>, String)> = Vec::new();
        let mut i: usize = 0;
        while i < n
            invariant
                i <= n == self.binds@.len() == self@.len(),
                (Keymap { binds: out })@ == self@.take(i as int),
                forall|j: int| 0 <= j < self@.len() ==> all_words(#[trigger] self@[j].0),
            decreases n - i,
        {
            let chords = &self.binds[i].0;
            let mut cs: Vec<String> = Vec::new();
            let mut k: usize = 0;
            while k < chords.len()
                invariant
                    k <= chords@.len(),
                    strs(cs@) == strs(chords@).take(k as int),
                decreases chords.len() - k,
            {
                let c = chords[k].clone();
                let ghost before = strs(cs@);
                cs.push(c);
                assert(strs(cs@) =~= before.push(chords@[k as int]@));
                assert(strs(chords@).take(k + 1) =~= strs(chords@).take(k as int).push(chords@[k as int]@));
                k += 1;
            }
            assert(strs(chords@).take(chords@.len() as int) == strs(chords@));
            let action = self.binds[i].1.clone();
            let ghost before = (Keymap { binds: out })@;
            out.push((cs, action));
            assert((Keymap { binds: out })@ =~= before.push(self@[i as int]));
            assert(self@.take(i + 1) =~= self@.take(i as int).push(self@[i as int]));
            i += 1;
        }
        assert(self@.take(n as int) == self@);
        Keymap { binds: out }
    }
}

impl View for Keymap {
    type V = Seq<(Seq<Seq<char>>, Seq<char>)>;

    closed spec fn view(&self) -> Seq<(Seq<Seq<char>>, Seq<char>)> {
        self.binds@.map_values(|b: (Vec<String>, String)| (strs(b.0@), b.1@))
    }
}

/// The view of a resolution.
pub enum ResolvedView {
    Unbound,
    Pending,
    Action(ActionView),
}

impl View for Resolved {
    type V = ResolvedView;

    open spec fn view(&self) -> ResolvedView {
        match self {
            Resolved::Unbound => ResolvedView::Unbound,
            Resolved::Pending => ResolvedView::Pending,
            Resolved::Action(a) => ResolvedView::Action(a@),
        }
    }
}

/// What `(mods, key)` means after `p` under the binds `b`: the action of the
/// first bind it completes, even over a longer bind sharing the prefix;
/// failing that, pending when some bind goes on after it; otherwise
/// unbound.
pub open spec fn resolves_to(
    b: Seq<(Seq<Seq<char>>, Seq<char>)>,
    p: Seq<Seq<char>>,
    mods: ModifiersState,
    key: Seq<char>,
    r: ResolvedView,
) -> bool {
    match r {
        ResolvedView::Action(a) => exists|i: int|
            0 <= i < b.len() && completes(b[i], p, mods, key) && (forall|j: int|
                0 <= j < i ==> !completes(#[trigger] b[j], p, mods, key)) && action_named(b[i].1)
                == Some(a),
        ResolvedView::Pending => (forall|j: int|
            0 <= j < b.len() ==> !completes(#[trigger] b[j], p, mods, key)) && exists|j: int|
            0 <= j < b.len() && continues(#[trigger] b[j], p, mods, key),
        ResolvedView::Unbound => forall|j: int|
            0 <= j < b.len() ==> !completes(#[trigger] b[j], p, mods, key) && !continues(
                b[j],
                p,
                mods,
                key,
            ),
    }
}

/// A key resolves to one thing only.
proof fn lemma_resolves_once(
    b: Seq<(Seq<Seq<char>>, Seq<char>)>,
    p: Seq<Seq<char>>,
    mods: ModifiersState,
    key: Seq<char>,
    r1: ResolvedView,
    r2: ResolvedView,
)
    requires
        resolves_to(b, p, mods, key, r1),
        resolves_to(b, p, mods, key, r2),
    ensures
        r1 == r2,
{
    match (r1, r2) {
        (ResolvedView::Action(a1), ResolvedView::Action(a2)) => {
            let i1 = choose|i: int|
                0 <= i < b.len() && completes(b[i], p, mods, key) && (forall|j: int|
                    0 <= j < i ==> !completes(#[trigger] b[j], p, mods, key)) && action_named(b[i].1)
                    == Some(a1);
            let i2 = choose|i: int|
                0 <= i < b.len() && completes(b[i], p, mods, key) && (forall|j: int|
                    0 <= j < i ==> !completes(#[trigger] b[j], p, mods, key)) && action_named(b[i].1)
                    == Some(a2);
            if i1 < i2 {
                assert(!completes(b[i1], p, mods, key));
            } else if i2 < i1 {
                assert(!completes(b[i2], p, mods, key));
            }
        },
        (ResolvedView::Action(_), _) | (_, ResolvedView::Action(_)) => {},
        (ResolvedView::Pending, ResolvedView::Unbound) => {
            let j = choose|j: int| 0 <= j < b.len() && continues(#[trigger] b[j], p, mods, key);
            assert(!continues(b[j], p, mods, key));
        },
        (ResolvedView::Unbound, ResolvedView::Pending) => {
            let j = choose|j: int| 0 <= j < b.len() && continues(#[trigger] b[j], p, mods, key);
            assert(!continues(b[j], p, mods, key));
        },
        _ => {},
    }
}

/// The key press a chord spec describes: its modifiers held and its key, or
/// `None` for a spec that is no chord.
pub open spec fn press_of(spec: Seq<char>) -> Option<(ModifiersState, Seq<char>)> {
    match bind_spec(spec) {
        Some((m, k)) => Some(
            (ModifiersState { logo: m.logo, shift: m.shift, ctrl: m.ctrl, alt: m.alt }, k),
        ),
        None => None,
    }
}

/// Whether the chord spec `spec`, pressed after `prefix`, resolves to `r`.
pub open spec fn press_resolves(
    b: Seq<(Seq<Seq<char>>, Seq<char>)>,
    prefix: Seq<Seq<char>>,
    spec: Seq<char>,
    r: ResolvedView,
) -> bool {
    match press_of(spec) {
        Some((mods, key)) => resolves_to(b, prefix, mods, key, r),
        None => false,
    }
}

/// Typing `chords` under the binds `b`, one press per chord from nothing
/// pending, runs `a`: every press but the last leaves the sequence pending,
/// and the last resolves to `a`.
pub open spec fn runs(b: Seq<(Seq<Seq<char>>, Seq<char>)>, chords: Seq<Seq<char>>, a: ActionView) -> bool {
    &&& chords.len() > 0
    &&& forall|k: int|
        0 <= k < chords.len() - 1 ==> #[trigger] press_resolves(
            b,
            chords.take(k),
            chords[k],
            ResolvedView::Pending,
        )
    &&& press_resolves(
        b,
        chords.take(chords.len() - 1),
        chords[chords.len() - 1],
        ResolvedView::Action(a),
    )
}

/// Whether `a` and `b` are the same action.
fn same_action(a: &Action, b: &Action) -> (r: bool)
    ensures
        r == (a@ == b@),
{
    match (a, b) {
        (Action::Quit, Action::Quit) => true,
        (Action::CycleWorkspace, Action::CycleWorkspace) => true,
        (Action::Focus(x), Action::Focus(y)) => *x == *y,
        (Action::Swap(x), Action::Swap(y)) => *x == *y,
        (Action::Resize(x), Action::Resize(y)) => *x == *y,
        (Action::Split(x), Action::Split(y)) => *x == *y,
        (Action::ToggleFloating, Action::ToggleFloating) => true,
        (Action::Workspace(x), Action::Workspace(y)) => *x == *y,
        (Action::MoveToWorkspace(x), Action::MoveToWorkspace(y)) => *x == *y,
        (Action::Spawn(x), Action::Spawn(y)) => crate::text::eq_lit(&to_chars(x.as_str()), y.as_str()),
        (Action::ToggleHelp, Action::ToggleHelp) => true,
        (Action::Prompt(x), Action::Prompt(y)) => *x == *y,
        (Action::Screenshot, Action::Screenshot) => true,
        _ => false,
    }
}

/// `r` is the first of `keys` that `(mods, key)` matches, or `None` when it
/// matches none of them.
pub open spec fn picks_first(keys: Seq<Seq<char>>, mods: ModifiersState, key: Seq<char>, r: Option<Seq<char>>) -> bool {
    match r {
        Some(s) => exists|i: int|
            0 <= i < keys.len() && bind_matches(keys[i], mods, key) && (forall|j: int|
                0 <= j < i ==> !bind_matches(#[trigger] keys[j], mods, key)) && s == keys[i],
        None => forall|j: int| 0 <= j < keys.len() ==> !bind_matches(#[trigger] keys[j], mods, key),
    }
}

/// The keys of overlay rows.
pub open spec fn row_keys(rows: Seq<(Seq<char>, Seq<char>)>) -> Seq<Seq<char>> {
    rows.map_values(|r: (Seq<char>, Seq<char>)| r.0)
}

/// The view of optional text.
pub open spec fn opt_text(s: Option<String>) -> Option<Seq<char>> {
    match s {
        Some(v) => Some(v@),
        None => None,
    }
}

/// The whole chord sequence as strings.
fn strings_of(w: &Vec<Vec<char>>) -> (r: Vec<String>)
    ensures
        strs(r@) == views(w@),
{
    let mut r: Vec<String> = Vec::new();
    let mut i: usize = 0;
    while i < w.len()
        invariant
            i <= w.len(),
            strs(r@) == views(w@.take(i as int)),
        decreases w.len() - i,
    {
        let s = string_from(&w[i]);
        let ghost before = strs(r@);
        r.push(s);
        assert(strs(r@) =~= before.push(w@[i as int]@));
        assert(views(w@.take(i + 1)) =~= views(w@.take(i as int)).push(w@[i as int]@));
        i += 1;
    }
    assert(w@.take(w.len() as int) == w@);
    r
}

/// Whether `chords` begins with `prefix`.
pub fn starts_with(chords: &Vec<String>, prefix: &[String]) -> (r: bool)
    ensures
        r == (chords@.len() >= prefix@.len() && strs(chords@).take(prefix@.len() as int) == strs(
            prefix@,
        )),
{
    if chords.len() < prefix.len() {
        return false;
    }
    let mut i: usize = 0;
    while i < prefix.len()
        invariant
            i <= prefix.len() <= chords.len(),
            forall|j: int| 0 <= j < i ==> chords@[j]@ == prefix@[j]@,
        decreases prefix.len() - i,
    {
        if chords[i] != prefix[i] {
            assert(strs(chords@).take(prefix@.len() as int)[i as int] != strs(prefix@)[i as int]);
            return false;
        }
        i += 1;
    }
    assert(strs(chords@).take(prefix@.len() as int) =~= strs(prefix@));
    true
}

/// `w` joined with single spaces.
fn join_from(w: &Vec<String>, start: usize) -> (r: String)
    requires
        start <= w.len(),
    ensures
        r@ == join_words(strs(w@).skip(start as int)),
{
    let mut r = String::new();
    let mut i = start;
    assert(strs(w@).skip(start as int).take(0) == Seq::<Seq<char>>::empty());
    while i < w.len()
        invariant
            start <= i <= w.len(),
            r@ == join_words(strs(w@).skip(start as int).take(i - start)),
        decreases w.len() - i,
    {
        let ghost ws = strs(w@).skip(start as int);
        assert(ws.take(i - start + 1).drop_last() == ws.take(i - start));
        if i > start {
            r.append(" ");
        }
        r.append(w[i].as_str());
        i += 1;
    }
    assert(strs(w@).skip(start as int).take(w.len() - start) == strs(w@).skip(start as int));
    r
}

impl Keymap {
    /// Every chord of every bind is a word: what splitting a binding on
    /// whitespace gives.
    #[verifier::type_invariant]
    spec fn chords_are_words(self) -> bool {
        forall|i: int| 0 <= i < self@.len() ==> all_words(#[trigger] self@[i].0)
    }

    /// The binds `(binding, action)` pairs describe, in config order. A
    /// binding string with no chord in it is dropped.
    pub fn new(binds: &[(String, String)]) -> (k: Keymap)
        ensures
            k@ == binds_of(pairs(binds@)),
    {
        let mut out: Vec<(Vec<String>, String)> = Vec::new();
        let mut i: usize = 0;
        while i < binds.len()
            invariant
                i <= binds.len(),
                (Keymap { binds: out })@ == binds_of(pairs(binds@.take(i as int))),
                forall|j: int|
                    0 <= j < out@.len() ==> all_words(#[trigger] (Keymap { binds: out })@[j].0),
            decreases binds.len() - i,
        {
            assert(pairs(binds@.take(i + 1)).drop_last() =~= pairs(binds@.take(i as int)));
            let v = to_chars(binds[i].0.as_str());
            let w = split_words(&v);
            if w.len() > 0 {
                let chords = strings_of(&w);
                let action = binds[i].1.clone();
                let ghost before = (Keymap { binds: out })@;
                proof {
                    lemma_words_are_words(v@);
                }
                out.push((chords, action));
                assert((Keymap { binds: out })@ =~= before.push((views(w@), binds@[i as int].1@)));
            }
            i += 1;
        }
        assert(binds@.take(binds.len() as int) == binds@);
        Keymap { binds: out }
    }

    /// Resolve `(mods, key)` arriving after the chords already in `pending`.
    ///
    /// The first bind that ends with this key and names an action wins, even
    /// over a longer bind sharing the prefix. Failing that, the key is a
    /// prefix when some bind goes on after it, and unbound otherwise.
    pub fn resolve(&self, pending: &[String], mods: &ModifiersState, key: &str) -> (r: Resolved)
        ensures
            resolves_to(self@, strs(pending@), *mods, key@, r@),
    {
        let ghost b = self@;
        let ghost p = strs(pending@);
        let mut saw_longer = false;
        let mut i: usize = 0;
        while i < self.binds.len()
            invariant
                i <= self.binds.len() == b.len(),
                b == self@,
                p == strs(pending@),
                forall|j: int| 0 <= j < i ==> !completes(#[trigger] b[j], p, *mods, key@),
                saw_longer == exists|j: int| 0 <= j < i && continues(#[trigger] b[j], p, *mods, key@),
            decreases self.binds.len() - i,
        {
            let chords = &self.binds[i].0;
            let action = &self.binds[i].1;
            assert(b[i as int] == (strs(chords@), action@));
            if chords.len() <= pending.len() || !starts_with(chords, pending) {
                i += 1;
                continue;
            }
            if !keybind_matches(chords[pending.len()].as_str(), mods, key) {
                i += 1;
                continue;
            }
            if chords.len() == pending.len() + 1 {
                match Action::from_name(action.as_str()) {
                    Some(a) => {
                        return Resolved::Action(a);
                    },
                    None => {},
                }
            } else {
                saw_longer = true;
            }
            i += 1;
        }
        if saw_longer {
            Resolved::Pending
        } else {
            Resolved::Unbound
        }
    }

    /// Whether typing `chords` one press at a time runs `target` (see
    /// [`runs`]).
    fn types_to(&self, chords: &Vec<String>, target: &Action) -> (r: bool)
        ensures
            r == runs(self@, strs(chords@), target@),
    {
        let ghost cs = strs(chords@);
        let n = chords.len();
        if n == 0 {
            return false;
        }
        let mut prefix: Vec<String> = Vec::new();
        let mut k: usize = 0;
        while k < n
            invariant
                k < n == chords@.len(),
                cs == strs(chords@),
                strs(prefix@) == cs.take(k as int),
                forall|j: int|
                    0 <= j < k ==> #[trigger] press_resolves(
                        self@,
                        cs.take(j),
                        cs[j],
                        ResolvedView::Pending,
                    ),
            decreases n - k,
        {
            assert(cs[k as int] == chords@[k as int]@);
            let (m, key) = match parse_bind(chords[k].as_str()) {
                Some(p) => p,
                None => {
                    assert(!press_resolves(self@, cs.take(k as int), cs[k as int], ResolvedView::Pending));
                    assert(k == n - 1 ==> !press_resolves(
                        self@,
                        cs.take(k as int),
                        cs[k as int],
                        ResolvedView::Action(target@),
                    ));
                    return false;
                },
            };
            let mods = ModifiersState { logo: m.logo, shift: m.shift, ctrl: m.ctrl, alt: m.alt };
            assert(press_of(cs[k as int]) == Some((mods, key@)));
            let res = self.resolve(prefix.as_slice(), &mods, key);
            if k + 1 < n {
                match res {
                    Resolved::Pending => {},
                    _ => {
                        proof {
                            if press_resolves(self@, cs.take(k as int), cs[k as int], ResolvedView::Pending) {
                                lemma_resolves_once(
                                    self@,
                                    cs.take(k as int),
                                    mods,
                                    key@,
                                    res@,
                                    ResolvedView::Pending,
                                );
                            }
                        }
                        return false;
                    },
                }
            } else {
                assert(cs.take(cs.len() - 1) == cs.take(k as int));
                return match res {
                    Resolved::Action(a) => {
                        let same = same_action(&a, target);
                        proof {
                            if press_resolves(
                                self@,
                                cs.take(k as int),
                                cs[k as int],
                                ResolvedView::Action(target@),
                            ) {
                                lemma_resolves_once(
                                    self@,
                                    cs.take(k as int),
                                    mods,
                                    key@,
                                    res@,
                                    ResolvedView::Action(target@),
                                );
                            }
                        }
                        same
                    },
                    _ => {
                        proof {
                            if press_resolves(
                                self@,
                                cs.take(k as int),
                                cs[k as int],
                                ResolvedView::Action(target@),
                            ) {
                                lemma_resolves_once(
                                    self@,
                                    cs.take(k as int),
                                    mods,
                                    key@,
                                    res@,
                                    ResolvedView::Action(target@),
                                );
                            }
                        }
                        false
                    },
                };
            }
            let c = chords[k].clone();
            let ghost before = strs(prefix@);
            prefix.push(c);
            assert(strs(prefix@) =~= before.push(cs[k as int]));
            assert(cs.take(k + 1) =~= cs.take(k as int).push(cs[k as int]));
            k += 1;
        }
        false
    }

    /// The binding that runs `action`, if the config named one: the chords
    /// of the first bind naming it that the keyboard really has, typed one
    /// press at a time, space-separated. A bind shadowed by an earlier bind
    /// on the same chords, or naming no action at all, is never advertised.
    pub fn binding_for(&self, action: &str) -> (r: Option<String>)
        ensures
            match r {
                Some(s) => action_named(action@) matches Some(a) && exists|i: int|
                    0 <= i < self@.len() && self@[i].1 == action@ && runs(self@, self@[i].0, a)
                        && words(s@) == self@[i].0 && (forall|j: int|
                        0 <= j < i && #[trigger] self@[j].1 == action@ ==> !runs(self@, self@[j].0, a))
                        && s@ == join_words(self@[i].0),
                None => action_named(action@) is None || forall|j: int|
                    0 <= j < self@.len() && #[trigger] self@[j].1 == action@ ==> !runs(
                        self@,
                        self@[j].0,
                        action_named(action@)->0,
                    ),
            },
    {
        let target = match Action::from_name(action) {
            Some(t) => t,
            None => {
                return None;
            },
        };
        let mut i: usize = 0;
        while i < self.binds.len()
            invariant
                i <= self.binds.len(),
                Some(target@) == action_named(action@),
                forall|j: int|
                    0 <= j < i && #[trigger] self@[j].1 == action@ ==> !runs(self@, self@[j].0, target@),
            decreases self.binds.len() - i,
        {
            let name = to_chars(self.binds[i].1.as_str());
            assert(self@[i as int].1 == name@);
            assert(self@[i as int].0 == strs(self.binds[i as int].0@));
            if crate::text::eq_lit(&name, action) && self.types_to(&self.binds[i].0, &target) {
                let s = join_from(&self.binds[i].0, 0);
                assert(strs(self.binds[i as int].0@).skip(0) == strs(self.binds[i as int].0@));
                proof {
                    use_type_invariant(self);
                    lemma_words_of_join(self@[i as int].0);
                }
                return Some(s);
            }
            i += 1;
        }
        None
    }
}

impl Keymap {
    /// The keys that could come next after `pending`, and what they do: one
    /// row per key, in config order. A key that leads into a longer sequence
    /// is a group, described as `+` and the rest of that sequence.
    ///
    /// Empty when nothing continues from here.
    pub fn continuations(&self, pending: &[String]) -> (r: Vec<WhichKeyEntry>)
        ensures
            entry_views(r@) == continuation_rows(self@, strs(pending@)),
    {
        let ghost b = self@;
        let ghost p = strs(pending@);
        let mut rows: Vec<WhichKeyEntry> = Vec::new();
        let mut i: usize = 0;
        assert(b.take(0) == Seq::<(Seq<Seq<char>>, Seq<char>)>::empty());
        while i < self.binds.len()
            invariant
                i <= self.binds.len() == b.len(),
                b == self@,
                p == strs(pending@),
                entry_views(rows@) == continuation_rows(b.take(i as int), p),
            decreases self.binds.len() - i,
        {
            assert(b.take(i + 1).drop_last() == b.take(i as int));
            assert(b.take(i + 1).last() == b[i as int]);
            let chords = &self.binds[i].0;
            let action = &self.binds[i].1;
            assert(b[i as int] == (strs(chords@), action@));
            if chords.len() <= pending.len() || !starts_with(chords, pending) {
                i += 1;
                continue;
            }
            let key = chords[pending.len()].clone();
            let ghost rv = entry_views(rows@);
            let mut seen = false;
            let mut j: usize = 0;
            while j < rows.len()
                invariant
                    j <= rows.len(),
                    rv == entry_views(rows@),
                    seen == exists|k: int| 0 <= k < j && rv[k].0 == key@,
                decreases rows.len() - j,
            {
                assert(rv[j as int].0 == rows@[j as int].key@);
                if rows[j].key == key {
                    seen = true;
                }
                j += 1;
            }
            if seen {
                i += 1;
                continue;
            }
            let desc = if chords.len() == pending.len() + 1 {
                action.clone()
            } else {
                let mut d = String::new();
                d.append("+");
                let rest = join_from(chords, pending.len() + 1);
                d.append(rest.as_str());
                proof {
                    reveal_strlit("+");
                }
                d
            };
            assert(row_of(b[i as int], p.len()) == (key@, desc@));
            rows.push(WhichKeyEntry { key, desc });
            assert(entry_views(rows@) =~= rv.push(row_of(b[i as int], p.len())));
            i += 1;
        }
        assert(b.take(b.len() as int) == b);
        rows
    }
}

#[verifier::external_type_specification]
#[verifier::external_body]
pub struct ExInstant(Instant);

/// `Instant::now`. Nothing is claimed of the reading.
#[verifier::external_body]
fn instant_now() -> Instant {
    Instant::now()
}

/// Where the reading `i` falls on its clock, in nanoseconds on the clock's
/// own scale. An `Instant` is a reading of a monotonically nondecreasing
/// clock, and the time elapsed from one reading to another is the distance
/// between them (see [`nanos_since`]).
pub uninterp spec fn clock_nanos(i: Instant) -> int;

/// The time elapsed from `earlier` to `later`, in nanoseconds: none when
/// `earlier` is the later of the two.
pub open spec fn elapsed(later: Instant, earlier: Instant) -> nat {
    if clock_nanos(later) >= clock_nanos(earlier) {
        (clock_nanos(later) - clock_nanos(earlier)) as nat
    } else {
        0
    }
}

/// `later.duration_since(earlier)` in nanoseconds: the amount of time
/// elapsed from `earlier` to `later`, or zero when `earlier` is the later
/// reading (the std documentation's words), which is [`elapsed`].
#[verifier::external_body]
pub(crate) fn nanos_since(later: &Instant, earlier: &Instant) -> (r: u128)
    ensures
        r == if clock_nanos(*later) >= clock_nanos(*earlier) {
            clock_nanos(*later) - clock_nanos(*earlier)
        } else {
            0
        },
        r == elapsed(*later, *earlier),
{
    later.duration_since(*earlier).as_nanos()
}

/// Whether a half-typed sequence that has waited `waited_nanos` has waited
/// [`CHORD_TIMEOUT_MS`] or longer.
pub fn chord_timed_out(waited_nanos: u128) -> (r: bool)
    ensures
        r == (waited_nanos >= CHORD_TIMEOUT_MS * 1_000_000),
{
    waited_nanos >= (CHORD_TIMEOUT_MS as u128) * 1_000_000
}

/// The half-typed sequence, and when it was last added to.
#[derive(Debug, Clone)]
pub struct ChordState {
    pending: Vec<String>,
    last: Option<Instant>,
}

impl Default for ChordState {
    fn default() -> (r: Self)
        ensures
            r@ == (Seq::<Seq<char>>::empty(), false),
            r.since() is None,
    {
        let r = ChordState { pending: Vec::new(), last: None };
        assert(strs(r.pending@) =~= Seq::<Seq<char>>::empty());
        r
    }
}

impl ChordState {
    /// The reading taken when the last chord arrived, if one is pending.
    pub closed spec fn since(&self) -> Option<Instant> {
        self.last
    }
}

/// Whether a sequence whose last chord arrived at `since` has, by `now`,
/// waited the whole [`CHORD_TIMEOUT_MS`]; an idle one never has.
pub open spec fn timed_out(since: Option<Instant>, now: Instant) -> bool {
    match since {
        Some(at) => elapsed(now, at) >= CHORD_TIMEOUT_MS * 1_000_000,
        None => false,
    }
}

/// The half-typed sequence `chord`, whose last chord arrived at `since`, as
/// it stands at `now`: dropped once it has timed out, as it was otherwise.
pub open spec fn chord_at(chord: (Seq<Seq<char>>, bool), since: Option<Instant>, now: Instant) -> (
    Seq<Seq<char>>,
    bool,
) {
    if timed_out(since, now) {
        (Seq::empty(), false)
    } else {
        chord
    }
}

/// A push restarts the timeout: after [`ChordState::push_at`] at the reading
/// `t0`, which is then the reading held, the sequence has not timed out at
/// `t0` itself, and [`ChordState::expire`] drops it exactly once the whole
/// [`CHORD_TIMEOUT_MS`] has passed since `t0`, whatever was held before.
pub proof fn law_a_push_restarts_the_timeout(t0: Instant, now: Instant)
    ensures
        !timed_out(Some(t0), t0),
        timed_out(Some(t0), now) == (elapsed(now, t0) >= CHORD_TIMEOUT_MS * 1_000_000),
{
}

impl View for ChordState {
    /// The chords typed so far, and whether a time was taken when the last
    /// one arrived.
    type V = (Seq<Seq<char>>, bool);

    closed spec fn view(&self) -> (Seq<Seq<char>>, bool) {
        (strs(self.pending@), self.last is Some)
    }
}

impl ChordState {
    /// The first row whose key is `(mods, key)`, by the row's key spec.
    pub fn matching_spec(candidates: &[WhichKeyEntry], mods: &ModifiersState, key: &str) -> (r: Option<String>)
        ensures
            picks_first(row_keys(entry_views(candidates@)), *mods, key@, opt_text(r)),
    {
        let ghost keys = row_keys(entry_views(candidates@));
        let mut i: usize = 0;
        while i < candidates.len()
            invariant
                i <= candidates.len() == keys.len(),
                keys == row_keys(entry_views(candidates@)),
                forall|j: int| 0 <= j < i ==> !bind_matches(#[trigger] keys[j], *mods, key@),
            decreases candidates.len() - i,
        {
            assert(keys[i as int] == candidates@[i as int].key@);
            if keybind_matches(candidates[i].key.as_str(), mods, key) {
                return Some(candidates[i].key.clone());
            }
            i += 1;
        }
        None
    }

    /// The chords typed so far.
    pub fn pending(&self) -> (r: &[String])
        ensures
            strs(r@) == self@.0,
    {
        self.pending.as_slice()
    }

    /// Whether a sequence is half-typed.
    pub fn is_active(&self) -> (r: bool)
        ensures
            r == (self@.0.len() > 0),
    {
        self.pending.len() > 0
    }

    /// Record that `chord` continued the sequence at the reading `now`: the
    /// timeout starts over from `now`, whatever reading was held before.
    pub fn push_at(&mut self, chord: String, now: Instant)
        ensures
            final(self)@ == (old(self)@.0.push(chord@), true),
            final(self).since() == Some(now),
    {
        let ghost before = strs(self.pending@);
        self.pending.push(chord);
        self.last = Some(now);
        assert(strs(self.pending@) =~= before.push(chord@));
    }

    /// Record that `chord` continued the sequence, and when: the clock is
    /// read now and the timeout starts over from that reading (see
    /// [`ChordState::push_at`]). Which reading the clock gives is its own.
    pub fn push(&mut self, chord: String)
        ensures
            final(self)@ == (old(self)@.0.push(chord@), true),
            final(self).since() is Some,
    {
        let now = instant_now();
        self.push_at(chord, now);
    }

    /// Forget the sequence.
    pub fn clear(&mut self)
        ensures
            final(self)@ == (Seq::<Seq<char>>::empty(), false),
            final(self).since() is None,
    {
        self.pending.truncate(0);
        self.last = None;
        assert(strs(self.pending@) =~= Seq::<Seq<char>>::empty());
    }

    /// Drop the sequence if it has waited [`CHORD_TIMEOUT_MS`] or longer since
    /// its last chord, reporting whether it did. An idle state has nothing to
    /// drop; whether a pending one has waited long enough is read off the
    /// clock (see [`timed_out`]).
    pub fn expire(&mut self, now: Instant) -> (r: bool)
        ensures
            r == timed_out(old(self).since(), now),
            final(self)@ == chord_at(old(self)@, old(self).since(), now),
            final(self).since() == if r {
                None
            } else {
                old(self).since()
            },
    {
        match self.last {
            Some(at) => {
                if chord_timed_out(nanos_since(&now, &at)) {
                    self.clear();
                    true
                } else {
                    false
                }
            },
            None => false,
        }
    }
}

/// The overlay to draw for a half-typed sequence: titled with the chords
/// typed so far, listing what may follow; `None` when nothing is pending or
/// nothing follows.
pub fn whichkey_view(keymap: &Keymap, chord: &ChordState) -> (r: Option<WhichKeyView>)
    ensures
        match r {
            Some(v) => chord@.0.len() > 0 && continuation_rows(keymap@, chord@.0).len() > 0
                && entry_views(v.rows@) == continuation_rows(keymap@, chord@.0) && v.title@
                == join_words(chord@.0),
            None => chord@.0.len() == 0 || continuation_rows(keymap@, chord@.0).len() == 0,
        },
{
    if !chord.is_active() {
        return None;
    }
    let rows = keymap.continuations(chord.pending());
    if rows.len() == 0 {
        return None;
    }
    let typed = chord.pending();
    let mut title = String::new();
    let mut i: usize = 0;
    assert(strs(typed@).take(0) == Seq::<Seq<char>>::empty());
    while i < typed.len()
        invariant
            i <= typed.len(),
            title@ == join_words(strs(typed@).take(i as int)),
        decreases typed.len() - i,
    {
        assert(strs(typed@).take(i + 1).drop_last() == strs(typed@).take(i as int));
        if i > 0 {
            title.append(" ");
        }
        title.append(typed[i].as_str());
        i += 1;
    }
    assert(strs(typed@).take(typed@.len() as int) == strs(typed@));
    Some(WhichKeyView { title, rows })
}

} // verus!
