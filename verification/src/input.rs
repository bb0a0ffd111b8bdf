//! Where a key goes.
//!
//! Every key the seat delivers is routed in one fixed order: the VT switch
//! first (the escape hatch no config can take away), then an open prompt,
//! which takes every key, then releases, which follow whatever their press
//! did. A press is then resolved against the keymap, with the quit hatch
//! checked against a fresh key, and what the keymap does not claim goes to a
//! focused editor pane or, failing that, to the focused client.
use vstd::prelude::*;

use std::collections::HashSet;
use std::time::Instant;

use crate::action::{Action, ActionView};
use crate::bind::ModifiersState;
use crate::keymap::{
    chord_at, continuation_rows, entry_views, opt_text, picks_first, resolves_to, row_keys, strs,
    timed_out, ChordState,
    Keymap, Resolved, ResolvedView,
};

verus! {

broadcast use vstd::std_specs::hash::group_hash_axioms;

/// `XF86Switch_VT_1`, the keysym xkb makes of Ctrl+Alt+F1.
pub const SWITCH_VT_FIRST: u32 = 0x1008FE01;

/// `XF86Switch_VT_12`, the keysym xkb makes of Ctrl+Alt+F12.
pub const SWITCH_VT_LAST: u32 = 0x1008FE0C;

/// The keysym `q`.
pub const KEYSYM_Q: u32 = 0x0071;

/// The VT a keysym asks for: 1 to 12 for `XF86Switch_VT_1` to `_12`.
pub open spec fn vt_of(keysym: u32) -> Option<i32> {
    if SWITCH_VT_FIRST <= keysym <= SWITCH_VT_LAST {
        Some((keysym - SWITCH_VT_FIRST + 1) as i32)
    } else {
        None
    }
}

/// The VT `Ctrl+Alt+F<n>` asks for, or `None` for any other key.
///
/// Must be given the modified keysym: xkb produces `XF86Switch_VT_n` only
/// once Ctrl+Alt are applied, and the raw keysym stays `F<n>`.
pub fn vt_switch_target(keysym: u32) -> (r: Option<i32>)
    ensures
        r == vt_of(keysym),
{
    if SWITCH_VT_FIRST <= keysym && keysym <= SWITCH_VT_LAST {
        Some((keysym - SWITCH_VT_FIRST + 1) as i32)
    } else {
        None
    }
}

/// The quit escape hatch: Super+Shift+q.
pub open spec fn quit_chord(keysym: u32, mods: ModifiersState) -> bool {
    keysym == KEYSYM_Q && mods.logo && mods.shift
}

/// Whether `(keysym, mods)` is the quit hatch, Super+Shift+q, which works
/// whatever the config binds.
pub fn is_quit_keysym(keysym: u32, mods: &ModifiersState) -> (r: bool)
    ensures
        r == quit_chord(keysym, *mods),
{
    keysym == KEYSYM_Q && mods.logo && mods.shift
}

/// A key going down or coming up, as the seat reported it.
#[derive(Debug, Clone)]
pub struct KeyInput {
    pub keycode: u32,
    pub pressed: bool,
    /// The keysym without modifiers applied, by which bindings are matched.
    pub raw: u32,
    /// The keysym with modifiers applied, by which VT switches are seen.
    pub modified: u32,
    /// The name of the raw keysym (`q`, `F9`, `space`).
    pub name: String,
    pub mods: ModifiersState,
}

/// Where a key went.
#[derive(Debug, Clone, PartialEq)]
pub enum KeyRoute {
    /// Switch to this virtual terminal.
    SwitchVt(i32),
    /// The open prompt or launcher takes it.
    Overlay,
    /// Run this action.
    Dispatch(Action),
    /// The key continued a sequence; wait for the next.
    Pending,
    /// The key continued nothing, so the half-typed sequence is dropped and
    /// the key with it.
    Abandon,
    /// The focused editor pane takes it.
    Pane,
    /// The focused client gets it.
    Forward,
    /// A release whose press was kept from the client.
    Swallow,
}

/// The view of a route.
pub enum RouteView {
    SwitchVt(i32),
    Overlay,
    Dispatch(ActionView),
    Pending,
    Abandon,
    Pane,
    Forward,
    Swallow,
}

impl View for KeyRoute {
    type V = RouteView;

    open spec fn view(&self) -> RouteView {
        match self {
            KeyRoute::SwitchVt(v) => RouteView::SwitchVt(*v),
            KeyRoute::Overlay => RouteView::Overlay,
            KeyRoute::Dispatch(a) => RouteView::Dispatch(a@),
            KeyRoute::Pending => RouteView::Pending,
            KeyRoute::Abandon => RouteView::Abandon,
            KeyRoute::Pane => RouteView::Pane,
            KeyRoute::Forward => RouteView::Forward,
            KeyRoute::Swallow => RouteView::Swallow,
        }
    }
}

/// Where a key goes before the keymap is asked, if it goes anywhere: a VT
/// switch on a press, the open prompt, and a release, which is swallowed
/// exactly when its press was.
pub open spec fn early_route(
    pressed: bool,
    keycode: u32,
    modified: u32,
    prompt_open: bool,
    held: Set<u32>,
) -> Option<RouteView> {
    if pressed && vt_of(modified) is Some {
        Some(RouteView::SwitchVt(vt_of(modified)->0))
    } else if prompt_open {
        Some(RouteView::Overlay)
    } else if !pressed {
        if held.contains(keycode) {
            Some(RouteView::Swallow)
        } else {
            Some(RouteView::Forward)
        }
    } else {
        None
    }
}

/// Where a press goes once the keymap has resolved it to `rv`, given
/// whether a sequence was half-typed, whether it is the quit hatch, and
/// whether an editor pane has focus. A fresh Super+Shift+q quits whatever
/// the keymap says of it; mid-sequence it is an ordinary key.
pub open spec fn press_route(rv: ResolvedView, active: bool, quit: bool, pane: bool) -> RouteView {
    if !active && quit {
        RouteView::Dispatch(ActionView::Quit)
    } else {
        match rv {
            ResolvedView::Action(a) => RouteView::Dispatch(a),
            ResolvedView::Pending => RouteView::Pending,
            ResolvedView::Unbound => if active {
                RouteView::Abandon
            } else if pane {
                RouteView::Pane
            } else {
                RouteView::Forward
            },
        }
    }
}

/// The half-typed sequence after a press the keymap resolved to `rv`,
/// where `m` is the first overlay row the press matched: a completed
/// binding clears it, a continuing key joins it, and an unbound key drops
/// it when something was pending and leaves it alone otherwise.
pub open spec fn chord_after(
    rv: ResolvedView,
    old: (Seq<Seq<char>>, bool),
    m: Option<Seq<char>>,
) -> (Seq<Seq<char>>, bool) {
    match rv {
        ResolvedView::Action(_) => (Seq::empty(), false),
        ResolvedView::Pending => match m {
            Some(s) => (old.0.push(s), true),
            None => old,
        },
        ResolvedView::Unbound => if old.0.len() > 0 {
            (Seq::empty(), false)
        } else {
            old
        },
    }
}

/// The half-typed sequence after a press: untouched by the quit hatch (a
/// fresh Super+Shift+q, with nothing pending), otherwise as
/// [`chord_after`] says.
pub open spec fn press_chord(
    rv: ResolvedView,
    old: (Seq<Seq<char>>, bool),
    m: Option<Seq<char>>,
    quit: bool,
) -> (Seq<Seq<char>>, bool) {
    if old.0.len() == 0 && quit {
        old
    } else {
        chord_after(rv, old, m)
    }
}

/// The key-routing state: the half-typed sequence, and the keys whose
/// presses were kept from the client, so their releases are kept too.
#[derive(Debug)]
pub struct KeyRouter {
    chord: ChordState,
    intercepted: HashSet<u32>,
}

impl KeyRouter {
    /// The half-typed sequence.
    pub closed spec fn chord(&self) -> (Seq<Seq<char>>, bool) {
        self.chord@
    }

    /// The keys held down whose presses were kept from the client.
    pub closed spec fn held(&self) -> Set<u32> {
        self.intercepted@
    }

    /// The reading taken when the half-typed sequence's last chord arrived.
    pub closed spec fn chord_since(&self) -> Option<Instant> {
        self.chord.since()
    }

    /// Nothing typed, nothing held.
    pub fn new() -> (r: Self)
        ensures
            r.chord() == (Seq::<Seq<char>>::empty(), false),
            r.chord_since() is None,
            r.held() == Set::<u32>::empty(),
    {
        let chord = ChordState::default();
        KeyRouter { chord, intercepted: HashSet::new() }
    }

    /// The half-typed sequence, for the overlay.
    pub fn chord_state(&self) -> (r: &ChordState)
        ensures
            r@ == self.chord(),
    {
        &self.chord
    }

    /// Where a key goes before the keymap is asked (see [`early_route`]).
    pub fn early(&mut self, key: &KeyInput, prompt_open: bool) -> (r: Option<KeyRoute>)
        ensures
            opt_route(r) == early_route(
                key.pressed,
                key.keycode,
                key.modified,
                prompt_open,
                old(self).held(),
            ),
            final(self).chord() == old(self).chord(),
            final(self).chord_since() == old(self).chord_since(),
            final(self).held() == match early_route(
                key.pressed,
                key.keycode,
                key.modified,
                prompt_open,
                old(self).held(),
            ) {
                Some(RouteView::Overlay) => old(self).held().insert(key.keycode),
                Some(RouteView::Swallow) => old(self).held().remove(key.keycode),
                _ => old(self).held(),
            },
    {
        if key.pressed {
            if let Some(vt) = vt_switch_target(key.modified) {
                return Some(KeyRoute::SwitchVt(vt));
            }
        }
        if prompt_open {
            self.intercepted.insert(key.keycode);
            return Some(KeyRoute::Overlay);
        }
        if !key.pressed {
            if self.intercepted.remove(&key.keycode) {
                return Some(KeyRoute::Swallow);
            }
            return Some(KeyRoute::Forward);
        }
        None
    }

    /// Where a press goes once nothing before the keymap has taken it: the
    /// keymap's answer for it after the half-typed sequence (see
    /// [`press_route`]). A completed binding or an abandoned sequence clears
    /// the sequence; a key that continues one is added to it, as the spec of
    /// the first overlay row it matches; everything but a forwarded key is
    /// kept from the client.
    pub fn resolve_press(&mut self, keymap: &Keymap, key: &KeyInput, pane_focused: bool) -> (r: KeyRoute)
        ensures
            exists|rv: ResolvedView, m: Option<Seq<char>>|
                {
                    &&& #[trigger] resolves_to(keymap@, old(self).chord().0, key.mods, key.name@, rv)
                    &&& #[trigger] picks_first(
                        row_keys(continuation_rows(keymap@, old(self).chord().0)),
                        key.mods,
                        key.name@,
                        m,
                    )
                    &&& r@ == press_route(
                        rv,
                        old(self).chord().0.len() > 0,
                        quit_chord(key.raw, key.mods),
                        pane_focused,
                    )
                    &&& final(self).chord() == press_chord(
                        rv,
                        old(self).chord(),
                        m,
                        quit_chord(key.raw, key.mods),
                    )
                },
            final(self).held() == if r@ is Forward {
                old(self).held()
            } else {
                old(self).held().insert(key.keycode)
            },
    {
        let name = key.name.as_str();
        let candidates = keymap.continuations(self.chord.pending());
        let outcome = keymap.resolve(self.chord.pending(), &key.mods, name);
        let active = self.chord.is_active();
        let m = ChordState::matching_spec(&candidates, &key.mods, name);
        let ghost mv = opt_text(m);
        let ghost rv = outcome@;
        assert(resolves_to(keymap@, self.chord().0, key.mods, key.name@, rv));
        assert(row_keys(entry_views(candidates@)) == row_keys(
            continuation_rows(keymap@, self.chord().0),
        ));
        assert(picks_first(
            row_keys(continuation_rows(keymap@, self.chord().0)),
            key.mods,
            key.name@,
            mv,
        ));
        if !active && is_quit_keysym(key.raw, &key.mods) {
            self.intercepted.insert(key.keycode);
            return KeyRoute::Dispatch(Action::Quit);
        }
        match outcome {
            Resolved::Unbound => {
                if active {
                    self.chord.clear();
                    self.intercepted.insert(key.keycode);
                    return KeyRoute::Abandon;
                }
                if pane_focused {
                    self.intercepted.insert(key.keycode);
                    return KeyRoute::Pane;
                }
                KeyRoute::Forward
            },
            Resolved::Action(action) => {
                self.chord.clear();
                self.intercepted.insert(key.keycode);
                KeyRoute::Dispatch(action)
            },
            Resolved::Pending => {
                match m {
                    Some(spec) => {
                        self.chord.push(spec);
                    },
                    None => {},
                }
                self.intercepted.insert(key.keycode);
                KeyRoute::Pending
            },
        }
    }

    /// Route a key: the early routes first; then, for a press, a half-typed
    /// sequence that has waited too long (by the clock at `now`) is dropped,
    /// and the press is resolved against the keymap (see
    /// [`KeyRouter::resolve_press`]).
    pub fn route(
        &mut self,
        keymap: &Keymap,
        key: &KeyInput,
        prompt_open: bool,
        pane_focused: bool,
        now: Instant,
    ) -> (r: KeyRoute)
        ensures
            early_route(key.pressed, key.keycode, key.modified, prompt_open, old(self).held())
                is Some ==> Some(r@) == early_route(
                key.pressed,
                key.keycode,
                key.modified,
                prompt_open,
                old(self).held(),
            ),
            early_route(key.pressed, key.keycode, key.modified, prompt_open, old(self).held())
                is None ==> ({
                let mid = chord_at(old(self).chord(), old(self).chord_since(), now);
                exists|rv: ResolvedView, m: Option<Seq<char>>|
                    {
                        &&& #[trigger] resolves_to(keymap@, mid.0, key.mods, key.name@, rv)
                        &&& #[trigger] picks_first(
                            row_keys(continuation_rows(keymap@, mid.0)),
                            key.mods,
                            key.name@,
                            m,
                        )
                        &&& r@ == press_route(
                            rv,
                            mid.0.len() > 0,
                            quit_chord(key.raw, key.mods),
                            pane_focused,
                        )
                        &&& final(self).chord() == press_chord(rv, mid, m, quit_chord(key.raw, key.mods))
                    }
            }),
            early_route(key.pressed, key.keycode, key.modified, prompt_open, old(self).held())
                is Some ==> final(self).chord() == old(self).chord(),
            final(self).held() == match early_route(
                key.pressed,
                key.keycode,
                key.modified,
                prompt_open,
                old(self).held(),
            ) {
                Some(RouteView::Overlay) => old(self).held().insert(key.keycode),
                Some(RouteView::Swallow) => old(self).held().remove(key.keycode),
                Some(_) => old(self).held(),
                None => if r@ is Forward {
                    old(self).held()
                } else {
                    old(self).held().insert(key.keycode)
                },
            },
    {
        if let Some(early) = self.early(key, prompt_open) {
            return early;
        }
        let _ = self.chord.expire(now);
        let ghost mid = self.chord();
        assert(mid == chord_at(old(self).chord(), old(self).chord_since(), now));
        let r = self.resolve_press(keymap, key, pane_focused);
        proof {
            let (rv, m) = choose|rv: ResolvedView, m: Option<Seq<char>>|
                {
                    &&& #[trigger] resolves_to(keymap@, mid.0, key.mods, key.name@, rv)
                    &&& #[trigger] picks_first(
                        row_keys(continuation_rows(keymap@, mid.0)),
                        key.mods,
                        key.name@,
                        m,
                    )
                    &&& r@ == press_route(rv, mid.0.len() > 0, quit_chord(key.raw, key.mods), pane_focused)
                    &&& self.chord() == press_chord(rv, mid, m, quit_chord(key.raw, key.mods))
                };
            assert(resolves_to(keymap@, mid.0, key.mods, key.name@, rv));
        }
        r
    }
}

/// The view of an optional route.
pub open spec fn opt_route(r: Option<KeyRoute>) -> Option<RouteView> {
    match r {
        Some(k) => Some(k@),
        None => None,
    }
}

/// VT switching is never configurable and comes before everything: a
/// Ctrl+Alt+F<n> press asks for the terminal whatever prompt is open and
/// whatever is held.
pub proof fn law_a_vt_switch_comes_first(keycode: u32, modified: u32, prompt_open: bool, held: Set<u32>)
    requires
        vt_of(modified) is Some,
    ensures
        early_route(true, keycode, modified, prompt_open, held) == Some(
            RouteView::SwitchVt(vt_of(modified)->0),
        ),
{
}

/// An open prompt takes every key that is not a VT switch, press or
/// release, before the keymap and before the quit hatch.
pub proof fn law_an_open_prompt_takes_every_key(
    pressed: bool,
    keycode: u32,
    modified: u32,
    held: Set<u32>,
)
    requires
        !(pressed && vt_of(modified) is Some),
    ensures
        early_route(pressed, keycode, modified, true, held) == Some(RouteView::Overlay),
{
}

/// A release follows its press: swallowed when the press was kept from the
/// client, and forwarded when it was not.
pub proof fn law_a_release_follows_its_press(keycode: u32, modified: u32, held: Set<u32>)
    ensures
        early_route(false, keycode, modified, false, held.insert(keycode)) == Some(RouteView::Swallow),
        early_route(false, keycode, modified, false, held.remove(keycode)) == Some(RouteView::Forward),
{
}

/// The quit hatch cannot be configured away: a fresh Super+Shift+q quits
/// whatever the keymap binds to the chord or leaves unbound, even with an
/// editor pane focused, and leaves the (empty) sequence as it was; in the
/// middle of a half-typed sequence it is an ordinary key and is never
/// hijacked.
pub proof fn law_the_quit_hatch_cannot_be_configured_away(
    pane: bool,
    rv: ResolvedView,
    m: Option<Seq<char>>,
    pending: Seq<Seq<char>>,
    marked: bool,
)
    ensures
        press_route(rv, false, true, pane) == RouteView::Dispatch(ActionView::Quit),
        press_chord(rv, (Seq::empty(), marked), m, true) == (Seq::<Seq<char>>::empty(), marked),
        pending.len() > 0 ==> press_chord(rv, (pending, marked), m, true) == chord_after(
            rv,
            (pending, marked),
            m,
        ),
        press_route(rv, true, true, pane) == press_route(rv, true, false, pane),
{
}

/// An abandoned prefix stops eating keys: once the half-typed sequence has
/// waited the whole timeout since its last chord, a press is resolved as a
/// fresh key, so it is never swallowed as the end of a mistyped sequence.
pub proof fn law_an_abandoned_prefix_stops_eating_keys(
    chord: (Seq<Seq<char>>, bool),
    since: Option<Instant>,
    now: Instant,
    rv: ResolvedView,
    quit: bool,
    pane: bool,
)
    requires
        timed_out(since, now),
    ensures
        chord_at(chord, since, now) == (Seq::<Seq<char>>::empty(), false),
        press_route(rv, chord_at(chord, since, now).0.len() > 0, quit, pane) != RouteView::Abandon,
{
}

/// What the keymap does not claim goes to a focused pane, and otherwise to
/// the client, unless it breaks off a half-typed sequence.
pub proof fn law_unclaimed_keys_go_to_the_pane_or_the_client(quit: bool, pane: bool)
    requires
        !quit,
    ensures
        press_route(ResolvedView::Unbound, false, quit, pane) == if pane {
            RouteView::Pane
        } else {
            RouteView::Forward
        },
{
}

} // verus!
