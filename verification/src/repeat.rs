//! Key repeat for the keys the compositor keeps for itself.
//!
//! A client's toolkit repeats its own keys; the keys the compositor
//! intercepts (an editor pane, the prompt) have no toolkit behind them, so
//! the compositor repeats them, off a timer. One key repeats at a time and it
//! is always the last one pressed: every press supersedes whatever was
//! repeating, and the release of the repeating key stops it. A repeat that
//! outlived its key would type forever.
use vstd::prelude::*;

use crate::bind::ModifiersState;
use crate::overlay::EditorKey;
use crate::persist::WindowId;

verus! {

/// The keysyms libX11 calls modifier keys: Shift through Hyper, the ISO
/// lock and level keys, Mode_switch and Num_Lock.
pub open spec fn modifier_keysym(keysym: u32) -> bool {
    (0xffe1 <= keysym <= 0xffee) || (0xfe01 <= keysym <= 0xfe13) || keysym == 0xff7e || keysym
        == 0xff7f
}

/// Whether holding the key with this keysym should repeat it. Modifiers
/// never do: they are held for as long as what they modify, and a repeating
/// Shift would displace the repeat of the key it was pressed with.
pub fn repeats(keysym: u32) -> (r: bool)
    ensures
        r == !modifier_keysym(keysym),
{
    !((0xffe1 <= keysym && keysym <= 0xffee) || (0xfe01 <= keysym && keysym <= 0xfe13) || keysym
        == 0xff7e || keysym == 0xff7f)
}

/// How long a key is held before it starts repeating, in milliseconds: the
/// configured delay, or none for a negative one.
pub fn repeat_delay_ms(delay: i32) -> (r: u64)
    ensures
        r == if delay < 0 {
            0
        } else {
            delay as u64
        },
{
    if delay < 0 {
        0
    } else {
        delay as u64
    }
}

/// Where a held key's repeats go, and what each one delivers: what its sink
/// was given at press time, so a repeat cannot be read differently from the
/// press that armed it.
#[derive(Debug, Clone, Copy, PartialEq, Eq, Structural)]
pub enum RepeatTarget {
    /// The editor pane in `window`, as the editor key it takes.
    Pane { window: WindowId, key: EditorKey },
    /// Whichever overlay is open (the launcher or the `:` prompt), as the
    /// keysym, typed character and modifiers it reads. The modifiers are
    /// carried because the launcher moves with `C-n` and `C-p`, whose
    /// characters are control codes that type nothing.
    Overlay { raw: u32, typed: Option<char>, mods: ModifiersState },
}

impl RepeatTarget {
    /// Whether holding this key down should repeat it: a pane key always
    /// does (no modifier is an editor key), an overlay key unless it is a
    /// modifier.
    pub fn repeats(&self) -> (r: bool)
        ensures
            r == match *self {
                RepeatTarget::Pane { .. } => true,
                RepeatTarget::Overlay { raw, .. } => !modifier_keysym(raw),
            },
    {
        match self {
            RepeatTarget::Pane { .. } => true,
            RepeatTarget::Overlay { raw, .. } => repeats(*raw),
        }
    }

    /// Whether a repeat aimed here still has somewhere to go: a pane repeat
    /// while that pane exists (`pane_alive`) and holds the focus, an overlay
    /// repeat while an overlay is open. A repeat that outlives its target is
    /// dropped rather than delivered to whatever replaced it.
    pub fn still_aimed(&self, focus: Option<WindowId>, pane_alive: bool, overlay_open: bool) -> (r:
        bool)
        ensures
            r == match *self {
                RepeatTarget::Pane { window, .. } => focus == Some(window) && pane_alive,
                RepeatTarget::Overlay { .. } => overlay_open,
            },
    {
        match self {
            RepeatTarget::Pane { window, .. } => match focus {
                Some(f) => f == *window && pane_alive,
                None => false,
            },
            RepeatTarget::Overlay { .. } => overlay_open,
        }
    }
}

/// The key currently repeating.
#[derive(Debug, Clone)]
pub struct Held<T> {
    /// The keycode whose release stops this.
    pub keycode: u32,
    /// What each repeat delivers.
    pub target: T,
    /// This arming's id: a timer armed for an earlier press finds it changed
    /// and stops.
    pub id: u64,
    /// Nanoseconds between repeats once they start.
    pub interval: u64,
}

/// Which key is repeating, if any, and how many armings there have been.
#[derive(Debug)]
pub struct Repeater<T> {
    current: Option<Held<T>>,
    generation: u64,
}

/// The arming after `generation`.
pub open spec fn next_id(generation: u64) -> u64 {
    if generation == u64::MAX {
        0
    } else {
        (generation + 1) as u64
    }
}

impl<T> Repeater<T> {
    /// The key repeating now.
    pub closed spec fn held(&self) -> Option<Held<T>> {
        self.current
    }

    /// How many armings there have been (wrapping).
    pub closed spec fn armings(&self) -> u64 {
        self.generation
    }

    /// Nothing repeating.
    pub fn new() -> (r: Self)
        ensures
            r.held() is None,
            r.armings() == 0,
    {
        Repeater { current: None, generation: 0 }
    }

    /// A key went down and was taken by the compositor. Whatever was
    /// repeating is superseded; the new key repeats when it `repeats` and
    /// repeat is on (`interval`, the nanoseconds between repeats, is `None`
    /// when the configuration turned repeat off), as a new arming whose id is
    /// returned for the timer to carry.
    pub fn hold(&mut self, keycode: u32, target: T, repeats: bool, interval: Option<u64>) -> (r:
        Option<u64>)
        ensures
            match r {
                Some(id) => repeats && interval is Some && id == next_id(old(self).armings())
                    && final(self).armings() == id && final(self).held() == Some(
                    Held { keycode, target, id, interval: interval->0 },
                ),
                None => !(repeats && interval is Some) && final(self).held() is None
                    && final(self).armings() == old(self).armings(),
            },
    {
        self.current = None;
        if !repeats {
            return None;
        }
        let interval = match interval {
            Some(i) => i,
            None => {
                return None;
            },
        };
        self.generation = self.generation.wrapping_add(1);
        let id = self.generation;
        self.current = Some(Held { keycode, target, id, interval });
        Some(id)
    }

    /// A key went up: if it is the one repeating, it stops.
    pub fn release(&mut self, keycode: u32)
        ensures
            final(self).held() == match old(self).held() {
                Some(h) => if h.keycode == keycode {
                    None
                } else {
                    Some(h)
                },
                None => None,
            },
            final(self).armings() == old(self).armings(),
    {
        let stop = match &self.current {
            Some(h) => h.keycode == keycode,
            None => false,
        };
        if stop {
            self.current = None;
        }
    }

    /// Stop repeating whatever was.
    pub fn cancel(&mut self)
        ensures
            final(self).held() is None,
            final(self).armings() == old(self).armings(),
    {
        self.current = None;
    }

    /// Whether a key is repeating right now.
    pub fn is_repeating(&self) -> (r: bool)
        ensures
            r == self.held() is Some,
    {
        self.current.is_some()
    }

    /// A tick of the timer armed as `id`: what to deliver and when to tick
    /// again, or `None` when a later press has moved the repeat on and this
    /// timer is the tail of a key no longer held.
    pub fn fire(&self, id: u64) -> (r: Option<(&T, u64)>)
        ensures
            match self.held() {
                Some(h) => if h.id == id {
                    r == Some((&h.target, h.interval))
                } else {
                    r is None
                },
                None => r is None,
            },
    {
        match &self.current {
            Some(h) => {
                if h.id == id {
                    Some((&h.target, h.interval))
                } else {
                    None
                }
            },
            None => None,
        }
    }
}

/// A press supersedes whatever was repeating: the arming a press makes never
/// carries the id of the arming before it, so the timer left running for the
/// earlier key finds nothing to deliver (see [`Repeater::fire`]).
pub proof fn law_a_press_supersedes_the_repeat_before_it(generation: u64)
    ensures
        next_id(generation) != generation,
{
}

} // verus!
