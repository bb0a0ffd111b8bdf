//! What the backends decide without a display: when a frame may be drawn,
//! how long the event loop may sleep, and what an output is called.
use vstd::prelude::*;

use crate::text::push_char;

verus! {

/// Whether the host has invited a frame.
///
/// The swap is only entered when the host asks for a frame; an invitation is
/// consumed by taking it, and invitations do not accumulate.
#[derive(Debug)]
pub struct RedrawGate {
    pending: bool,
}

impl View for RedrawGate {
    /// Whether an invitation is waiting.
    type V = bool;

    closed spec fn view(&self) -> bool {
        self.pending
    }
}

impl Default for RedrawGate {
    /// Closed: no frame has been invited yet.
    fn default() -> (r: Self)
        ensures
            !r@,
    {
        RedrawGate { pending: false }
    }
}

/// Consuming the invitation flag `pending`: whether a frame may be drawn,
/// and the flag left behind.
pub open spec fn after_take(pending: bool) -> (bool, bool) {
    (pending, false)
}

impl RedrawGate {
    /// The host asked for a frame.
    pub fn request(&mut self)
        ensures
            final(self)@,
    {
        self.pending = true;
    }

    /// Consume an invitation. False means "do not render this pass".
    pub fn take(&mut self) -> (r: bool)
        ensures
            (r, final(self)@) == after_take(old(self)@),
    {
        let r = self.pending;
        self.pending = false;
        r
    }
}

/// An invitation is consumed by taking it, and invitations do not
/// accumulate: after any number of requests one take answers yes and the
/// next answers no; a gate never invited answers no.
pub proof fn law_invitations_do_not_accumulate(before: bool)
    ensures
        after_take(true).0,
        !after_take(after_take(true).1).0,
        !before ==> !after_take(before).0,
{
}

/// Nanoseconds in a millisecond.
pub const NANOS_PER_MS: u64 = 1_000_000;

/// How often a running language server's channel is looked at, in
/// milliseconds.
pub const LSP_TICK_MS: u64 = 16;

/// How often a half-typed chord is checked for expiry, in milliseconds.
pub const CHORD_TICK_MS: u64 = 250;

/// What the event loop still has to wake up for on a clock.
#[derive(Debug, Clone, Copy, PartialEq, Eq)]
pub struct Servicing {
    /// A language server is running; its messages have no fd to wake on.
    pub lsp: bool,
    /// A chord prefix is half-typed and has to time out on its own.
    pub chord: bool,
    /// Nanoseconds until the earliest deferred action, if any.
    pub next_deferred: Option<u64>,
}

impl Default for Servicing {
    fn default() -> (r: Self)
        ensures
            !r.lsp && !r.chord && r.next_deferred is None,
    {
        Servicing { lsp: false, chord: false, next_deferred: None }
    }
}

/// The earlier of two optional deadlines.
pub open spec fn earlier(a: Option<u64>, b: Option<u64>) -> Option<u64> {
    match (a, b) {
        (Some(x), Some(y)) => Some(if x <= y { x } else { y }),
        (Some(x), None) => Some(x),
        (None, y) => y,
    }
}

/// The soonest thing on a clock: the LSP tick while a server runs, the
/// chord tick while a chord is pending, and the next deferred action.
pub open spec fn timeout_of(s: Servicing) -> Option<u64> {
    let lsp = if s.lsp { Some((LSP_TICK_MS * NANOS_PER_MS) as u64) } else { None };
    let chord = if s.chord { Some((CHORD_TICK_MS * NANOS_PER_MS) as u64) } else { None };
    earlier(earlier(lsp, chord), s.next_deferred)
}

fn earliest(a: Option<u64>, b: Option<u64>) -> (r: Option<u64>)
    ensures
        r == earlier(a, b),
{
    match (a, b) {
        (Some(x), Some(y)) => Some(if x <= y { x } else { y }),
        (Some(x), None) => Some(x),
        (None, y) => y,
    }
}

/// How long, in nanoseconds, the loop may block; `None` means "until
/// something happens".
pub fn poll_timeout(servicing: Servicing) -> (r: Option<u64>)
    ensures
        r == timeout_of(servicing),
{
    let lsp = if servicing.lsp { Some(LSP_TICK_MS * NANOS_PER_MS) } else { None };
    let chord = if servicing.chord { Some(CHORD_TICK_MS * NANOS_PER_MS) } else { None };
    earliest(earliest(lsp, chord), servicing.next_deferred)
}

/// The `wl_output` model string for a connector, e.g. `ruster-drm-eDP-1`.
pub fn output_model(connector: &str) -> (r: String)
    ensures
        r@ == "ruster-drm-"@ + connector@,
{
    let mut s = String::new();
    s.append("ruster-drm-");
    s.append(connector);
    s
}

/// Which of a connector's modes to drive it at, given which of them it
/// marks preferred: the first preferred one, else the first; `None` for a
/// connector with no modes.
pub fn pick_mode(preferred: &[bool]) -> (r: Option<usize>)
    ensures
        r is None <==> preferred@.len() == 0,
        r matches Some(i) ==> i < preferred@.len() && if exists|j: int|
            0 <= j < preferred@.len() && #[trigger] preferred@[j] {
            preferred@[i as int] && forall|j: int| 0 <= j < i ==> !#[trigger] preferred@[j]
        } else {
            i == 0
        },
{
    let mut i: usize = 0;
    while i < preferred.len()
        invariant
            i <= preferred@.len(),
            forall|j: int| 0 <= j < i ==> !#[trigger] preferred@[j],
        decreases preferred.len() - i,
    {
        if preferred[i] {
            return Some(i);
        }
        i += 1;
    }
    if preferred.len() == 0 {
        None
    } else {
        Some(0)
    }
}

} // verus!
