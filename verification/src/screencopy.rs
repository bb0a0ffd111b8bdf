//! Screen capture for clients: when a capture has waited too long, and what
//! a buffer row is.
use vstd::prelude::*;

use std::time::Instant;

use crate::keymap::{clock_nanos, elapsed, nanos_since};

verus! {

/// How long a capture may wait for a rendered frame before it is failed, in
/// milliseconds.
pub const CAPTURE_TIMEOUT_MS: u64 = 2000;

/// Whether a capture that has waited `waited_nanos` has waited the whole
/// [`CAPTURE_TIMEOUT_MS`].
pub fn capture_waited_too_long(waited_nanos: u128) -> (r: bool)
    ensures
        r == (waited_nanos >= CAPTURE_TIMEOUT_MS * 1_000_000),
{
    waited_nanos >= (CAPTURE_TIMEOUT_MS as u128) * 1_000_000
}

/// Whether a capture asked for at `asked` has waited long enough, by `now`,
/// to be failed. How long it waited is read off the two clock readings (see
/// [`capture_waited_too_long`] for the rule).
pub fn overdue(asked: Instant, now: Instant) -> (r: bool)
    ensures
        r == (elapsed(now, asked) >= CAPTURE_TIMEOUT_MS * 1_000_000),
{
    capture_waited_too_long(nanos_since(&now, &asked))
}

/// A capture that is overdue stays overdue as the clock moves on, and one
/// checked at or before the reading it was asked at (a clock read out of
/// order) has not waited at all.
pub proof fn law_a_capture_once_overdue_stays_overdue(asked: Instant, now: Instant, later: Instant)
    ensures
        clock_nanos(now) <= clock_nanos(later) && elapsed(now, asked) >= CAPTURE_TIMEOUT_MS
            * 1_000_000 ==> elapsed(later, asked) >= CAPTURE_TIMEOUT_MS * 1_000_000,
        clock_nanos(now) <= clock_nanos(asked) ==> elapsed(now, asked) == 0,
{
}

/// [`CAPTURE_TIMEOUT_MS`] in nanoseconds.
pub open spec fn timeout_nanos() -> nat {
    CAPTURE_TIMEOUT_MS as nat * 1_000_000
}

/// What is left of the timeout after waiting `waited` nanoseconds: nothing
/// once it has all gone.
pub open spec fn time_left(waited: nat) -> nat {
    if waited >= timeout_nanos() {
        0
    } else {
        (timeout_nanos() - waited) as nat
    }
}

/// The longest of `waits`, or nothing for none.
pub open spec fn longest(waits: Seq<u128>) -> nat
    decreases waits.len(),
{
    if waits.len() == 0 {
        0
    } else if longest(waits.drop_last()) >= waits.last() {
        longest(waits.drop_last())
    } else {
        waits.last() as nat
    }
}

/// How long until the oldest of the captures waiting must be given up on, in
/// nanoseconds, given how long each has waited; `None` when none is waiting.
///
/// The event loop blocks until something happens, so a deadline that
/// nothing wakes it for never arrives: the loop sleeps no longer than this.
pub fn next_deadline(waited: &[u128]) -> (r: Option<u128>)
    ensures
        r == if waited@.len() == 0 {
            None
        } else {
            Some(time_left(longest(waited@)) as u128)
        },
{
    if waited.len() == 0 {
        return None;
    }
    let mut most: u128 = 0;
    let mut i: usize = 0;
    while i < waited.len()
        invariant
            i <= waited.len(),
            most == longest(waited@.take(i as int)),
        decreases waited.len() - i,
    {
        assert(waited@.take(i + 1).drop_last() == waited@.take(i as int));
        if waited[i] > most {
            most = waited[i];
        }
        i += 1;
    }
    assert(waited@.take(waited.len() as int) == waited@);
    Some(remaining(most))
}

/// What is left of the timeout after waiting `waited` nanoseconds.
pub fn remaining(waited: u128) -> (r: u128)
    ensures
        r == time_left(waited as nat),
{
    let timeout = (CAPTURE_TIMEOUT_MS as u128) * 1_000_000;
    if waited >= timeout {
        0
    } else {
        timeout - waited
    }
}

/// The sooner of two deadlines, either of which may be absent.
pub open spec fn sooner(a: Option<u128>, b: Option<u128>) -> Option<u128> {
    match (a, b) {
        (Some(x), Some(y)) => Some(if x <= y { x } else { y }),
        (Some(x), None) => Some(x),
        (None, y) => y,
    }
}

/// How long the event loop may sleep before a capture of either kind must
/// be given up on: a screenshot the keybind asked for that has waited
/// `screenshot` nanoseconds, and client captures that have waited `captures`.
/// Both time out after [`CAPTURE_TIMEOUT_MS`].
pub fn next_capture_deadline(screenshot: Option<u128>, captures: &[u128]) -> (r: Option<u128>)
    ensures
        r == sooner(
            match screenshot {
                Some(w) => Some(time_left(w as nat) as u128),
                None => None,
            },
            if captures@.len() == 0 {
                None
            } else {
                Some(time_left(longest(captures@)) as u128)
            },
        ),
{
    let shot = match screenshot {
        Some(w) => Some(remaining(w)),
        None => None,
    };
    let copy = next_deadline(captures);
    match (shot, copy) {
        (Some(x), Some(y)) => Some(if x <= y { x } else { y }),
        (Some(x), None) => Some(x),
        (None, y) => y,
    }
}

/// The captures among `pending` (each with how long it has waited) that
/// have waited the whole timeout, in order.
pub open spec fn overdue_of<T>(pending: Seq<(T, u128)>) -> Seq<T>
    decreases pending.len(),
{
    if pending.len() == 0 {
        Seq::empty()
    } else if pending.last().1 >= timeout_nanos() {
        overdue_of(pending.drop_last()).push(pending.last().0)
    } else {
        overdue_of(pending.drop_last())
    }
}

/// The captures among `pending` still within the timeout, in order.
pub open spec fn waiting_of<T>(pending: Seq<(T, u128)>) -> Seq<T>
    decreases pending.len(),
{
    if pending.len() == 0 {
        Seq::empty()
    } else if pending.last().1 >= timeout_nanos() {
        waiting_of(pending.drop_last())
    } else {
        waiting_of(pending.drop_last()).push(pending.last().0)
    }
}

/// No capture is lost or failed twice: each is either failed or kept.
pub proof fn law_every_capture_is_failed_or_kept<T>(pending: Seq<(T, u128)>)
    ensures
        overdue_of(pending).len() + waiting_of(pending).len() == pending.len(),
    decreases pending.len(),
{
    if pending.len() > 0 {
        law_every_capture_is_failed_or_kept(pending.drop_last());
    }
}

/// Split the captures waiting for a frame (each with how long it has
/// waited) into those to fail now, having waited the whole timeout, and
/// those to keep, each in the order they came.
pub fn expire<T>(pending: Vec<(T, u128)>) -> (r: (Vec<T>, Vec<T>))
    ensures
        r.0@ == overdue_of(pending@),
        r.1@ == waiting_of(pending@),
{
    let ghost all = pending@;
    let mut rest = pending;
    let mut dead: Vec<T> = Vec::new();
    let mut alive: Vec<T> = Vec::new();
    let timeout = (CAPTURE_TIMEOUT_MS as u128) * 1_000_000;
    let mut i: usize = 0;
    let n = rest.len();
    while rest.len() > 0
        invariant
            i + rest@.len() == n == all.len(),
            rest@ == all.skip(i as int),
            timeout == timeout_nanos(),
            dead@ == overdue_of(all.take(i as int)),
            alive@ == waiting_of(all.take(i as int)),
        decreases rest.len(),
    {
        let (item, waited) = rest.remove(0);
        assert(all.take(i + 1).drop_last() == all.take(i as int));
        assert(all.take(i + 1).last() == all[i as int]);
        if waited >= timeout {
            dead.push(item);
        } else {
            alive.push(item);
        }
        i += 1;
    }
    assert(all.take(n as int) == all);
    (dead, alive)
}

/// The one pixel format captures are offered in: `XBGR8888` (wl_shm code
/// 0x34324258), which is red, green, blue, padding in memory on a
/// little-endian machine.
pub const CAPTURE_FORMAT: u32 = 0x34324258;

/// What a frame resource was asked to capture: an output this many physical
/// pixels wide and high.
#[derive(Debug, Clone, Copy, PartialEq, Eq, Structural)]
pub struct FrameData {
    pub width: i32,
    pub height: i32,
}

impl FrameData {
    /// Bytes per row, which the client needs to size its buffer: four bytes
    /// a pixel, no padding.
    pub fn stride(&self) -> (r: u32)
        requires
            0 <= self.width,
            self.width * 4 <= u32::MAX,
        ensures
            r == self.width * 4,
    {
        (self.width as u32) * 4
    }

    /// Whether a client's buffer is the one this capture offered: the
    /// format, the size, the stride (as the protocol's signed stride), and a
    /// stride's worth of bytes for every row. A buffer sized wrong is refused
    /// when the copy is asked for, with the frame it was asked about.
    pub fn fits(&self, format: u32, width: i32, height: i32, stride: i32, len: usize) -> (r: bool)
        requires
            0 <= self.width,
            self.width * 4 <= u32::MAX,
            self.width * 4 * (if self.height > 0 {
                self.height as int
            } else {
                0
            }) <= usize::MAX,
        ensures
            r == (format == CAPTURE_FORMAT && width == self.width && height == self.height && stride
                == (self.width * 4) as i32 && len >= self.width * 4 * (if self.height > 0 {
                self.height as int
            } else {
                0
            })),
    {
        let row = self.stride();
        let rows: usize = if self.height > 0 {
            self.height as usize
        } else {
            0
        };
        format == CAPTURE_FORMAT && width == self.width && height == self.height && stride == row as i32
            && len >= (row as usize) * rows
    }
}

} // verus!
