//! The bar client: a layer-shell surface anchored to the bottom and both
//! sides that reserves its height as an exclusive zone and fills it.
//!
//! What it proves is the part that is easy to get wrong and invisible when it
//! is: that the compositor tiles windows above the bar rather than under it.
//! The fill is two colours, so a bar drawn at the wrong edge or upside down
//! shows as such: an accent square at the left end, the bar colour after it.
use vstd::prelude::*;

verus! {

/// How tall the bar is, and so how much it takes out of the tiling area.
pub const BAR_HEIGHT: u32 = 28;

/// The bar's state between the compositor's events: the size it was given,
/// whether it has been given one yet, and whether it was closed.
#[derive(Debug, Clone, Copy, PartialEq, Eq, Structural)]
pub struct BarState {
    pub width: u32,
    pub height: u32,
    pub configured: bool,
    pub closed: bool,
}

impl BarState {
    /// Before the first configure: no width yet (the compositor decides it,
    /// since the bar is anchored to both sides), its own height.
    pub fn new() -> (r: Self)
        ensures
            r == (BarState { width: 0, height: BAR_HEIGHT, configured: false, closed: false }),
    {
        BarState { width: 0, height: BAR_HEIGHT, configured: false, closed: false }
    }

    /// The compositor said how big the bar is. It is the only authority on
    /// the width; a zero in either dimension is taken as one, so there is
    /// always a pixel to draw. The bar draws itself after this.
    pub fn configure(&mut self, width: u32, height: u32)
        ensures
            final(self).width == if width == 0 {
                1
            } else {
                width
            },
            final(self).height == if height == 0 {
                1
            } else {
                height
            },
            final(self).configured,
            final(self).closed == old(self).closed,
    {
        self.width = if width == 0 {
            1
        } else {
            width
        };
        self.height = if height == 0 {
            1
        } else {
            height
        };
        self.configured = true;
    }

    /// The compositor closed the bar; the client stops.
    pub fn close(&mut self)
        ensures
            *final(self) == (BarState { closed: true, ..*old(self) }),
    {
        self.closed = true;
    }
}

/// Byte `i` of a `w` by `h` bar in `Argb8888`, which is blue, green, red,
/// alpha in memory: the first `h` pixels of each row (a square) in the
/// accent colour `#cba6f7`, the rest in the bar colour `#45475a`, all opaque.
pub open spec fn bar_byte(w: nat, h: nat, i: nat) -> u8 {
    let x = (i / 4) % w;
    let c = i % 4;
    if c == 3 {
        0xff
    } else if x < h {
        if c == 0 {
            0xf7
        } else if c == 1 {
            0xa6
        } else {
            0xcb
        }
    } else {
        if c == 0 {
            0x5a
        } else if c == 1 {
            0x47
        } else {
            0x45
        }
    }
}

/// The pixels of a `w` by `h` bar, row by row, four bytes each (see
/// [`bar_byte`]).
pub fn paint_bar(w: u32, h: u32) -> (r: Vec<u8>)
    requires
        w >= 1,
        h >= 1,
        w * 4 * h <= u32::MAX,
    ensures
        r@.len() == w * 4 * h,
        forall|i: int| 0 <= i < r@.len() ==> #[trigger] r@[i] == bar_byte(w as nat, h as nat, i as nat),
{
    assert(w * 4 <= w * 4 * h) by (nonlinear_arith)
        requires
            h >= 1,
    ;
    let len = (w * 4 * h) as usize;
    let mut r: Vec<u8> = Vec::with_capacity(len);
    let mut i: usize = 0;
    while i < len
        invariant
            i <= len == w * 4 * h,
            w >= 1,
            r@.len() == i,
            forall|j: int| 0 <= j < i ==> #[trigger] r@[j] == bar_byte(w as nat, h as nat, j as nat),
        decreases len - i,
    {
        let x = (i / 4) % (w as usize);
        let c = i % 4;
        let b: u8 = if c == 3 {
            0xff
        } else if x < h as usize {
            if c == 0 {
                0xf7
            } else if c == 1 {
                0xa6
            } else {
                0xcb
            }
        } else {
            if c == 0 {
                0x5a
            } else if c == 1 {
                0x47
            } else {
                0x45
            }
        };
        r.push(b);
        i += 1;
    }
    r
}

} // verus!
