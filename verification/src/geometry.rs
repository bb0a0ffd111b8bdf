//! Where windows are on the output, in logical pixels: the area they tile
//! into, where a surface is drawn for the tile its window fills, and which
//! window a point is over.
use vstd::prelude::*;

use crate::persist::WindowId;

verus! {

/// A rectangle: its top-left corner and its size.
#[derive(Debug, Clone, Copy, PartialEq, Eq, Structural)]
pub struct Rect {
    pub x: i32,
    pub y: i32,
    pub w: i32,
    pub h: i32,
}

/// Whether `(px, py)` lies in `r`: its left and top edges are in it, its
/// right and bottom edges are not, so two rectangles that touch never both
/// hold a point.
pub open spec fn holds(r: Rect, px: int, py: int) -> bool {
    r.x <= px < r.x + r.w && r.y <= py < r.y + r.h
}

impl Rect {
    pub fn new(x: i32, y: i32, w: i32, h: i32) -> (r: Rect)
        ensures
            r == (Rect { x, y, w, h }),
    {
        Rect { x, y, w, h }
    }

    /// Whether `(px, py)` lies in this rectangle (see [`holds`]).
    pub fn contains(&self, px: i32, py: i32) -> (r: bool)
        ensures
            r == holds(*self, px as int, py as int),
    {
        let (x, y, w, h) = (self.x as i64, self.y as i64, self.w as i64, self.h as i64);
        x <= px as i64 && (px as i64) < x + w && y <= py as i64 && (py as i64) < y + h
    }
}

/// The area windows are tiled into: the zone the bars leave, unless that zone
/// is empty, in which case the whole output — a bar claiming the whole
/// screen must not leave every window laid out at zero size.
pub fn tiling_area(output_w: i32, output_h: i32, zone: Rect) -> (r: Rect)
    ensures
        r == if zone.w <= 0 || zone.h <= 0 {
            Rect { x: 0, y: 0, w: output_w, h: output_h }
        } else {
            zone
        },
{
    if zone.w <= 0 || zone.h <= 0 {
        return Rect::new(0, 0, output_w, output_h);
    }
    zone
}

/// Where a toplevel's surface goes, given the tile its window has to fill:
/// the tile's corner moved back by where the window sits inside its surface
/// (a client-drawn shadow, say), or the tile's corner itself when the client
/// set no window geometry.
pub fn surface_origin(tile_x: i32, tile_y: i32, geometry: Option<Rect>) -> (r: (i32, i32))
    requires
        geometry matches Some(g) ==> i32::MIN <= tile_x - g.x <= i32::MAX && i32::MIN <= tile_y - g.y
            <= i32::MAX,
    ensures
        r == match geometry {
            Some(g) => ((tile_x - g.x) as i32, (tile_y - g.y) as i32),
            None => (tile_x, tile_y),
        },
{
    match geometry {
        Some(g) => (tile_x - g.x, tile_y - g.y),
        None => (tile_x, tile_y),
    }
}

/// The window whose tile holds `(px, py)`, and that tile's corner, read
/// from the front: `geometry` is ordered bottom to top, so a floating window
/// owns the part of the tiling it covers.
pub fn tile_under(geometry: &[(WindowId, Rect)], px: i32, py: i32) -> (r: Option<(WindowId, (i32, i32))>)
    ensures
        match r {
            Some((id, origin)) => exists|i: int|
                0 <= i < geometry@.len() && holds(geometry@[i].1, px as int, py as int) && (forall|j: int|
                    i < j < geometry@.len() ==> !holds(#[trigger] geometry@[j].1, px as int, py as int))
                    && id == geometry@[i].0 && origin == (geometry@[i].1.x, geometry@[i].1.y),
            None => forall|j: int|
                0 <= j < geometry@.len() ==> !holds(#[trigger] geometry@[j].1, px as int, py as int),
        },
{
    let mut i: usize = geometry.len();
    while i > 0
        invariant
            i <= geometry.len(),
            forall|j: int|
                i <= j < geometry@.len() ==> !holds(#[trigger] geometry@[j].1, px as int, py as int),
        decreases i,
    {
        let (id, r) = geometry[i - 1];
        if r.contains(px, py) {
            return Some((id, (r.x, r.y)));
        }
        i -= 1;
    }
    None
}

} // verus!
