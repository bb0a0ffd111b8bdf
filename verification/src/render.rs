//! The order a frame is emitted in, band by band, and how tall the
//! statusline is.
//!
//! Kept as data rather than as the statement order of the renderer, where
//! nothing could assert it and getting it wrong was silent: a bar emitted
//! after the chrome still maps, configures and renders, and is simply never
//! seen.
use vstd::prelude::*;

use crate::persist::WindowId;

verus! {

/// The statusline's height for an output `output_height` pixels tall: a
/// fortieth of it (rounded toward zero), held to the 24..=64 band.
pub open spec fn chrome_height_of(output_height: i32) -> int {
    let q = output_height as int / 40;
    if q < 24 {
        24
    } else if q > 64 {
        64
    } else {
        q
    }
}

/// Height of the chrome (statusline) bar, derived from the output height.
pub fn chrome_height(output_height: i32) -> (h: i32)
    ensures
        output_height >= 0 ==> h == chrome_height_of(output_height),
        output_height < 0 ==> h == 24,
        24 <= h <= 64,
{
    let q = output_height / 40;
    if q < 24 {
        24
    } else if q > 64 {
        64
    } else {
        q
    }
}

/// A `wlr-layer-shell` layer.
#[derive(Debug, Clone, Copy, PartialEq, Eq, Structural)]
pub enum LayerKind {
    Background,
    Bottom,
    Top,
    Overlay,
}

/// One band of the frame.
#[derive(Debug, Clone, Copy, PartialEq, Eq, Structural)]
pub enum Stage {
    /// The pointer, in front of everything including chrome.
    Cursor,
    /// One `wlr-layer-shell` layer.
    Layer(LayerKind),
    /// Everything the compositor draws itself: statusline, borders, panes,
    /// which-key, the launcher.
    Chrome,
    /// X11 menus, tooltips and drag icons.
    X11Unmanaged,
    /// Tiled toplevels and their popups.
    Windows,
}

/// Every band of a frame, front to back: the pointer; the overlay and top
/// layers, which a client asked for and so win over the compositor's own
/// statusline; the chrome; X11 menus, in front of the windows that opened
/// them; the windows; and behind them the bottom and background layers,
/// where a wallpaper lives.
pub open spec fn stage_order() -> Seq<Stage> {
    seq![
        Stage::Cursor,
        Stage::Layer(LayerKind::Overlay),
        Stage::Layer(LayerKind::Top),
        Stage::Chrome,
        Stage::X11Unmanaged,
        Stage::Windows,
        Stage::Layer(LayerKind::Bottom),
        Stage::Layer(LayerKind::Background),
    ]
}

/// Every band of a frame, front to back (see [`stage_order`]).
pub fn front_to_back() -> (r: Vec<Stage>)
    ensures
        r@ == stage_order(),
{
    let r = vec![
        Stage::Cursor,
        Stage::Layer(LayerKind::Overlay),
        Stage::Layer(LayerKind::Top),
        Stage::Chrome,
        Stage::X11Unmanaged,
        Stage::Windows,
        Stage::Layer(LayerKind::Bottom),
        Stage::Layer(LayerKind::Background),
    ];
    assert(r@ =~= stage_order());
    r
}

/// Where `stage` sits in the frame, counted from the front.
pub open spec fn depth_of(stage: Stage) -> nat {
    match stage {
        Stage::Cursor => 0,
        Stage::Layer(LayerKind::Overlay) => 1,
        Stage::Layer(LayerKind::Top) => 2,
        Stage::Chrome => 3,
        Stage::X11Unmanaged => 4,
        Stage::Windows => 5,
        Stage::Layer(LayerKind::Bottom) => 6,
        Stage::Layer(LayerKind::Background) => 7,
    }
}

/// Where `stage` is emitted, counted from the front.
pub fn depth(stage: Stage) -> (r: usize)
    ensures
        r == depth_of(stage),
        stage_order()[r as int] == stage,
{
    match stage {
        Stage::Cursor => 0,
        Stage::Layer(LayerKind::Overlay) => 1,
        Stage::Layer(LayerKind::Top) => 2,
        Stage::Chrome => 3,
        Stage::X11Unmanaged => 4,
        Stage::Windows => 5,
        Stage::Layer(LayerKind::Bottom) => 6,
        Stage::Layer(LayerKind::Background) => 7,
    }
}

/// Every band is emitted exactly once: each stage is at its depth and
/// nowhere else, so no layer the compositor advertises is ignored and none
/// is drawn over itself.
pub proof fn law_every_stage_is_emitted_exactly_once(stage: Stage, i: int)
    requires
        0 <= i < stage_order().len(),
    ensures
        depth_of(stage) < stage_order().len(),
        stage_order()[depth_of(stage) as int] == stage,
        stage_order()[i] == stage ==> i == depth_of(stage),
{
}

/// The promises the order keeps: the pointer is in front of everything; a
/// client's bar beats the statusline it overlaps and a lock screen beats a
/// bar; an X11 menu is in front of the windows and behind the chrome; and
/// the wallpaper layers stay behind the windows, the background backmost.
pub proof fn law_the_frame_is_layered_as_promised()
    ensures
        forall|s: Stage| s != Stage::Cursor ==> depth_of(Stage::Cursor) < #[trigger] depth_of(s),
        depth_of(Stage::Layer(LayerKind::Top)) < depth_of(Stage::Chrome),
        depth_of(Stage::Layer(LayerKind::Overlay)) < depth_of(Stage::Layer(LayerKind::Top)),
        depth_of(Stage::Chrome) < depth_of(Stage::X11Unmanaged) < depth_of(Stage::Windows),
        depth_of(Stage::Windows) < depth_of(Stage::Layer(LayerKind::Bottom)) < depth_of(
            Stage::Layer(LayerKind::Background),
        ),
        forall|s: Stage| #[trigger] depth_of(s) <= depth_of(Stage::Layer(LayerKind::Background)),
{
}

/// One piece of the compositor's own drawing.
#[derive(Debug, Clone, Copy, PartialEq, Eq, Structural)]
pub enum Piece {
    /// The borders round the tiled windows.
    Borders,
    Statusline,
    /// The `:` prompt, or the message it shows.
    Minibuffer,
    /// The which-key panel for a half-typed sequence.
    WhichKey,
    /// The editor pane in this window.
    Pane(WindowId),
    Launcher,
    /// The hover panel beside a pane's caret.
    Hover,
}

/// An editor pane on screen: its window, the first buffer line it shows and
/// how many lines it shows.
#[derive(Debug, Clone, Copy, PartialEq, Eq, Structural)]
pub struct PaneShown {
    pub window: WindowId,
    pub first_line: usize,
    pub shown: usize,
}

/// Whether line `row` of a buffer is on screen in `p`.
pub open spec fn row_shown(p: PaneShown, row: usize) -> bool {
    p.first_line <= row && row < p.first_line + p.shown
}

/// Whether the hover panel asked for at line `row` of the pane in `window`
/// has its line on screen in one of `panes`.
pub open spec fn hover_in_view(panes: Seq<PaneShown>, window: WindowId, row: usize) -> bool {
    exists|i: int| 0 <= i < panes.len() && #[trigger] panes[i].window == window && row_shown(panes[i], row)
}

/// The pieces of the panes, in order.
pub open spec fn pane_pieces(panes: Seq<PaneShown>) -> Seq<Piece> {
    panes.map_values(|p: PaneShown| Piece::Pane(p.window))
}

/// What a frame draws of its own, and in what order: the base (borders,
/// statusline, the prompt when open, the which-key panel when a sequence is
/// half-typed, then the panes on screen in layout order) and the overlay
/// drawn over everything (the launcher when open, then the hover panel, but
/// only while the line it describes is on screen). An empty overlay is no
/// overlay.
pub fn scene_plan(
    minibuffer: bool,
    whichkey: bool,
    panes: &[PaneShown],
    hover: Option<(WindowId, usize)>,
    launcher: bool,
) -> (r: (Vec<Piece>, Vec<Piece>))
    ensures
        r.0@ == seq![Piece::Borders, Piece::Statusline] + (if minibuffer {
            seq![Piece::Minibuffer]
        } else {
            Seq::empty()
        }) + (if whichkey {
            seq![Piece::WhichKey]
        } else {
            Seq::empty()
        }) + pane_pieces(panes@),
        r.1@ == (if launcher {
            seq![Piece::Launcher]
        } else {
            Seq::empty()
        }) + (if hover matches Some((w, row)) && hover_in_view(panes@, w, row) {
            seq![Piece::Hover]
        } else {
            Seq::empty()
        }),
{
    let mut base: Vec<Piece> = Vec::new();
    base.push(Piece::Borders);
    base.push(Piece::Statusline);
    if minibuffer {
        base.push(Piece::Minibuffer);
    }
    if whichkey {
        base.push(Piece::WhichKey);
    }
    let ghost head = base@;
    let mut hover_shown = false;
    let mut i: usize = 0;
    while i < panes.len()
        invariant
            i <= panes@.len(),
            base@ == head + pane_pieces(panes@.take(i as int)),
            hover_shown == (hover matches Some((w, row)) && exists|k: int|
                0 <= k < i && #[trigger] panes@[k].window == w && row_shown(panes@[k], row)),
        decreases panes.len() - i,
    {
        let p = panes[i];
        base.push(Piece::Pane(p.window));
        assert(pane_pieces(panes@.take(i + 1)) =~= pane_pieces(panes@.take(i as int)).push(
            Piece::Pane(p.window),
        ));
        match hover {
            Some((w, row)) => {
                if p.window.0 == w.0 && p.first_line <= row && row - p.first_line < p.shown {
                    hover_shown = true;
                }
            },
            None => {},
        }
        i += 1;
    }
    assert(panes@.take(panes@.len() as int) == panes@);
    let mut overlay: Vec<Piece> = Vec::new();
    if launcher {
        overlay.push(Piece::Launcher);
    }
    if hover_shown {
        overlay.push(Piece::Hover);
    }
    proof {
        assert(head == seq![Piece::Borders, Piece::Statusline] + (if minibuffer {
            seq![Piece::Minibuffer]
        } else {
            Seq::empty()
        }) + (if whichkey {
            seq![Piece::WhichKey]
        } else {
            Seq::empty()
        }));
    }
    (base, overlay)
}

} // verus!
