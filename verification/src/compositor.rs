//! Compositor-wide decisions that need no display: what a shutdown signal
//! means, and which language a file is written in.
use vstd::prelude::*;

use crate::persist::WindowId;
use crate::text::{eq_lit, to_chars};

verus! {

/// Message printed when DRM hardware access fails, pointing the user at a
/// seat manager.
pub fn drm_error_hint() -> (r: &'static str)
    ensures
        r@ == "DRM access failed. Run the session under logind (normal) or start seatd, or use the winit backend for development."@,
{
    "DRM access failed. Run the session under logind (normal) or start seatd, or use the winit backend for development."
}

/// The two things a shutdown signal can mean.
#[derive(Debug, Clone, Copy, PartialEq, Eq, Structural)]
pub enum SignalAction {
    /// Set the flag and let the loop wind down, writing the session on the
    /// way out.
    AskToStop,
    /// Leave now. The loop is not listening.
    ForceExit,
}

/// What a shutdown signal should do: the first asks the loop to stop, and
/// any later one forces the exit the first asked for.
pub fn signal_action(already_asked: bool) -> (r: SignalAction)
    ensures
        r == (if already_asked { SignalAction::ForceExit } else { SignalAction::AskToStop }),
{
    if already_asked {
        SignalAction::ForceExit
    } else {
        SignalAction::AskToStop
    }
}

/// What `std::path::Path::extension` gives for a path: the part of its file
/// name after the last `.`, when there is one and it does not only start the
/// name.
pub uninterp spec fn path_extension(path: Seq<char>) -> Option<Seq<char>>;

/// `Path::new(path).extension()`, as text. The result is `path_extension`
/// of the path; nothing else is claimed of it.
#[verifier::external_body]
fn extension_of(path: &str) -> (r: Option<String>)
    ensures
        match r {
            Some(e) => path_extension(path@) == Some(e@),
            None => path_extension(path@) is None,
        },
{
    match std::path::Path::new(path).extension() {
        Some(ext) => ext.to_str().map(|s| s.to_owned()),
        None => None,
    }
}

/// The language a language server is started for, by file extension.
pub open spec fn language_for(ext: Seq<char>) -> Option<Seq<char>> {
    if ext == "rs"@ {
        Some("rust"@)
    } else if ext == "py"@ {
        Some("python"@)
    } else if ext == "ts"@ || ext == "tsx"@ {
        Some("typescript"@)
    } else if ext == "js"@ || ext == "jsx"@ {
        Some("javascript"@)
    } else if ext == "go"@ {
        Some("go"@)
    } else if ext == "c"@ || ext == "h"@ {
        Some("c"@)
    } else if ext == "cpp"@ || ext == "hpp"@ || ext == "cc"@ {
        Some("cpp"@)
    } else if ext == "lua"@ {
        Some("lua"@)
    } else {
        None
    }
}

fn language_by_extension(e: &Vec<char>) -> (r: Option<&'static str>)
    ensures
        match r {
            Some(l) => language_for(e@) == Some(l@),
            None => language_for(e@) is None,
        },
{
    if eq_lit(e, "rs") {
        Some("rust")
    } else if eq_lit(e, "py") {
        Some("python")
    } else if eq_lit(e, "ts") || eq_lit(e, "tsx") {
        Some("typescript")
    } else if eq_lit(e, "js") || eq_lit(e, "jsx") {
        Some("javascript")
    } else if eq_lit(e, "go") {
        Some("go")
    } else if eq_lit(e, "c") || eq_lit(e, "h") {
        Some("c")
    } else if eq_lit(e, "cpp") || eq_lit(e, "hpp") || eq_lit(e, "cc") {
        Some("cpp")
    } else if eq_lit(e, "lua") {
        Some("lua")
    } else {
        None
    }
}

/// The language id for a path, or `None` when nothing here speaks it.
pub fn language_of(path: &str) -> (r: Option<&'static str>)
    ensures
        match r {
            Some(l) => exists|e: Seq<char>|
                path_extension(path@) == Some(e) && language_for(e) == Some(l@),
            None => match path_extension(path@) {
                Some(e) => language_for(e) is None,
                None => true,
            },
        },
{
    match extension_of(path) {
        Some(ext) => {
            let e = to_chars(ext.as_str());
            language_by_extension(&e)
        },
        None => None,
    }
}

/// The window that should take keyboard focus after `unmapped` hid itself:
/// the most recently mapped window still there (the highest id among the
/// others), or `None` when nothing else is mapped.
pub fn next_focus_after_unmap(mapped: &[WindowId], unmapped: WindowId) -> (r: Option<WindowId>)
    ensures
        match r {
            Some(w) => w != unmapped && mapped@.contains(w) && forall|i: int|
                0 <= i < mapped@.len() && #[trigger] mapped@[i] != unmapped ==> mapped@[i].0 <= w.0,
            None => forall|i: int| 0 <= i < mapped@.len() ==> #[trigger] mapped@[i] == unmapped,
        },
{
    let mut best: Option<WindowId> = None;
    let mut i: usize = 0;
    while i < mapped.len()
        invariant
            i <= mapped.len(),
            match best {
                Some(w) => w != unmapped && mapped@.contains(w) && forall|j: int|
                    0 <= j < i && #[trigger] mapped@[j] != unmapped ==> mapped@[j].0 <= w.0,
                None => forall|j: int| 0 <= j < i ==> #[trigger] mapped@[j] == unmapped,
            },
        decreases mapped.len() - i,
    {
        let id = mapped[i];
        if id.0 != unmapped.0 {
            match best {
                Some(w) => {
                    if id.0 > w.0 {
                        best = Some(id);
                    }
                },
                None => {
                    best = Some(id);
                },
            }
        }
        i += 1;
    }
    best
}

/// Where the keyboard goes when the focused window `unmapped` hides
/// itself: where the tree would put focus on the active workspace
/// (`from_tree`), unless that is the window going away, else the most
/// recently mapped window still shown (see [`next_focus_after_unmap`]).
/// Going through the tree first matters beside an editor pane, which is
/// never in the mapped set.
pub fn focus_after_unmap(from_tree: Option<WindowId>, shown_mapped: &[WindowId], unmapped: WindowId) -> (r:
    Option<WindowId>)
    ensures
        r != Some(unmapped),
        (from_tree matches Some(t) && t != unmapped) ==> r == from_tree,
        !(from_tree matches Some(t) && t != unmapped) ==> match r {
            Some(w) => shown_mapped@.contains(w) && forall|i: int|
                0 <= i < shown_mapped@.len() && #[trigger] shown_mapped@[i] != unmapped
                    ==> shown_mapped@[i].0 <= w.0,
            None => forall|i: int| 0 <= i < shown_mapped@.len() ==> #[trigger] shown_mapped@[i] == unmapped,
        },
{
    match from_tree {
        Some(t) => if t.0 != unmapped.0 {
            return Some(t);
        },
        None => {},
    }
    next_focus_after_unmap(shown_mapped, unmapped)
}

/// Whether `windows` holds `window`.
pub fn holds(windows: &[WindowId], window: WindowId) -> (r: bool)
    ensures
        r == windows@.contains(window),
{
    let mut i: usize = 0;
    while i < windows.len()
        invariant
            i <= windows.len(),
            forall|j: int| 0 <= j < i ==> #[trigger] windows@[j] != window,
        decreases windows.len() - i,
    {
        if windows[i].0 == window.0 {
            assert(windows@[i as int] == window);
            return true;
        }
        i += 1;
    }
    false
}

/// Whether `window` can hold the keyboard: it has something on screen (a
/// client that has committed a buffer, in `mapped`, or an editor pane, in
/// `panes`, which has no buffer to wait for) and it is on the workspace
/// being shown (in `visible`).
pub open spec fn can_focus(
    window: WindowId,
    mapped: Seq<WindowId>,
    panes: Seq<WindowId>,
    visible: Seq<WindowId>,
) -> bool {
    (mapped.contains(window) || panes.contains(window)) && visible.contains(window)
}

/// Whether `window` can hold the keyboard (see [`can_focus`]).
pub fn focusable(window: WindowId, mapped: &[WindowId], panes: &[WindowId], visible: &[WindowId]) -> (r:
    bool)
    ensures
        r == can_focus(window, mapped@, panes@, visible@),
{
    (holds(mapped, window) || holds(panes, window)) && holds(visible, window)
}

/// The window the keyboard goes to: the one just placed (`pending`) if it
/// can hold it, else the shell's focus if that can, else none. A window
/// that has never drawn, or is on a workspace nobody is looking at, never
/// gets a keystroke.
pub fn keyboard_focus(
    pending: Option<WindowId>,
    focus: Option<WindowId>,
    mapped: &[WindowId],
    panes: &[WindowId],
    visible: &[WindowId],
) -> (r: Option<WindowId>)
    ensures
        r == match pending {
            Some(p) if can_focus(p, mapped@, panes@, visible@) => Some(p),
            _ => match focus {
                Some(f) if can_focus(f, mapped@, panes@, visible@) => Some(f),
                _ => None,
            },
        },
        r matches Some(w) ==> can_focus(w, mapped@, panes@, visible@),
{
    if let Some(p) = pending {
        if focusable(p, mapped, panes, visible) {
            return Some(p);
        }
    }
    if let Some(f) = focus {
        if focusable(f, mapped, panes, visible) {
            return Some(f);
        }
    }
    None
}

/// Which workspace has to be on screen before `window` can take focus, or
/// `None` when an activation request naming it should be dropped. `holder`
/// is the workspace the trees hold it on, if they hold it at all; `mapped`
/// are the windows that have a buffer to show.
///
/// A window with no buffer yet has nothing to show and cannot hold the
/// keyboard, and one the trees do not hold is already gone: honouring either
/// would switch the user to a workspace to look at nothing.
pub fn activation_workspace(mapped: &[WindowId], window: WindowId, holder: Option<u32>) -> (r:
    Option<u32>)
    ensures
        r == if mapped@.contains(window) {
            holder
        } else {
            None
        },
{
    if holds(mapped, window) {
        holder
    } else {
        None
    }
}

} // verus!
