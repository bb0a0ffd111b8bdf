//! What a key does once the compositor has taken it: to the open launcher,
//! to the open `:` prompt, or to a focused editor pane.
//!
//! Editing keys are told apart by the raw keysym, and text is read off the
//! character the modified keysym produces, so capitals stay capitals. The
//! character is handed in, as the keyboard layout gave it; a key with none,
//! or whose character is a control code, types nothing.
use vstd::prelude::*;

use crate::bind::ModifiersState;
use crate::launcher::{wrapped, Launcher};
use crate::action::Action;
use crate::hover::HoverPanel;
use crate::minibuffer::MiniBuffer;

verus! {

/// `Tab`.
pub const KEY_TAB: u32 = 0xff09;

/// `ISO_Left_Tab`, what Shift+Tab produces.
pub const KEY_ISO_LEFT_TAB: u32 = 0xfe20;

/// `Return`.
pub const KEY_RETURN: u32 = 0xff0d;

/// `KP_Enter`, the keypad's Enter.
pub const KEY_KP_ENTER: u32 = 0xff8d;

/// `Escape`.
pub const KEY_ESCAPE: u32 = 0xff1b;

/// `BackSpace`.
pub const KEY_BACKSPACE: u32 = 0xff08;

/// `Delete`.
pub const KEY_DELETE: u32 = 0xffff;

/// `Left`.
pub const KEY_LEFT: u32 = 0xff51;

/// `Up`.
pub const KEY_UP: u32 = 0xff52;

/// `Right`.
pub const KEY_RIGHT: u32 = 0xff53;

/// `Down`.
pub const KEY_DOWN: u32 = 0xff54;

/// `n`.
pub const KEY_N: u32 = 0x006e;

/// `p`.
pub const KEY_P: u32 = 0x0070;

/// A control code: the C0 and C1 ranges, `char::is_control`.
pub open spec fn control(c: char) -> bool {
    (c as u32) <= 0x1f || (0x7f <= (c as u32) && (c as u32) <= 0x9f)
}

/// Whether `c` is a control code.
pub fn is_control(c: char) -> (r: bool)
    ensures
        r == control(c),
{
    let n = c as u32;
    n <= 0x1f || (0x7f <= n && n <= 0x9f)
}

/// What a key types into a text field: its character, unless it has none
/// or the character is a control code.
pub open spec fn text_of(c: Option<char>) -> Option<char> {
    match c {
        Some(x) => if control(x) {
            None
        } else {
            Some(x)
        },
        None => None,
    }
}

/// What a key types into a text field (see [`text_of`]).
pub fn typed_text(c: Option<char>) -> (r: Option<char>)
    ensures
        r == text_of(c),
{
    match c {
        Some(x) => if is_control(x) {
            None
        } else {
            Some(x)
        },
        None => None,
    }
}

/// Whether `raw` is one of the two Enter keys.
pub open spec fn enter(raw: u32) -> bool {
    raw == KEY_RETURN || raw == KEY_KP_ENTER
}

/// What the caller has to do about an overlay after a key.
#[derive(Debug, Clone, Copy, PartialEq, Eq, Structural)]
pub enum OverlayStep {
    /// Close it.
    Close,
    /// Carry out what it holds: submit the prompt's line, or run the
    /// launcher's selected row.
    Accept,
    /// What was typed changed; the launcher asks its providers again.
    Edited,
    /// Nothing to act on (the selection may have moved).
    Unchanged,
}

/// What a key typed into the prompt, or `None` for an editing key.
pub open spec fn prompt_text(raw: u32, typed: Option<char>) -> Option<char> {
    if raw == KEY_ESCAPE || enter(raw) || raw == KEY_BACKSPACE {
        None
    } else {
        text_of(typed)
    }
}

/// The prompt's line after a key.
pub open spec fn prompt_input(raw: u32, typed: Option<char>, input: Seq<char>) -> Seq<char> {
    if raw == KEY_BACKSPACE {
        if input.len() > 0 {
            input.drop_last()
        } else {
            input
        }
    } else {
        match prompt_text(raw, typed) {
            Some(c) => input.push(c),
            None => input,
        }
    }
}

/// What a key does to the prompt: Escape closes it, Enter submits it,
/// Backspace closes it once the line is empty (as in vim), and a key that
/// types something edits it.
pub open spec fn prompt_step(raw: u32, typed: Option<char>, input: Seq<char>) -> OverlayStep {
    if raw == KEY_ESCAPE {
        OverlayStep::Close
    } else if enter(raw) {
        OverlayStep::Accept
    } else if raw == KEY_BACKSPACE {
        if prompt_input(raw, typed, input).len() == 0 {
            OverlayStep::Close
        } else {
            OverlayStep::Edited
        }
    } else if prompt_text(raw, typed) is Some {
        OverlayStep::Edited
    } else {
        OverlayStep::Unchanged
    }
}

/// Feed one key to the open prompt: `raw` is its keysym and `typed` the
/// character its modified keysym produces.
pub fn minibuffer_key(mb: &mut MiniBuffer, raw: u32, typed: Option<char>) -> (r: OverlayStep)
    ensures
        r == prompt_step(raw, typed, old(mb).input@),
        final(mb).input@ == prompt_input(raw, typed, old(mb).input@),
        final(mb).prompt == old(mb).prompt,
        final(mb).message == old(mb).message,
{
    if raw == KEY_ESCAPE {
        return OverlayStep::Close;
    }
    if raw == KEY_RETURN || raw == KEY_KP_ENTER {
        return OverlayStep::Accept;
    }
    if raw == KEY_BACKSPACE {
        return if mb.backspace() {
            OverlayStep::Close
        } else {
            OverlayStep::Edited
        };
    }
    match typed_text(typed) {
        Some(c) => {
            mb.push(c);
            OverlayStep::Edited
        },
        None => OverlayStep::Unchanged,
    }
}

/// Backspace takes back a typed character: after a key that types
/// something into the prompt, Backspace leaves the line as it was.
pub proof fn law_backspace_undoes_what_a_key_typed(
    raw: u32,
    typed: Option<char>,
    input: Seq<char>,
    erase: Option<char>,
)
    requires
        prompt_text(raw, typed) is Some,
    ensures
        prompt_input(KEY_BACKSPACE, erase, prompt_input(raw, typed, input)) == input,
{
    assert(input.push(prompt_text(raw, typed)->0).drop_last() =~= input);
}

/// How far a key moves the launcher's selection: down for Down, Tab and
/// `C-n`, up for Up, Shift+Tab and `C-p`.
pub open spec fn launcher_move(raw: u32, mods: ModifiersState) -> Option<i32> {
    if raw == KEY_DOWN || raw == KEY_TAB || (raw == KEY_N && mods.ctrl) {
        Some(1i32)
    } else if raw == KEY_UP || raw == KEY_ISO_LEFT_TAB || (raw == KEY_P && mods.ctrl) {
        Some(-1i32)
    } else {
        None
    }
}

/// What a key types into the launcher's query: nothing for an editing or
/// moving key, nor for a chord with Ctrl, Super or Alt.
pub open spec fn launcher_text(raw: u32, typed: Option<char>, mods: ModifiersState) -> Option<char> {
    if raw == KEY_ESCAPE || enter(raw) || raw == KEY_BACKSPACE || launcher_move(raw, mods) is Some
        || mods.ctrl || mods.logo || mods.alt {
        None
    } else {
        text_of(typed)
    }
}

/// The launcher's query after a key.
pub open spec fn launcher_query(
    raw: u32,
    typed: Option<char>,
    mods: ModifiersState,
    query: Seq<char>,
) -> Seq<char> {
    if raw == KEY_BACKSPACE {
        if query.len() > 0 {
            query.drop_last()
        } else {
            query
        }
    } else {
        match launcher_text(raw, typed, mods) {
            Some(c) => query.push(c),
            None => query,
        }
    }
}

/// What a key does to the launcher: Escape closes it, Enter runs the
/// selected row, Backspace closes it once the query is empty, and a key that
/// types something changes the query.
pub open spec fn launcher_step(
    raw: u32,
    typed: Option<char>,
    mods: ModifiersState,
    query: Seq<char>,
) -> OverlayStep {
    if raw == KEY_ESCAPE {
        OverlayStep::Close
    } else if enter(raw) {
        OverlayStep::Accept
    } else if raw == KEY_BACKSPACE {
        if launcher_query(raw, typed, mods, query).len() == 0 {
            OverlayStep::Close
        } else {
            OverlayStep::Edited
        }
    } else if launcher_text(raw, typed, mods) is Some {
        OverlayStep::Edited
    } else {
        OverlayStep::Unchanged
    }
}

/// Feed one key to the open launcher: `raw` is its keysym, `typed` the
/// character its modified keysym produces, and `mods` the modifiers held.
pub fn launcher_key(l: &mut Launcher, raw: u32, typed: Option<char>, mods: &ModifiersState) -> (r:
    OverlayStep)
    requires
        old(l).wf(),
    ensures
        final(l).wf(),
        r == launcher_step(raw, typed, *mods, old(l).typed()),
        final(l).typed() == launcher_query(raw, typed, *mods, old(l).typed()),
        final(l).selection() == match launcher_move(raw, *mods) {
            Some(d) => if old(l).rows().len() == 0 {
                old(l).selection()
            } else {
                wrapped(old(l).selection(), d as int, old(l).rows().len() as int)
            },
            None => old(l).selection(),
        },
        final(l).rows() == old(l).rows(),
        final(l).scrolled() == old(l).scrolled(),
        final(l).notice() == old(l).notice(),
{
    if raw == KEY_ESCAPE {
        return OverlayStep::Close;
    }
    if raw == KEY_RETURN || raw == KEY_KP_ENTER {
        return OverlayStep::Accept;
    }
    if raw == KEY_BACKSPACE {
        return if l.backspace() {
            OverlayStep::Close
        } else {
            OverlayStep::Edited
        };
    }
    if raw == KEY_DOWN || raw == KEY_TAB || (raw == KEY_N && mods.ctrl) {
        l.move_selection(1);
        return OverlayStep::Unchanged;
    }
    if raw == KEY_UP || raw == KEY_ISO_LEFT_TAB || (raw == KEY_P && mods.ctrl) {
        l.move_selection(-1);
        return OverlayStep::Unchanged;
    }
    if mods.ctrl || mods.logo || mods.alt {
        return OverlayStep::Unchanged;
    }
    match typed_text(typed) {
        Some(c) => {
            l.push(c);
            OverlayStep::Edited
        },
        None => OverlayStep::Unchanged,
    }
}

/// An arrow key.
#[derive(Debug, Clone, Copy, PartialEq, Eq, Structural)]
pub enum Arrow {
    Left,
    Right,
    Up,
    Down,
}

/// A key as an editor pane takes it.
#[derive(Debug, Clone, Copy, PartialEq, Eq, Structural)]
pub enum EditorKey {
    /// A character typed.
    Char(char),
    /// A character with Ctrl held: `Ctrl('d')` scrolls half a page.
    Ctrl(char),
    /// A character with Alt held.
    Alt(char),
    Arrow(Arrow),
    Enter,
    Esc,
    Backspace,
    Delete,
    Tab,
    /// Shift+Tab.
    BackTab,
}

/// The arrow a keysym is, if it is one.
pub open spec fn arrow_of(raw: u32) -> Option<Arrow> {
    if raw == KEY_LEFT {
        Some(Arrow::Left)
    } else if raw == KEY_RIGHT {
        Some(Arrow::Right)
    } else if raw == KEY_UP {
        Some(Arrow::Up)
    } else if raw == KEY_DOWN {
        Some(Arrow::Down)
    } else {
        None
    }
}

/// The editor key a key is: the editing keys by their raw keysym, then a
/// Ctrl or Alt chord as the raw keysym's character (Ctrl first: the control
/// code the chord would otherwise produce is one nobody types), and
/// otherwise the character the modified keysym types, if any.
pub open spec fn editor_key_of(
    raw: u32,
    raw_char: Option<char>,
    typed: Option<char>,
    mods: ModifiersState,
) -> Option<EditorKey> {
    if arrow_of(raw) is Some {
        Some(EditorKey::Arrow(arrow_of(raw)->0))
    } else if raw == KEY_ESCAPE {
        Some(EditorKey::Esc)
    } else if enter(raw) {
        Some(EditorKey::Enter)
    } else if raw == KEY_BACKSPACE {
        Some(EditorKey::Backspace)
    } else if raw == KEY_DELETE {
        Some(EditorKey::Delete)
    } else if raw == KEY_TAB {
        if mods.shift {
            Some(EditorKey::BackTab)
        } else {
            Some(EditorKey::Tab)
        }
    } else if raw == KEY_ISO_LEFT_TAB {
        Some(EditorKey::BackTab)
    } else if mods.ctrl {
        match raw_char {
            Some(c) => Some(EditorKey::Ctrl(c)),
            None => None,
        }
    } else if mods.alt {
        match raw_char {
            Some(c) => Some(EditorKey::Alt(c)),
            None => None,
        }
    } else {
        match text_of(typed) {
            Some(c) => Some(EditorKey::Char(c)),
            None => None,
        }
    }
}

/// The keysym of each arrow key.
pub open spec fn arrow_keysym(a: Arrow) -> u32 {
    match a {
        Arrow::Left => KEY_LEFT,
        Arrow::Right => KEY_RIGHT,
        Arrow::Up => KEY_UP,
        Arrow::Down => KEY_DOWN,
    }
}

/// Each arrow keysym is its own arrow and no other key is one: a key is
/// the arrow `a` exactly when it is `a`'s keysym, and an editor pane takes
/// it as that arrow whatever characters and modifiers come with it.
pub proof fn law_each_arrow_key_is_its_own_arrow(
    raw: u32,
    a: Arrow,
    raw_char: Option<char>,
    typed: Option<char>,
    mods: ModifiersState,
)
    ensures
        arrow_of(raw) == Some(a) <==> raw == arrow_keysym(a),
        editor_key_of(raw, raw_char, typed, mods) == Some(EditorKey::Arrow(a)) <==> raw
            == arrow_keysym(a),
{
}

/// The key an editor pane takes for a key: `raw` is its keysym, `raw_char`
/// the character that keysym produces and `typed` the character the
/// modified keysym produces. `None` for a key that means nothing to an
/// editor, such as a modifier on its own.
pub fn editor_key(raw: u32, raw_char: Option<char>, typed: Option<char>, mods: &ModifiersState) -> (r:
    Option<EditorKey>)
    ensures
        r == editor_key_of(raw, raw_char, typed, *mods),
{
    if raw == KEY_LEFT {
        return Some(EditorKey::Arrow(Arrow::Left));
    }
    if raw == KEY_RIGHT {
        return Some(EditorKey::Arrow(Arrow::Right));
    }
    if raw == KEY_UP {
        return Some(EditorKey::Arrow(Arrow::Up));
    }
    if raw == KEY_DOWN {
        return Some(EditorKey::Arrow(Arrow::Down));
    }
    if raw == KEY_ESCAPE {
        return Some(EditorKey::Esc);
    }
    if raw == KEY_RETURN || raw == KEY_KP_ENTER {
        return Some(EditorKey::Enter);
    }
    if raw == KEY_BACKSPACE {
        return Some(EditorKey::Backspace);
    }
    if raw == KEY_DELETE {
        return Some(EditorKey::Delete);
    }
    if raw == KEY_TAB {
        return Some(
            if mods.shift {
                EditorKey::BackTab
            } else {
                EditorKey::Tab
            },
        );
    }
    if raw == KEY_ISO_LEFT_TAB {
        return Some(EditorKey::BackTab);
    }
    if mods.ctrl {
        return match raw_char {
            Some(c) => Some(EditorKey::Ctrl(c)),
            None => None,
        };
    }
    if mods.alt {
        return match raw_char {
            Some(c) => Some(EditorKey::Alt(c)),
            None => None,
        };
    }
    match typed_text(typed) {
        Some(c) => Some(EditorKey::Char(c)),
        None => None,
    }
}

/// What the compositor's actions open, toggle and stop without a display:
/// the launcher, the `:` prompt, a hover panel, whether the shortcut helper
/// is pinned open, and whether the event loop keeps running.
#[derive(Debug)]
pub struct Controls {
    pub launcher: Option<Launcher>,
    pub minibuffer: Option<MiniBuffer>,
    pub hover: Option<HoverPanel>,
    pub help_pinned: bool,
    pub running: bool,
}

impl Controls {
    /// Running, with nothing open and the helper unpinned.
    pub fn new() -> (r: Self)
        ensures
            r.launcher is None,
            r.minibuffer is None,
            r.hover is None,
            !r.help_pinned,
            r.running,
    {
        Controls { launcher: None, minibuffer: None, hover: None, help_pinned: false, running: true }
    }

    /// Open the launcher, empty. It owns the screen while it is up, so the
    /// prompt and any hover panel close: drawn beside it they would read as
    /// part of it. The caller then asks the providers about the empty query.
    pub fn open_launcher(&mut self)
        ensures
            final(self).launcher matches Some(l) && l.wf() && l.typed().len() == 0 && l.rows().len()
                == 0 && l.selection() == 0 && l.scrolled() == 0 && l.notice().len() == 0,
            final(self).minibuffer is None,
            final(self).hover is None,
            final(self).help_pinned == old(self).help_pinned,
            final(self).running == old(self).running,
    {
        self.minibuffer = None;
        self.hover = None;
        self.launcher = Some(Launcher::new());
    }

    /// Carry out the part of `action` that is this state's, reporting whether
    /// there was one: quitting stops the loop, the helper toggles, and a
    /// prompt opens fresh, without the message the last one left. Every other
    /// action leaves this state alone.
    pub fn apply(&mut self, action: &Action) -> (r: bool)
        ensures
            r == (action is Quit || action is ToggleHelp || action is Prompt),
            final(self).running == (old(self).running && !(action is Quit)),
            final(self).help_pinned == if action is ToggleHelp {
                !old(self).help_pinned
            } else {
                old(self).help_pinned
            },
            match action {
                Action::Prompt(p) => final(self).minibuffer matches Some(mb) && mb.prompt == *p
                    && mb.input@.len() == 0 && mb.message is None,
                _ => final(self).minibuffer == old(self).minibuffer,
            },
            final(self).launcher == old(self).launcher,
            final(self).hover == old(self).hover,
    {
        match action {
            Action::Quit => {
                self.running = false;
                true
            },
            Action::ToggleHelp => {
                self.help_pinned = !self.help_pinned;
                true
            },
            Action::Prompt(p) => {
                self.minibuffer = Some(MiniBuffer::new(*p));
                true
            },
            _ => false,
        }
    }
}

} // verus!
