//! Window-manager actions, and the names a config, a prompt or a script
//! calls them by.
use vstd::prelude::*;

use crate::minibuffer::Prompt;
use crate::text::{
    eq_lit, is_ascii_white, is_ascii_whitespace, lower, lower_seq, rfind, rfind_char, slice_of,
    string_from, to_chars, to_lower, trim, trim_range,
};

verus! {

broadcast use crate::text::lemma_find_in_bounds, crate::text::lemma_rfind_in_bounds;

/// A compass direction on screen.
#[derive(Debug, Clone, Copy, PartialEq, Eq, Structural)]
pub enum Direction {
    Left,
    Right,
    Up,
    Down,
}

/// The axis a container lays its children out along.
#[derive(Debug, Clone, Copy, PartialEq, Eq, Structural)]
pub enum Layout {
    Horizontal,
    Vertical,
}

/// How many numbered workspaces there are.
pub const WORKSPACE_COUNT: u32 = 9;

/// The window-manager action bound to a key, a prompt line or a script call.
#[derive(Debug, Clone, PartialEq)]
pub enum Action {
    /// Shut the compositor down.
    Quit,
    /// Advance the active workspace.
    CycleWorkspace,
    /// Move keyboard focus to the window drawn in that direction.
    Focus(Direction),
    /// Exchange the focused window with its neighbour that way.
    Swap(Direction),
    /// Move the boundary between the focused window and its neighbour.
    Resize(Direction),
    /// Re-divide the container holding the focused window along this axis.
    Split(Layout),
    /// Float the focused window, or return it to the tiling.
    ToggleFloating,
    /// Show a numbered workspace.
    Workspace(u32),
    /// Send the focused window to a numbered workspace.
    MoveToWorkspace(u32),
    /// Launch a program on the compositor's own socket.
    Spawn(String),
    /// Pin the shortcut helper open, or unpin it.
    ToggleHelp,
    /// Open the `:` prompt (or `=` for Lua).
    Prompt(Prompt),
    /// Write the composited output to a picture.
    Screenshot,
}

/// An [`Action`] with its command line as characters.
pub enum ActionView {
    Quit,
    CycleWorkspace,
    Focus(Direction),
    Swap(Direction),
    Resize(Direction),
    Split(Layout),
    ToggleFloating,
    Workspace(u32),
    MoveToWorkspace(u32),
    Spawn(Seq<char>),
    ToggleHelp,
    Prompt(Prompt),
    Screenshot,
}

impl View for Action {
    type V = ActionView;

    open spec fn view(&self) -> ActionView {
        match self {
            Action::Quit => ActionView::Quit,
            Action::CycleWorkspace => ActionView::CycleWorkspace,
            Action::Focus(d) => ActionView::Focus(*d),
            Action::Swap(d) => ActionView::Swap(*d),
            Action::Resize(d) => ActionView::Resize(*d),
            Action::Split(l) => ActionView::Split(*l),
            Action::ToggleFloating => ActionView::ToggleFloating,
            Action::Workspace(n) => ActionView::Workspace(*n),
            Action::MoveToWorkspace(n) => ActionView::MoveToWorkspace(*n),
            Action::Spawn(s) => ActionView::Spawn(s@),
            Action::ToggleHelp => ActionView::ToggleHelp,
            Action::Prompt(p) => ActionView::Prompt(*p),
            Action::Screenshot => ActionView::Screenshot,
        }
    }
}

/// The view of an optional action.
pub open spec fn opt_view(a: Option<Action>) -> Option<ActionView> {
    match a {
        Some(a) => Some(a@),
        None => None,
    }
}

/// A workspace number the shell has: `1..=WORKSPACE_COUNT`.
pub open spec fn workspace_ok(ws: u32) -> bool {
    1 <= ws <= WORKSPACE_COUNT
}

/// A workspace number the shell will accept, or `None` for one it will not.
///
/// Out-of-range values are dropped rather than clamped: a config asking for
/// workspace 20 has a bug in it, and silently landing on 9 would hide that.
pub fn valid_workspace(ws: u32) -> (r: Option<u32>)
    ensures
        r == (if workspace_ok(ws) { Some(ws) } else { None::<u32> }),
{
    if 1 <= ws && ws <= WORKSPACE_COUNT {
        Some(ws)
    } else {
        None
    }
}

/// Whether `c` is one of `0..=9`.
pub open spec fn is_digit(c: char) -> bool {
    '0' <= c && c <= '9'
}

/// The number a run of decimal digits spells.
pub open spec fn dec_value(s: Seq<char>) -> nat
    decreases s.len(),
{
    if s.len() == 0 {
        0
    } else {
        dec_value(s.drop_last()) * 10 + ((s.last() as u32) - ('0' as u32)) as nat
    }
}

/// The digits of a number: what follows an optional leading `+`.
pub open spec fn unsigned_digits(s: Seq<char>) -> Seq<char> {
    if s.len() > 0 && s[0] == '+' {
        s.drop_first()
    } else {
        s
    }
}

/// Every character is a decimal digit.
pub open spec fn all_digits(d: Seq<char>) -> bool {
    forall|i: int| 0 <= i < d.len() ==> #[trigger] is_digit(d[i])
}

/// `str::parse::<u32>`: an optional `+`, then one or more decimal digits
/// spelling a number that fits.
pub open spec fn parse_u32(s: Seq<char>) -> Option<u32> {
    let digits = unsigned_digits(s);
    if digits.len() > 0 && all_digits(digits) && dec_value(digits) <= u32::MAX {
        Some(dec_value(digits) as u32)
    } else {
        None
    }
}

proof fn lemma_parse_not_digit(s: Seq<char>, j: int)
    requires
        0 <= j < unsigned_digits(s).len(),
        !is_digit(unsigned_digits(s)[j]),
    ensures
        parse_u32(s) is None,
{
}

proof fn lemma_parse_too_big(s: Seq<char>, k: int)
    requires
        0 <= k <= unsigned_digits(s).len(),
        dec_value(unsigned_digits(s).take(k)) > u32::MAX,
    ensures
        parse_u32(s) is None,
{
    let digits = unsigned_digits(s);
    if all_digits(digits) {
        lemma_dec_grows(digits, k);
    }
}

proof fn lemma_dec_grows(s: Seq<char>, i: int)
    requires
        0 <= i <= s.len(),
        all_digits(s),
    ensures
        dec_value(s.take(i)) <= dec_value(s),
    decreases s.len(),
{
    if i < s.len() {
        assert(s.drop_last().take(i) == s.take(i));
        lemma_dec_grows(s.drop_last(), i);
    } else {
        assert(s.take(i) == s);
    }
}

/// Parse `v[lo..]` as a `u32` the way `str::parse` does.
pub fn parse_u32_at(v: &Vec<char>, lo: usize) -> (r: Option<u32>)
    requires
        lo <= v.len(),
    ensures
        r == parse_u32(v@.skip(lo as int)),
{
    let ghost s = v@.skip(lo as int);
    let mut start = lo;
    if start < v.len() && v[start] == '+' {
        start += 1;
    }
    let ghost digits = v@.skip(start as int);
    assert(digits == unsigned_digits(s));
    if start == v.len() {
        return None;
    }
    let mut value: u64 = 0;
    let mut i = start;
    assert(digits.take(0) == Seq::<char>::empty());
    while i < v.len()
        invariant
            start <= i <= v.len(),
            start < v.len(),
            digits == v@.skip(start as int),
            s == v@.skip(lo as int),
            digits == unsigned_digits(s),
            forall|j: int| 0 <= j < i - start ==> is_digit(digits[j]),
            value == dec_value(digits.take(i - start)),
            value <= u32::MAX,
        decreases v.len() - i,
    {
        let c = v[i];
        if !('0' <= c && c <= '9') {
            assert(digits[i - start] == c);
            proof { lemma_parse_not_digit(s, i - start); }
            return None;
        }
        let d = (c as u32 - '0' as u32) as u64;
        assert(digits.take(i - start + 1).drop_last() == digits.take(i - start));
        value = value * 10 + d;
        i += 1;
        assert(value == dec_value(digits.take(i - start)));
        if value > u32::MAX as u64 {
            proof { lemma_parse_too_big(s, i - start); }
            return None;
        }
    }
    assert(digits.take(i - start) == digits);
    Some(value as u32)
}

/// A compass word as a [`Direction`].
pub open spec fn direction_of(w: Seq<char>) -> Option<Direction> {
    if w == "left"@ || w == "l"@ {
        Some(Direction::Left)
    } else if w == "right"@ || w == "r"@ {
        Some(Direction::Right)
    } else if w == "up"@ || w == "u"@ {
        Some(Direction::Up)
    } else if w == "down"@ || w == "d"@ {
        Some(Direction::Down)
    } else {
        None
    }
}

/// A compass word (`left`, `l`, `right`, ...) as a [`Direction`], or `None`
/// for anything else.
pub fn direction_word(w: &Vec<char>) -> (r: Option<Direction>)
    ensures
        r == direction_of(w@),
{
    if eq_lit(w, "left") || eq_lit(w, "l") {
        Some(Direction::Left)
    } else if eq_lit(w, "right") || eq_lit(w, "r") {
        Some(Direction::Right)
    } else if eq_lit(w, "up") || eq_lit(w, "u") {
        Some(Direction::Up)
    } else if eq_lit(w, "down") || eq_lit(w, "d") {
        Some(Direction::Down)
    } else {
        None
    }
}

/// `text` with a leading `verb` (lowercase ASCII) removed, matched without
/// regard to ASCII case, when it is followed by ASCII whitespace; the rest
/// comes back trimmed.
pub open spec fn strip_verb(text: Seq<char>, verb: Seq<char>) -> Option<Seq<char>> {
    if text.len() > verb.len() && lower_seq(text.take(verb.len() as int)) == verb
        && is_ascii_white(text[verb.len() as int]) {
        Some(trim(text.skip(verb.len() as int + 1)))
    } else {
        None
    }
}

/// A config spelling normalised: ASCII lowercase, `_` and `-` as spaces.
pub open spec fn norm_char(c: char) -> char {
    if c == '_' || c == '-' {
        ' '
    } else {
        lower(c)
    }
}

pub open spec fn normalize(s: Seq<char>) -> Seq<char> {
    s.map_values(|c: char| norm_char(c))
}

/// The actions named by a whole normalised name.
pub open spec fn keyword_action(n: Seq<char>) -> Option<ActionView> {
    if n == "quit"@ {
        Some(ActionView::Quit)
    } else if n == "cycle workspace"@ {
        Some(ActionView::CycleWorkspace)
    } else if n == "screenshot"@ {
        Some(ActionView::Screenshot)
    } else if n == "toggle help"@ || n == "help"@ || n == "toggle whichkey"@ {
        Some(ActionView::ToggleHelp)
    } else if n == "command"@ || n == "prompt"@ {
        Some(ActionView::Prompt(Prompt::Command))
    } else if n == "lua"@ || n == "eval"@ {
        Some(ActionView::Prompt(Prompt::Lua))
    } else if n == "toggle floating"@ || n == "float"@ {
        Some(ActionView::ToggleFloating)
    } else {
        None
    }
}

/// The actions named by a verb and its last-word argument.
pub open spec fn verb_action(verb: Seq<char>, arg: Seq<char>) -> Option<ActionView> {
    if verb == "focus"@ {
        match direction_of(arg) {
            Some(d) => Some(ActionView::Focus(d)),
            None => None,
        }
    } else if verb == "swap"@ {
        match direction_of(arg) {
            Some(d) => Some(ActionView::Swap(d)),
            None => None,
        }
    } else if verb == "resize"@ {
        match direction_of(arg) {
            Some(d) => Some(ActionView::Resize(d)),
            None => None,
        }
    } else if verb == "split"@ && (arg == "horizontal"@ || arg == "h"@) {
        Some(ActionView::Split(Layout::Horizontal))
    } else if verb == "split"@ && (arg == "vertical"@ || arg == "v"@) {
        Some(ActionView::Split(Layout::Vertical))
    } else if verb == "workspace"@ {
        match parse_u32(arg) {
            Some(n) => if workspace_ok(n) { Some(ActionView::Workspace(n)) } else { None },
            None => None,
        }
    } else if verb == "move to workspace"@ {
        match parse_u32(arg) {
            Some(n) => if workspace_ok(n) { Some(ActionView::MoveToWorkspace(n)) } else { None },
            None => None,
        }
    } else {
        None
    }
}

/// The action a config name means.
///
/// A leading `spawn` verb (any case, then whitespace) takes the rest of the
/// line exactly as written, trimmed. Anything else is read after trimming,
/// lowercasing ASCII and turning `_` and `-` into spaces: first as a whole
/// keyword, then as a verb followed by its argument in the last word.
pub open spec fn action_named(name: Seq<char>) -> Option<ActionView> {
    let t = trim(name);
    match strip_verb(t, "spawn"@) {
        Some(rest) => if rest.len() > 0 {
            Some(ActionView::Spawn(rest))
        } else {
            None
        },
        None => {
            let n = normalize(t);
            match keyword_action(n) {
                Some(a) => Some(a),
                None => match rfind(n, ' ') {
                    Some(k) => verb_action(n.take(k as int), n.skip(k as int + 1)),
                    None => None,
                },
            }
        },
    }
}

/// `strip_verb` on vectors: the trimmed rest after `verb`, if `text` begins
/// with it and then ASCII whitespace.
fn strip_verb_exec(text: &Vec<char>, verb: &str) -> (r: Option<Vec<char>>)
    ensures
        match r {
            Some(rest) => strip_verb(text@, verb@) == Some(rest@),
            None => strip_verb(text@, verb@) is None,
        },
{
    let vw = to_chars(verb);
    let vl = vw.len();
    if text.len() <= vl {
        return None;
    }
    let head = slice_of(text, 0, vl);
    assert(head@ == text@.take(vl as int));
    let mut i: usize = 0;
    while i < vl
        invariant
            i <= vl == vw.len() == head.len(),
            vw@ == verb@,
            head@ == text@.take(vl as int),
            text.len() > vl,
            forall|j: int| 0 <= j < i ==> lower(head@[j]) == vw@[j],
        decreases vl - i,
    {
        if to_lower(head[i]) != vw[i] {
            assert(lower_seq(head@)[i as int] != vw@[i as int]);
            return None;
        }
        i += 1;
    }
    assert(lower_seq(head@) =~= vw@);
    if !is_ascii_whitespace(text[vl]) {
        return None;
    }
    let after = slice_of(text, vl + 1, text.len());
    assert(after@ == text@.skip(vl + 1));
    let (lo, hi) = trim_range(&after);
    Some(slice_of(&after, lo, hi))
}

fn normalize_exec(v: &Vec<char>) -> (r: Vec<char>)
    ensures
        r@ == normalize(v@),
{
    let mut r: Vec<char> = Vec::new();
    let mut i: usize = 0;
    while i < v.len()
        invariant
            i <= v.len(),
            r@ == normalize(v@.take(i as int)),
        decreases v.len() - i,
    {
        let c = v[i];
        let d = if c == '_' || c == '-' { ' ' } else { to_lower(c) };
        r.push(d);
        assert(normalize(v@.take(i + 1)) =~= normalize(v@.take(i as int)).push(norm_char(c)));
        i += 1;
    }
    assert(v@.take(v.len() as int) == v@);
    r
}

fn keyword_action_exec(n: &Vec<char>) -> (r: Option<Action>)
    ensures
        opt_view(r) == keyword_action(n@),
{
    if eq_lit(n, "quit") {
        Some(Action::Quit)
    } else if eq_lit(n, "cycle workspace") {
        Some(Action::CycleWorkspace)
    } else if eq_lit(n, "screenshot") {
        Some(Action::Screenshot)
    } else if eq_lit(n, "toggle help") || eq_lit(n, "help") || eq_lit(n, "toggle whichkey") {
        Some(Action::ToggleHelp)
    } else if eq_lit(n, "command") || eq_lit(n, "prompt") {
        Some(Action::Prompt(Prompt::Command))
    } else if eq_lit(n, "lua") || eq_lit(n, "eval") {
        Some(Action::Prompt(Prompt::Lua))
    } else if eq_lit(n, "toggle floating") || eq_lit(n, "float") {
        Some(Action::ToggleFloating)
    } else {
        None
    }
}

fn verb_action_exec(verb: &Vec<char>, arg: &Vec<char>) -> (r: Option<Action>)
    ensures
        opt_view(r) == verb_action(verb@, arg@),
{
    if eq_lit(verb, "focus") {
        match direction_word(arg) {
            Some(d) => Some(Action::Focus(d)),
            None => None,
        }
    } else if eq_lit(verb, "swap") {
        match direction_word(arg) {
            Some(d) => Some(Action::Swap(d)),
            None => None,
        }
    } else if eq_lit(verb, "resize") {
        match direction_word(arg) {
            Some(d) => Some(Action::Resize(d)),
            None => None,
        }
    } else if eq_lit(verb, "split") && (eq_lit(arg, "horizontal") || eq_lit(arg, "h")) {
        Some(Action::Split(Layout::Horizontal))
    } else if eq_lit(verb, "split") && (eq_lit(arg, "vertical") || eq_lit(arg, "v")) {
        Some(Action::Split(Layout::Vertical))
    } else if eq_lit(verb, "workspace") {
        assert(arg@.skip(0) == arg@);
        match parse_u32_at(arg, 0) {
            Some(n) => match valid_workspace(n) {
                Some(ws) => Some(Action::Workspace(ws)),
                None => None,
            },
            None => None,
        }
    } else if eq_lit(verb, "move to workspace") {
        assert(arg@.skip(0) == arg@);
        match parse_u32_at(arg, 0) {
            Some(n) => match valid_workspace(n) {
                Some(ws) => Some(Action::MoveToWorkspace(ws)),
                None => None,
            },
            None => None,
        }
    } else {
        None
    }
}

impl Action {
    /// The action a config names, or `None` for a name that is not one.
    ///
    /// Underscores, dashes and case are all accepted, so `cycle_workspace`,
    /// `cycle-workspace` and `Cycle Workspace` name the same thing; an
    /// argument is always the last word. `spawn <command>` keeps its command
    /// line exactly as written.
    pub fn from_name(name: &str) -> (r: Option<Action>)
        ensures
            opt_view(r) == action_named(name@),
    {
        let v = to_chars(name);
        let (lo, hi) = trim_range(&v);
        let t = slice_of(&v, lo, hi);
        if let Some(rest) = strip_verb_exec(&t, "spawn") {
            if rest.len() > 0 {
                return Some(Action::Spawn(string_from(&rest)));
            } else {
                return None;
            }
        }
        let n = normalize_exec(&t);
        let kw = keyword_action_exec(&n);
        if kw.is_some() {
            return kw;
        }
        match rfind_char(&n, ' ') {
            Some(k) => {
                let verb = slice_of(&n, 0, k);
                let arg = slice_of(&n, k + 1, n.len());
                assert(verb@ == n@.take(k as int));
                assert(arg@ == n@.skip(k + 1));
                verb_action_exec(&verb, &arg)
            },
            None => None,
        }
    }
}

} // verus!
