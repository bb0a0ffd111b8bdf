//! What a compositor config declares, and the control plane its
//! `ruster.wm.*` calls drive.
//!
//! Nothing here runs Lua. A config's calls and its returned table arrive as
//! plain values; this module decides what each of them records, queues or
//! refuses, so every route into the window manager ends at the same
//! [`Action`] queue.
use vstd::prelude::*;

use crate::action::{
    action_named, direction_of, direction_word, valid_workspace, workspace_ok, Action, ActionView,
    Layout,
};
use crate::chrome::TreeStatus;
use crate::keymap::pairs;
use crate::text::{
    lemma_trim_after_trim_end, lemma_trim_commutes, lemma_trim_end_of,
    lemma_trim_end_split, lemma_trim_start_of, split_words, string_from, to_chars, trim, trim_end,
    trim_start, trimmed, views, words,
};

verus! {

/// The keyboard layout and repeat behaviour a config asked for.
///
/// Empty strings mean "whatever the system says", which is what the keymap
/// compiler falls back to on its own.
#[derive(Debug, Clone, PartialEq, Eq)]
pub struct KeyboardConfig {
    pub layout: String,
    pub variant: String,
    pub model: String,
    pub rules: String,
    /// xkb options such as `ctrl:nocaps`, comma separated.
    pub options: Option<String>,
    /// Milliseconds held before a key starts repeating.
    pub repeat_delay: i32,
    /// Repeats per second once it starts.
    pub repeat_rate: i32,
}

/// The delay a seat repeats after when no config says otherwise.
pub const DEFAULT_REPEAT_DELAY: i32 = 200;

/// The rate a seat repeats at when no config says otherwise.
pub const DEFAULT_REPEAT_RATE: i32 = 25;

/// The system keymap: every name empty, no options, the stock repeat.
pub open spec fn system_keyboard(k: KeyboardConfig) -> bool {
    &&& k.layout@.len() == 0
    &&& k.variant@.len() == 0
    &&& k.model@.len() == 0
    &&& k.rules@.len() == 0
    &&& k.options is None
    &&& k.repeat_delay == DEFAULT_REPEAT_DELAY
    &&& k.repeat_rate == DEFAULT_REPEAT_RATE
}

impl Default for KeyboardConfig {
    fn default() -> (k: Self)
        ensures
            system_keyboard(k),
    {
        KeyboardConfig {
            layout: String::new(),
            variant: String::new(),
            model: String::new(),
            rules: String::new(),
            options: None,
            repeat_delay: DEFAULT_REPEAT_DELAY,
            repeat_rate: DEFAULT_REPEAT_RATE,
        }
    }
}

impl KeyboardConfig {
    /// Whether this is the keymap the seat already has, so there is nothing
    /// to load.
    pub fn is_system_default(&self) -> (r: bool)
        ensures
            r == system_keyboard(*self),
    {
        self.layout.as_str().unicode_len() == 0 && self.variant.as_str().unicode_len() == 0
            && self.model.as_str().unicode_len() == 0 && self.rules.as_str().unicode_len() == 0
            && self.options.is_none() && self.repeat_delay == DEFAULT_REPEAT_DELAY
            && self.repeat_rate == DEFAULT_REPEAT_RATE
    }
}

/// The fields a `keyboard = { ... }` table set, each `None` when the table
/// did not mention it.
#[derive(Debug, Clone, Default)]
pub struct KeyboardFields {
    pub layout: Option<String>,
    pub variant: Option<String>,
    pub model: Option<String>,
    pub rules: Option<String>,
    pub options: Option<String>,
    pub repeat_delay: Option<i32>,
    pub repeat_rate: Option<i32>,
}

/// A string field after a table that may have set it.
pub open spec fn merged_str(old: Seq<char>, set: Option<String>) -> Seq<char> {
    match set {
        Some(v) => v@,
        None => old,
    }
}

/// An integer field after a table that may have set it.
pub open spec fn merged_int(old: i32, set: Option<i32>) -> i32 {
    match set {
        Some(v) => v,
        None => old,
    }
}

/// The options after a table that may have set them: an empty string is no
/// options at all, not an option named nothing.
pub open spec fn merged_options(old: Option<Seq<char>>, set: Option<String>) -> Option<Seq<char>> {
    match set {
        Some(v) => if v@.len() == 0 {
            None
        } else {
            Some(v@)
        },
        None => old,
    }
}

/// The view of optional text.
pub open spec fn opt_str(s: Option<String>) -> Option<Seq<char>> {
    match s {
        Some(v) => Some(v@),
        None => None,
    }
}

/// `keyboard` after a config's `keyboard` table: every field the table set
/// replaces the old one, and everything it did not mention is left alone.
pub open spec fn keyboard_merged(old: KeyboardConfig, new: KeyboardConfig, f: KeyboardFields) -> bool {
    &&& new.layout@ == merged_str(old.layout@, f.layout)
    &&& new.variant@ == merged_str(old.variant@, f.variant)
    &&& new.model@ == merged_str(old.model@, f.model)
    &&& new.rules@ == merged_str(old.rules@, f.rules)
    &&& opt_str(new.options) == merged_options(opt_str(old.options), f.options)
    &&& new.repeat_delay == merged_int(old.repeat_delay, f.repeat_delay)
    &&& new.repeat_rate == merged_int(old.repeat_rate, f.repeat_rate)
}

/// Fold a `keyboard = { ... }` table into `keyboard`, leaving anything the
/// config did not mention alone.
pub fn merge_keyboard(keyboard: &mut KeyboardConfig, fields: KeyboardFields)
    ensures
        keyboard_merged(*old(keyboard), *final(keyboard), fields),
{
    let KeyboardFields { layout, variant, model, rules, options, repeat_delay, repeat_rate } =
        fields;
    if let Some(v) = layout {
        keyboard.layout = v;
    }
    if let Some(v) = variant {
        keyboard.variant = v;
    }
    if let Some(v) = model {
        keyboard.model = v;
    }
    if let Some(v) = rules {
        keyboard.rules = v;
    }
    if let Some(v) = options {
        if v.as_str().unicode_len() == 0 {
            keyboard.options = None;
        } else {
            keyboard.options = Some(v);
        }
    }
    if let Some(v) = repeat_delay {
        keyboard.repeat_delay = v;
    }
    if let Some(v) = repeat_rate {
        keyboard.repeat_rate = v;
    }
}

/// What a config declared: keybinds as `(binding, action name)` pairs, the
/// clients to launch on startup, the workspace to start on, and the
/// keyboard.
#[derive(Debug, Clone)]
pub struct LuaShell {
    pub keybinds: Vec<(String, String)>,
    pub startup_clients: Vec<String>,
    /// Workspace to start on, when the config asked for one.
    pub initial_workspace: Option<u32>,
    pub keyboard: KeyboardConfig,
}

/// The view of a list of strings.
pub open spec fn str_views(v: Seq<String>) -> Seq<Seq<char>> {
    v.map_values(|s: String| s@)
}

impl Default for LuaShell {
    fn default() -> (s: Self)
        ensures
            s.keybinds@.len() == 0,
            s.startup_clients@.len() == 0,
            s.initial_workspace is None,
            system_keyboard(s.keyboard),
    {
        LuaShell {
            keybinds: Vec::new(),
            startup_clients: Vec::new(),
            initial_workspace: None,
            keyboard: KeyboardConfig::default(),
        }
    }
}

/// What a config's returned table held, each part as it was read.
#[derive(Debug, Clone, Default)]
pub struct ConfigTable {
    pub keybinds: Vec<(String, String)>,
    pub startup_clients: Vec<String>,
    /// The `workspace` key, when it held a number.
    pub workspace: Option<u32>,
    /// The `keyboard` table, when there was one.
    pub keyboard: Option<KeyboardFields>,
}

/// Append `extra` to `list`.
fn append_pairs(list: &mut Vec<(String, String)>, extra: Vec<(String, String)>)
    ensures
        pairs(final(list)@) == pairs(old(list)@) + pairs(extra@),
{
    let mut extra = extra;
    let ghost start = pairs(list@);
    let ghost add = pairs(extra@);
    list.append(&mut extra);
    assert(pairs(list@) =~= start + add);
}

/// Append `extra` to `list`.
fn append_strings(list: &mut Vec<String>, extra: Vec<String>)
    ensures
        str_views(final(list)@) == str_views(old(list)@) + str_views(extra@),
{
    let mut extra = extra;
    let ghost start = str_views(list@);
    let ghost add = str_views(extra@);
    list.append(&mut extra);
    assert(str_views(list@) =~= start + add);
}

/// Fold a declarative config table into `shell`, after the calls the config
/// made: its keybinds and clients come after the recorded ones, a
/// `workspace` key replaces the recorded workspace (with nothing, when it
/// names no workspace), and a `keyboard` table is merged field by field.
pub fn merge_config_table(shell: &mut LuaShell, table: ConfigTable)
    ensures
        pairs(final(shell).keybinds@) == pairs(old(shell).keybinds@) + pairs(table.keybinds@),
        str_views(final(shell).startup_clients@) == str_views(old(shell).startup_clients@)
            + str_views(table.startup_clients@),
        final(shell).initial_workspace == match table.workspace {
            Some(ws) => if workspace_ok(ws) {
                Some(ws)
            } else {
                None::<u32>
            },
            None => old(shell).initial_workspace,
        },
        match table.keyboard {
            Some(f) => keyboard_merged(old(shell).keyboard, final(shell).keyboard, f),
            None => final(shell).keyboard == old(shell).keyboard,
        },
{
    let ConfigTable { keybinds, startup_clients, workspace, keyboard } = table;
    append_pairs(&mut shell.keybinds, keybinds);
    append_strings(&mut shell.startup_clients, startup_clients);
    if let Some(ws) = workspace {
        shell.initial_workspace = valid_workspace(ws);
    }
    if let Some(fields) = keyboard {
        merge_keyboard(&mut shell.keyboard, fields);
    }
}

/// What the compositor last published about itself, for Lua to read.
#[derive(Debug, Clone, PartialEq)]
pub struct WmStatus {
    pub workspace: u32,
    /// Windows on the active workspace.
    pub windows: usize,
    pub focused_title: String,
    /// Whether the focused window is floating.
    pub floating: bool,
    /// The split axis of the container holding focus, if any.
    pub layout: Option<String>,
}

impl Default for WmStatus {
    /// Workspace zero, no windows, no title, tiled, no container.
    fn default() -> (s: Self)
        ensures
            s.workspace == 0,
            s.windows == 0,
            s.focused_title@.len() == 0,
            !s.floating,
            s.layout is None,
    {
        WmStatus {
            workspace: 0,
            windows: 0,
            focused_title: String::new(),
            floating: false,
            layout: None,
        }
    }
}

/// The word `ruster.wm.status()` uses for a split axis.
pub open spec fn layout_word(layout: Layout) -> Seq<char> {
    match layout {
        Layout::Horizontal => "horizontal"@,
        Layout::Vertical => "vertical"@,
    }
}

impl WmStatus {
    /// What `ruster.wm.status()` reports: the workspace on screen, the
    /// focused window's title (empty with nothing focused), and what the
    /// container tree says about the active workspace.
    pub fn from_tree(workspace: u32, tree: &TreeStatus, focused_title: Option<&str>) -> (r: WmStatus)
        ensures
            r.workspace == workspace,
            r.windows == tree.windows,
            r.floating == tree.floating,
            r.focused_title@ == match focused_title {
                Some(t) => t@,
                None => Seq::<char>::empty(),
            },
            match (r.layout, tree.layout) {
                (Some(w), Some(l)) => w@ == layout_word(l),
                (None, None) => true,
                _ => false,
            },
    {
        let layout = match tree.layout {
            Some(Layout::Horizontal) => Some("horizontal".to_string()),
            Some(Layout::Vertical) => Some("vertical".to_string()),
            None => None,
        };
        proof {
            reveal_strlit("horizontal");
            reveal_strlit("vertical");
        }
        WmStatus {
            workspace,
            windows: tree.windows,
            focused_title: match focused_title {
                Some(t) => t.to_string(),
                None => String::new(),
            },
            floating: tree.floating,
            layout,
        }
    }
}

/// The state behind `ruster.wm`: what the config recorded, the actions its
/// calls queued, and the status a script can read back.
///
/// Declarative calls (`set_keybind`, `launch_client`) record; the rest queue
/// an [`Action`] for the event loop to drain, which works the same whether
/// the config is being read or a keybind fired later.
#[derive(Debug)]
pub struct WmControl {
    recorded: LuaShell,
    queue: Vec<Action>,
    status: WmStatus,
}

/// The views of a list of actions.
pub open spec fn action_views(v: Seq<Action>) -> Seq<ActionView> {
    v.map_values(|a: Action| a@)
}

impl WmControl {
    /// Nothing recorded, nothing queued, and a default status.
    pub fn new() -> (c: Self)
        ensures
            c.shell().keybinds@.len() == 0,
            c.shell().startup_clients@.len() == 0,
            c.shell().initial_workspace is None,
            system_keyboard(c.shell().keyboard),
            c.queued().len() == 0,
            c.status().workspace == 0,
            c.status().windows == 0,
            c.status().focused_title@.len() == 0,
            !c.status().floating,
            c.status().layout is None,
    {
        let c = WmControl {
            recorded: LuaShell::default(),
            queue: Vec::new(),
            status: WmStatus::default(),
        };
        assert(action_views(c.queue@) =~= Seq::<ActionView>::empty());
        c
    }

    /// What the config's calls declared.
    pub closed spec fn shell(&self) -> LuaShell {
        self.recorded
    }

    /// What the config's calls declared.
    pub fn recorded(&self) -> (r: &LuaShell)
        ensures
            *r == self.shell(),
    {
        &self.recorded
    }

    /// The actions queued and not yet taken, oldest first.
    pub closed spec fn queued(&self) -> Seq<ActionView> {
        action_views(self.queue@)
    }

    /// Queue `action` behind everything already queued.
    fn enqueue(&mut self, action: Action)
        ensures
            final(self).queued() == old(self).queued().push(action@),
            final(self).shell() == old(self).shell(),
            final(self).status() == old(self).status(),
    {
        let ghost before = self.queued();
        self.queue.push(action);
        assert(self.queued() =~= before.push(action@));
    }

    /// `ruster.wm.set_keybind`: record a binding.
    pub fn set_keybind(&mut self, bind: String, action: String)
        ensures
            pairs(final(self).shell().keybinds@) == pairs(old(self).shell().keybinds@).push(
                (bind@, action@),
            ),
            final(self).shell().startup_clients == old(self).shell().startup_clients,
            final(self).shell().initial_workspace == old(self).shell().initial_workspace,
            final(self).shell().keyboard == old(self).shell().keyboard,
            final(self).queued() == old(self).queued(),
            final(self).status() == old(self).status(),
    {
        let ghost before = pairs(self.recorded.keybinds@);
        self.recorded.keybinds.push((bind, action));
        assert(pairs(self.recorded.keybinds@) =~= before.push((bind@, action@)));
    }

    /// `ruster.wm.launch_client`: record a client to start.
    pub fn launch_client(&mut self, command: String)
        ensures
            str_views(final(self).shell().startup_clients@) == str_views(
                old(self).shell().startup_clients@,
            ).push(command@),
            final(self).shell().keybinds == old(self).shell().keybinds,
            final(self).shell().initial_workspace == old(self).shell().initial_workspace,
            final(self).shell().keyboard == old(self).shell().keyboard,
            final(self).queued() == old(self).queued(),
            final(self).status() == old(self).status(),
    {
        let ghost before = str_views(self.recorded.startup_clients@);
        self.recorded.startup_clients.push(command);
        assert(str_views(self.recorded.startup_clients@) =~= before.push(command@));
    }

    /// `ruster.wm.switch_workspace`: for a workspace the shell has, record it
    /// as the one to start on and queue the switch; anything else is
    /// ignored rather than clamped.
    pub fn switch_workspace(&mut self, workspace: u32)
        ensures
            workspace_ok(workspace) ==> final(self).shell().initial_workspace == Some(workspace)
                && final(self).queued() == old(self).queued().push(
                ActionView::Workspace(workspace),
            ),
            !workspace_ok(workspace) ==> final(self).shell().initial_workspace == old(
                self,
            ).shell().initial_workspace && final(self).queued() == old(self).queued(),
            final(self).shell().keybinds == old(self).shell().keybinds,
            final(self).shell().startup_clients == old(self).shell().startup_clients,
            final(self).shell().keyboard == old(self).shell().keyboard,
            final(self).status() == old(self).status(),
    {
        if let Some(ws) = valid_workspace(workspace) {
            self.recorded.initial_workspace = Some(ws);
            self.enqueue(Action::Workspace(ws));
        }
    }

    /// `ruster.wm.action`: queue the action `name` names, reporting whether
    /// it named one.
    pub fn action(&mut self, name: &str) -> (r: bool)
        ensures
            r == action_named(name@) is Some,
            final(self).queued() == match action_named(name@) {
                Some(a) => old(self).queued().push(a),
                None => old(self).queued(),
            },
            final(self).shell() == old(self).shell(),
            final(self).status() == old(self).status(),
    {
        match Action::from_name(name) {
            Some(action) => {
                self.enqueue(action);
                true
            },
            None => false,
        }
    }

    /// `ruster.wm.focus`: queue a focus move the compass word points, reporting
    /// whether it was a compass word.
    pub fn focus(&mut self, direction: &str) -> (r: bool)
        ensures
            r == direction_of(direction@) is Some,
            final(self).queued() == match direction_of(direction@) {
                Some(d) => old(self).queued().push(ActionView::Focus(d)),
                None => old(self).queued(),
            },
            final(self).shell() == old(self).shell(),
            final(self).status() == old(self).status(),
    {
        let word = to_chars(direction);
        match direction_word(&word) {
            Some(d) => {
                self.enqueue(Action::Focus(d));
                true
            },
            None => false,
        }
    }

    /// `ruster.wm.spawn`: queue launching the command line, trimmed,
    /// reporting whether there was anything to launch.
    pub fn spawn(&mut self, command: &str) -> (r: bool)
        ensures
            r == (trim(command@).len() > 0),
            r ==> final(self).queued() == old(self).queued().push(
                ActionView::Spawn(trim(command@)),
            ),
            !r ==> final(self).queued() == old(self).queued(),
            final(self).shell() == old(self).shell(),
            final(self).status() == old(self).status(),
    {
        let line = trimmed(command);
        if line.as_str().unicode_len() == 0 {
            return false;
        }
        self.enqueue(Action::Spawn(line));
        true
    }

    /// `ruster.wm.quit`: queue shutting down.
    pub fn quit(&mut self)
        ensures
            final(self).queued() == old(self).queued().push(ActionView::Quit),
            final(self).shell() == old(self).shell(),
            final(self).status() == old(self).status(),
    {
        self.enqueue(Action::Quit);
    }

    /// Everything queued since the last call, in the order it was queued;
    /// the queue is left empty.
    pub fn take_actions(&mut self) -> (r: Vec<Action>)
        ensures
            action_views(r@) == old(self).queued(),
            final(self).queued().len() == 0,
            final(self).shell() == old(self).shell(),
            final(self).status() == old(self).status(),
    {
        let mut out: Vec<Action> = Vec::new();
        std::mem::swap(&mut out, &mut self.queue);
        assert(action_views(self.queue@) =~= Seq::<ActionView>::empty());
        out
    }

    /// Publish what the compositor currently looks like, for
    /// `ruster.wm.status`.
    pub fn publish(&mut self, status: WmStatus)
        ensures
            final(self).status() == status,
            final(self).queued() == old(self).queued(),
            final(self).shell() == old(self).shell(),
    {
        self.status = status;
    }

    /// The status last published.
    pub closed spec fn status(&self) -> WmStatus {
        self.status
    }

    /// What `ruster.wm.status` reads: the status last published.
    pub fn current_status(&self) -> (r: &WmStatus)
        ensures
            *r == self.status(),
    {
        &self.status
    }
}

/// How to launch a spawn action's command line: the program, its
/// arguments, and the display it is pointed at.
#[derive(Debug, Clone, PartialEq)]
pub struct CommandPlan {
    pub program: String,
    pub args: Vec<String>,
    /// The `WAYLAND_DISPLAY` to give the child, when the socket is known.
    pub display: Option<String>,
}

/// The launch `command` describes, or `None` when it names no program.
///
/// Split on whitespace, so `foot -e htop` works but quoting does not; with
/// a socket, the child is pointed at it, so its window opens in this
/// session rather than whichever one it inherited.
pub fn build_command(command: &str, socket_name: Option<&str>) -> (r: Option<CommandPlan>)
    ensures
        r is None <==> words(command@).len() == 0,
        r matches Some(p) ==> p.program@ == words(command@)[0] && str_views(p.args@) == words(
            command@,
        ).skip(1) && opt_str(p.display) == match socket_name {
            Some(s) => Some(s@),
            None => None::<Seq<char>>,
        },
{
    let v = to_chars(command);
    let parts = split_words(&v);
    if parts.len() == 0 {
        return None;
    }
    let program = string_from(&parts[0]);
    let mut args: Vec<String> = Vec::new();
    let mut i: usize = 1;
    while i < parts.len()
        invariant
            1 <= i <= parts.len(),
            views(parts@) == words(v@),
            str_views(args@) == views(parts@).subrange(1, i as int),
        decreases parts.len() - i,
    {
        let ghost before = str_views(args@);
        let a = string_from(&parts[i]);
        args.push(a);
        assert(str_views(args@) =~= before.push(views(parts@)[i as int]));
        assert(views(parts@).subrange(1, i + 1) =~= views(parts@).subrange(1, i as int).push(
            views(parts@)[i as int],
        ));
        i += 1;
    }
    assert(views(parts@).subrange(1, parts.len() as int) =~= views(parts@).skip(1));
    let display = match socket_name {
        Some(s) => Some(s.to_string()),
        None => None,
    };
    Some(CommandPlan { program, args, display })
}

/// Every route into the window manager launches the same thing:
/// `ruster.wm.spawn(c)` queues `c` trimmed (see [`WmControl::spawn`]), and
/// the action named `spawn c` — through `ruster.wm.action`, a keybind or
/// the `:` prompt — is the launch of exactly that command line.
pub proof fn law_every_route_spawns_the_same_command(c: Seq<char>)
    requires
        trim(c).len() > 0,
    ensures
        action_named("spawn "@ + c) == Some(ActionView::Spawn(trim(c))),
{
    reveal_strlit("spawn ");
    reveal_strlit("spawn");
    let verb = "spawn "@;
    let x = verb + c;
    // Nothing leads the verb.
    assert(Seq::<char>::empty() + x =~= x);
    assert(x[0] == 's');
    lemma_trim_start_of(Seq::<char>::empty(), x);
    // The command's trailing whitespace is the line's.
    lemma_trim_commutes(c);
    let k = lemma_trim_end_split(c);
    assert(k > 0) by {
        if k == 0 {
            assert(trim_end(c) =~= Seq::<char>::empty());
            assert(trim_start(Seq::<char>::empty()) == Seq::<char>::empty());
        }
    }
    assert(x =~= (verb + c.take(k)) + c.skip(k));
    assert((verb + c.take(k)).last() == c[k - 1]);
    lemma_trim_end_of(verb + c.take(k), c.skip(k));
    let t = trim(x);
    assert(t == verb + trim_end(c));
    assert(t.take(5) =~= "spawn"@);
    assert(crate::text::lower_seq(t.take(5)) =~= "spawn"@);
    assert(t.skip(6) =~= trim_end(c));
    lemma_trim_after_trim_end(c);
}

} // verus!
