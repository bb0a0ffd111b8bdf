//! The `:` line: a command prompt for the compositor.
//!
//! Two things go in it, told apart by the prompt: `:` runs a window-manager
//! action by name, and `=` evaluates Lua. Both end at the same place as a
//! keybind does.
use vstd::prelude::*;

use crate::action::{action_named, normalize, Action, ActionView};
use crate::text::{
    lemma_trim_idempotent, pop_char, push_char, rfind, slice_of, string_from, to_chars, trim,
    trim_range,
};

verus! {

/// The prompt kind, which decides how the line is read.
#[derive(Debug, Clone, Copy, PartialEq, Eq, Structural)]
pub enum Prompt {
    /// `:` — a window-manager action name.
    Command,
    /// `=` — Lua source.
    Lua,
}

/// The character a prompt is drawn with.
pub open spec fn sigil_of(p: Prompt) -> Seq<char> {
    match p {
        Prompt::Command => ":"@,
        Prompt::Lua => "="@,
    }
}

impl Prompt {
    pub fn sigil(self) -> (r: &'static str)
        ensures
            r@ == sigil_of(self),
    {
        match self {
            Prompt::Command => ":",
            Prompt::Lua => "=",
        }
    }
}

/// What a submitted line asked for.
#[derive(Debug, Clone, PartialEq)]
pub enum Submission {
    /// A window-manager action to dispatch.
    Action(Action),
    /// Lua source to evaluate against the live VM.
    Lua(String),
    /// Nothing — an empty line, or a word that is not an action, with the
    /// message saying so.
    Nothing(String),
}

/// The view of a submission.
pub enum SubmissionView {
    Action(ActionView),
    Lua(Seq<char>),
    Nothing(Seq<char>),
}

impl View for Submission {
    type V = SubmissionView;

    open spec fn view(&self) -> SubmissionView {
        match self {
            Submission::Action(a) => SubmissionView::Action(a@),
            Submission::Lua(s) => SubmissionView::Lua(s@),
            Submission::Nothing(s) => SubmissionView::Nothing(s@),
        }
    }
}

/// What a line typed at `prompt` asks for: nothing for a blank line, the
/// trimmed line verbatim for Lua, and for a command the action it names or
/// a message that it names none.
pub open spec fn submission_of(prompt: Prompt, input: Seq<char>) -> SubmissionView {
    let line = trim(input);
    if line.len() == 0 {
        SubmissionView::Nothing(seq![])
    } else {
        match prompt {
            Prompt::Lua => SubmissionView::Lua(line),
            Prompt::Command => match action_named(line) {
                Some(a) => SubmissionView::Action(a),
                None => SubmissionView::Nothing("not an action: "@ + line),
            },
        }
    }
}

/// The open mini-buffer: which prompt, and what has been typed into it.
#[derive(Debug, Clone, PartialEq)]
pub struct MiniBuffer {
    pub prompt: Prompt,
    pub input: String,
    /// A message shown instead of the prompt — the result of the last
    /// command, or why it did nothing.
    pub message: Option<String>,
}

impl MiniBuffer {
    /// An open, empty prompt.
    pub fn new(prompt: Prompt) -> (r: Self)
        ensures
            r.prompt == prompt,
            r.input@ == Seq::<char>::empty(),
            r.message is None,
    {
        MiniBuffer { prompt, input: String::new(), message: None }
    }

    /// A closed mini-buffer showing a message.
    pub fn message(text: &str) -> (r: Self)
        ensures
            r.prompt == Prompt::Command,
            r.input@ == Seq::<char>::empty(),
            r.message matches Some(m) && m@ == text@,
    {
        MiniBuffer { prompt: Prompt::Command, input: String::new(), message: Some(text.to_owned()) }
    }

    /// Whether this is taking keyboard input, as opposed to showing a result.
    pub fn is_open(&self) -> (r: bool)
        ensures
            r == self.message is None,
    {
        self.message.is_none()
    }

    /// Type a character.
    pub fn push(&mut self, c: char)
        ensures
            final(self).input@ == old(self).input@.push(c),
            final(self).prompt == old(self).prompt,
            final(self).message == old(self).message,
    {
        push_char(&mut self.input, c);
    }

    /// Delete the last character, reporting whether the line is now empty.
    pub fn backspace(&mut self) -> (r: bool)
        ensures
            final(self).input@ == (if old(self).input@.len() > 0 {
                old(self).input@.drop_last()
            } else {
                old(self).input@
            }),
            r == (final(self).input@.len() == 0),
            final(self).prompt == old(self).prompt,
            final(self).message == old(self).message,
    {
        let _ = pop_char(&mut self.input);
        self.input.as_str().unicode_len() == 0
    }

    /// Read the line.
    pub fn submit(&self) -> (r: Submission)
        ensures
            r@ == submission_of(self.prompt, self.input@),
    {
        let v = to_chars(self.input.as_str());
        let (lo, hi) = trim_range(&v);
        let line = string_from(&slice_of(&v, lo, hi));
        if lo == hi {
            return Submission::Nothing(String::new());
        }
        match self.prompt {
            Prompt::Lua => Submission::Lua(line),
            Prompt::Command => match Action::from_name(line.as_str()) {
                Some(action) => Submission::Action(action),
                None => {
                    let mut msg = String::new();
                    msg.append("not an action: ");
                    msg.append(line.as_str());
                    Submission::Nothing(msg)
                },
            },
        }
    }

    /// The text to draw: the prompt and what has been typed, or the message.
    pub fn display(&self) -> (r: String)
        ensures
            r@ == match self.message {
                Some(m) => m@,
                None => sigil_of(self.prompt) + self.input@,
            },
    {
        match &self.message {
            Some(msg) => msg.clone(),
            None => {
                let mut s = String::new();
                s.append(self.prompt.sigil());
                s.append(self.input.as_str());
                s
            },
        }
    }

    /// How many leading characters are the prompt sigil, so it can be drawn
    /// in the accent colour. Zero for a message.
    pub fn sigil_len(&self) -> (r: usize)
        ensures
            r == match self.message {
                Some(_) => 0,
                None => sigil_of(self.prompt).len(),
            },
    {
        match self.message {
            Some(_) => 0,
            None => {
                proof {
                    reveal_strlit(":");
                    reveal_strlit("=");
                }
                1
            },
        }
    }
}

/// The `:` prompt speaks the keymap's language: a line typed there
/// dispatches exactly the action a keybind naming that line would, and a
/// line no keybind could name dispatches nothing.
pub proof fn law_the_prompt_speaks_the_keymaps_language(line: Seq<char>)
    ensures
        action_named(line) matches Some(a) ==> submission_of(Prompt::Command, line)
            == SubmissionView::Action(a),
        action_named(line) is None ==> submission_of(Prompt::Command, line) is Nothing,
{
    lemma_trim_idempotent(line);
    assert(action_named(trim(line)) == action_named(line));
    if trim(line).len() == 0 {
        assert(trim(line) =~= Seq::<char>::empty());
        assert(action_named(line) is None) by {
            reveal_strlit("quit");
            reveal_strlit("cycle workspace");
            reveal_strlit("screenshot");
            reveal_strlit("toggle help");
            reveal_strlit("help");
            reveal_strlit("toggle whichkey");
            reveal_strlit("command");
            reveal_strlit("prompt");
            reveal_strlit("lua");
            reveal_strlit("eval");
            reveal_strlit("toggle floating");
            reveal_strlit("float");
            assert(normalize(trim(line)) =~= Seq::<char>::empty());
            assert(rfind(normalize(trim(line)), ' ') is None);
        }
    }
}

} // verus!
