use ruster::action::{Action, Direction};
use ruster::minibuffer::{MiniBuffer, Prompt, Submission};

fn typed(prompt: Prompt, text: &str) -> MiniBuffer {
    let mut mb = MiniBuffer::new(prompt);
    for c in text.chars() {
        mb.push(c);
    }
    mb
}

#[test]
fn a_command_line_resolves_to_the_same_action_a_keybind_would() {
    let mb = typed(Prompt::Command, "focus left");
    assert_eq!(mb.submit(), Submission::Action(Action::Focus(Direction::Left)));
}

#[test]
fn a_line_that_is_not_an_action_says_so() {
    let mb = typed(Prompt::Command, "frobnicate");
    assert_eq!(mb.submit(), Submission::Nothing("not an action: frobnicate".into()));
}

#[test]
fn the_lua_prompt_hands_its_line_over_verbatim() {
    let mb = typed(Prompt::Lua, r#"ruster.wm.focus("Left")"#);
    assert_eq!(mb.submit(), Submission::Lua(r#"ruster.wm.focus("Left")"#.into()));
}

#[test]
fn an_empty_line_does_nothing_quietly() {
    let mb = MiniBuffer::new(Prompt::Command);
    assert_eq!(mb.submit(), Submission::Nothing(String::new()));
    let mut spaces = MiniBuffer::new(Prompt::Command);
    spaces.push(' ');
    assert_eq!(spaces.submit(), Submission::Nothing(String::new()));
}

#[test]
fn backspacing_past_the_start_reports_that_it_closed() {
    let mut mb = MiniBuffer::new(Prompt::Command);
    mb.push('q');
    mb.push('a');
    assert!(!mb.backspace(), "still has a character");
    assert!(mb.backspace(), "the last one empties it");
}

#[test]
fn the_sigil_is_measured_so_it_can_be_coloured_separately() {
    let mut mb = MiniBuffer::new(Prompt::Command);
    mb.push('q');
    assert_eq!(mb.display(), ":q");
    assert_eq!(mb.sigil_len(), 1);

    let msg = MiniBuffer::message("not an action: frobnicate");
    assert_eq!(msg.display(), "not an action: frobnicate");
    assert_eq!(msg.sigil_len(), 0);
    assert!(!msg.is_open(), "a message is not taking input");
}

#[test]
fn each_prompt_shows_its_own_sigil() {
    assert_eq!(Prompt::Command.sigil(), ":");
    assert_eq!(Prompt::Lua.sigil(), "=");
    let mb = typed(Prompt::Lua, "1");
    assert_eq!(mb.display(), "=1");
    assert!(mb.is_open());
}

#[test]
fn a_lua_line_of_only_spaces_is_nothing() {
    let mb = typed(Prompt::Lua, "   ");
    assert_eq!(mb.submit(), Submission::Nothing(String::new()));
}

#[test]
fn a_command_line_is_trimmed_before_it_is_read() {
    let mb = typed(Prompt::Command, "  quit  ");
    assert_eq!(mb.submit(), Submission::Action(Action::Quit));
}
