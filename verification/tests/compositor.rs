use std::sync::atomic::{AtomicBool, Ordering};
use std::sync::Arc;

use ruster::compositor::{drm_error_hint, language_of, signal_action, SignalAction};

#[test]
fn a_second_signal_forces_the_exit_the_first_asked_for() {
    assert_eq!(signal_action(false), SignalAction::AskToStop);
    assert_eq!(signal_action(true), SignalAction::ForceExit);
}

#[test]
fn running_flag_defaults_true() {
    let running = Arc::new(AtomicBool::new(true));
    assert!(running.load(Ordering::Relaxed));
}

#[test]
fn error_hint_for_drm_failure_mentions_seatd() {
    let hint = drm_error_hint();
    assert!(hint.to_lowercase().contains("seatd") || hint.to_lowercase().contains("logind"));
}

#[test]
fn a_file_is_given_the_language_of_its_extension() {
    assert_eq!(language_of("/tmp/x/main.rs"), Some("rust"));
    assert_eq!(language_of("a/b/c.tsx"), Some("typescript"));
    assert_eq!(language_of("init.lua"), Some("lua"));
    assert_eq!(language_of("x.hpp"), Some("cpp"));
}

#[test]
fn a_file_nothing_speaks_has_no_language() {
    assert_eq!(language_of("notes.txt"), None);
    assert_eq!(language_of("Makefile"), None);
    assert_eq!(language_of(".rs"), None, "a dotfile named .rs has no extension");
    assert_eq!(language_of("main.RS"), None, "extensions are matched exactly");
}

use ruster::compositor::activation_workspace;
use ruster::persist::WindowId;

#[test]
fn activation_names_the_workspace_holding_the_window() {
    // A client on a workspace nobody is looking at asks to be seen, and the
    // answer is the workspace to switch to rather than "no". `here` sits on
    // the active workspace 1, `away` on workspace 4.
    let here = WindowId(1);
    let away = WindowId(2);
    let mapped = [here, away];
    assert_eq!(activation_workspace(&mapped, here, Some(1)), Some(1));
    assert_eq!(activation_workspace(&mapped, away, Some(4)), Some(4));
}

#[test]
fn activation_is_dropped_for_windows_that_cannot_be_shown() {
    // A window that has never committed a buffer has nothing to show and
    // cannot hold the keyboard.
    let unmapped = WindowId(7);
    assert_eq!(activation_workspace(&[], unmapped, Some(1)), None);
    // And a window no tree holds is already gone, mapped set or not.
    assert_eq!(activation_workspace(&[WindowId(9)], WindowId(9), None), None);
}

use ruster::compositor::{focusable, holds, keyboard_focus};

#[test]
fn the_keyboard_goes_only_to_a_window_on_screen_that_has_drawn() {
    let (client, pane, fresh, away) = (WindowId(1), WindowId(2), WindowId(3), WindowId(4));
    let mapped = [client, away];
    let panes = [pane];
    let visible = [client, pane, fresh];
    assert!(focusable(client, &mapped, &panes, &visible));
    assert!(focusable(pane, &mapped, &panes, &visible), "a pane has no buffer to wait for");
    assert!(!focusable(fresh, &mapped, &panes, &visible), "it has never drawn");
    assert!(!focusable(away, &mapped, &panes, &visible), "it is on another workspace");

    assert_eq!(keyboard_focus(Some(pane), Some(client), &mapped, &panes, &visible), Some(pane));
    assert_eq!(keyboard_focus(Some(fresh), Some(client), &mapped, &panes, &visible), Some(client));
    assert_eq!(keyboard_focus(None, Some(away), &mapped, &panes, &visible), None);
    assert_eq!(keyboard_focus(None, None, &mapped, &panes, &visible), None);
    assert!(holds(&visible, fresh) && !holds(&visible, away));
}

use ruster::compositor::focus_after_unmap;

#[test]
fn a_hidden_window_hands_the_keyboard_on() {
    let gone = WindowId(3);
    let shown = [WindowId(1), WindowId(2), gone];
    assert_eq!(
        focus_after_unmap(Some(WindowId(9)), &shown, gone),
        Some(WindowId(9)),
        "the tree's choice wins, a pane included"
    );
    assert_eq!(
        focus_after_unmap(Some(gone), &shown, gone),
        Some(WindowId(2)),
        "not the window going away: the newest one still shown"
    );
    assert_eq!(focus_after_unmap(None, &shown, gone), Some(WindowId(2)));
    assert_eq!(focus_after_unmap(None, &[gone], gone), None);
}
