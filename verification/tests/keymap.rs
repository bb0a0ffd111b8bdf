use std::time::{Duration, Instant};

use ruster::action::{Action, Direction};
use ruster::bind::ModifiersState;
use ruster::keymap::{
    chord_timed_out, whichkey_view, ChordState, Keymap, Resolved, CHORD_TIMEOUT_MS,
};

fn logo() -> ModifiersState {
    ModifiersState { logo: true, ..Default::default() }
}

fn plain() -> ModifiersState {
    ModifiersState::default()
}

fn binds(pairs: &[(&str, &str)]) -> Vec<(String, String)> {
    pairs.iter().map(|(b, a)| (b.to_string(), a.to_string())).collect()
}

#[test]
fn a_single_chord_binding_still_fires_directly() {
    let km = Keymap::new(&binds(&[("M-h", "focus left")]));
    assert_eq!(km.resolve(&[], &logo(), "h"), Resolved::Action(Action::Focus(Direction::Left)));
}

#[test]
fn a_sequence_waits_for_its_second_key() {
    let km = Keymap::new(&binds(&[("M-w h", "focus left")]));
    assert_eq!(km.resolve(&[], &logo(), "w"), Resolved::Pending);
    assert_eq!(
        km.resolve(&["M-w".to_string()], &plain(), "h"),
        Resolved::Action(Action::Focus(Direction::Left))
    );
}

#[test]
fn a_key_that_continues_nothing_belongs_to_the_client() {
    let km = Keymap::new(&binds(&[("M-w h", "focus left")]));
    assert_eq!(km.resolve(&[], &plain(), "x"), Resolved::Unbound);
    assert_eq!(km.resolve(&["M-w".to_string()], &plain(), "x"), Resolved::Unbound);
}

#[test]
fn a_complete_binding_beats_a_longer_one_sharing_its_prefix() {
    let km = Keymap::new(&binds(&[("M-w", "quit"), ("M-w h", "focus left")]));
    assert_eq!(km.resolve(&[], &logo(), "w"), Resolved::Action(Action::Quit));
}

#[test]
fn continuations_describe_groups_as_groups() {
    let km = Keymap::new(&binds(&[
        ("M-w h", "focus left"),
        ("M-w l", "focus right"),
        ("M-q", "quit"),
    ]));
    let root = km.continuations(&[]);
    let group = root.iter().find(|r| r.key == "M-w").unwrap();
    assert_eq!(group.desc, "+h");
    let leaf = root.iter().find(|r| r.key == "M-q").unwrap();
    assert_eq!(leaf.desc, "quit");

    let inner = km.continuations(&["M-w".to_string()]);
    assert_eq!(inner.len(), 2);
    assert_eq!(inner[0].desc, "focus left");
}

#[test]
fn the_overlay_only_appears_once_something_is_pending() {
    let km = Keymap::new(&binds(&[("M-w h", "focus left")]));
    let mut chord = ChordState::default();
    assert!(whichkey_view(&km, &chord).is_none());
    chord.push("M-w".to_string());
    let view = whichkey_view(&km, &chord).expect("a prefix should raise the overlay");
    assert_eq!(view.title, "M-w");
    assert_eq!(view.rows.len(), 1);
}

#[test]
fn a_pending_sequence_times_out_rather_than_eating_the_next_key() {
    let timeout = Duration::from_millis(CHORD_TIMEOUT_MS);
    let mut chord = ChordState::default();
    chord.push("M-w".to_string());
    assert!(!chord.expire(Instant::now()), "not yet");
    assert!(chord.is_active());
    assert!(chord.expire(Instant::now() + timeout));
    assert!(!chord.is_active());
    assert!(!chord.expire(Instant::now() + timeout * 10));
}

#[test]
fn an_empty_binding_string_is_dropped_rather_than_matching_everything() {
    let km = Keymap::new(&binds(&[("", "quit"), ("   ", "quit")]));
    assert_eq!(km.resolve(&[], &logo(), "q"), Resolved::Unbound);
    assert!(km.continuations(&[]).is_empty());
}

#[test]
fn the_first_of_two_bindings_for_one_chord_wins() {
    let km = Keymap::new(&binds(&[("M-q", "quit"), ("M-q", "cycle workspace")]));
    assert_eq!(km.resolve(&[], &logo(), "q"), Resolved::Action(Action::Quit));
}

#[test]
fn a_binding_to_a_name_that_is_no_action_does_not_fire() {
    let km = Keymap::new(&binds(&[("M-q", "explode"), ("M-q", "quit")]));
    assert_eq!(km.resolve(&[], &logo(), "q"), Resolved::Action(Action::Quit));
}

#[test]
fn the_chords_of_a_binding_are_found_by_its_action() {
    let km = Keymap::new(&binds(&[("M-w  h", "focus left"), ("M-q", "quit")]));
    assert_eq!(km.binding_for("focus left").as_deref(), Some("M-w h"));
    assert_eq!(km.binding_for("quit").as_deref(), Some("M-q"));
    assert_eq!(km.binding_for("screenshot"), None);
}

#[test]
fn clearing_forgets_the_sequence() {
    let mut chord = ChordState::default();
    chord.push("M-w".to_string());
    chord.push("h".to_string());
    assert_eq!(chord.pending(), &["M-w".to_string(), "h".to_string()]);
    chord.clear();
    assert!(!chord.is_active());
    assert!(chord.pending().is_empty());
}

#[test]
fn the_chord_timeout_is_a_second_to_the_nanosecond() {
    assert!(!chord_timed_out(999_999_999));
    assert!(chord_timed_out(1_000_000_000));
}

#[test]
fn a_binding_the_keyboard_does_not_have_is_never_advertised() {
    // An earlier bind on the same chord shadows the later one.
    let km = Keymap::new(&binds(&[("M-q", "cycle workspace"), ("M-q", "quit"), ("M-S-x", "quit")]));
    assert_eq!(km.binding_for("quit").as_deref(), Some("M-S-x"));
    let km = Keymap::new(&binds(&[("M-q", "cycle workspace"), ("M-q", "quit")]));
    assert_eq!(km.binding_for("quit"), None);
    // A name that is no action runs nothing.
    let km = Keymap::new(&binds(&[("M-e", "explode")]));
    assert_eq!(km.binding_for("explode"), None);
    // A chord that no key press makes.
    let km = Keymap::new(&binds(&[("X-q", "quit")]));
    assert_eq!(km.binding_for("quit"), None);
    // A shorter bind completing on the way shadows a longer one.
    let km = Keymap::new(&binds(&[("M-w", "screenshot"), ("M-w h", "focus left")]));
    assert_eq!(km.binding_for("focus left"), None);
    assert_eq!(km.binding_for("screenshot").as_deref(), Some("M-w"));
}

#[test]
fn each_chord_restarts_the_timeout() {
    let t0 = Instant::now();
    let ms = Duration::from_millis;
    let mut chord = ChordState::default();
    chord.push_at("M-w".to_string(), t0);
    assert!(!chord.expire(t0 + ms(999)));
    // A second chord half a second later: the timeout now runs from there.
    chord.push_at("g".to_string(), t0 + ms(500));
    assert!(!chord.expire(t0 + ms(1200)), "a second after the first chord, not the last");
    assert!(chord.is_active());
    assert!(chord.expire(t0 + ms(1500)));
    assert!(!chord.is_active());
}
