use std::time::Instant;

use ruster::action::Action;
use ruster::bind::ModifiersState;
use ruster::input::{
    is_quit_keysym, vt_switch_target, KeyInput, KeyRoute, KeyRouter, KEYSYM_Q, SWITCH_VT_FIRST,
    SWITCH_VT_LAST,
};
use ruster::keymap::{Keymap, Resolved};

const F1: u32 = 0xffbe;
const F2: u32 = 0xffbf;
const F9: u32 = 0xffc6;
const F10: u32 = 0xffc7;
const TAB: u32 = 0xff09;
const NO_SYMBOL: u32 = 0;
const KEY_A: u32 = 0x61;
const KEY_T: u32 = 0x74;

fn logo_shift() -> ModifiersState {
    ModifiersState { logo: true, shift: true, ..Default::default() }
}

fn logo() -> ModifiersState {
    ModifiersState { logo: true, ..Default::default() }
}

fn key(keycode: u32, pressed: bool, sym: u32, name: &str, mods: ModifiersState) -> KeyInput {
    KeyInput { keycode, pressed, raw: sym, modified: sym, name: name.to_string(), mods }
}

fn binds(pairs: &[(&str, &str)]) -> Keymap {
    let v: Vec<(String, String)> = pairs.iter().map(|(b, a)| (b.to_string(), a.to_string())).collect();
    Keymap::new(&v)
}

fn resolve_one(pairs: &[(&str, &str)], mods: &ModifiersState, name: &str) -> Option<Action> {
    match binds(pairs).resolve(&[], mods, name) {
        Resolved::Action(action) => Some(action),
        _ => None,
    }
}

fn route(router: &mut KeyRouter, keymap: &Keymap, input: &KeyInput, pane: bool) -> KeyRoute {
    router.route(keymap, input, false, pane, Instant::now())
}

#[test]
fn super_shift_q_through_the_seat_stops_the_compositor() {
    let keymap = binds(&[("M-S-q", "quit"), ("M-t", "cycle workspace")]);
    let mut router = KeyRouter::new();
    let r = route(&mut router, &keymap, &key(16, true, KEYSYM_Q, "q", logo_shift()), false);
    assert_eq!(r, KeyRoute::Dispatch(Action::Quit));
}

#[test]
fn super_t_through_the_seat_cycles_the_workspace_without_quitting() {
    let keymap = binds(&[("M-S-q", "quit"), ("M-t", "cycle workspace")]);
    let mut router = KeyRouter::new();
    assert_eq!(
        route(&mut router, &keymap, &key(20, true, KEY_T, "t", logo()), false),
        KeyRoute::Dispatch(Action::CycleWorkspace)
    );
    assert_eq!(route(&mut router, &keymap, &key(20, false, KEY_T, "t", logo()), false), KeyRoute::Swallow);
}

#[test]
fn unbound_key_is_forwarded_and_changes_nothing() {
    let keymap = binds(&[("M-S-q", "quit"), ("M-t", "cycle workspace")]);
    let mut router = KeyRouter::new();
    assert_eq!(route(&mut router, &keymap, &key(30, true, KEY_A, "a", logo()), false), KeyRoute::Forward);
    assert_eq!(route(&mut router, &keymap, &key(30, false, KEY_A, "a", logo()), false), KeyRoute::Forward);
    assert!(!router.chord_state().is_active());
}

#[test]
fn q_without_the_modifiers_is_not_the_quit_binding() {
    let keymap = binds(&[("M-S-q", "quit")]);
    let mut router = KeyRouter::new();
    let plain = ModifiersState::default();
    assert_eq!(route(&mut router, &keymap, &key(16, true, KEYSYM_Q, "q", plain), false), KeyRoute::Forward);
    assert_eq!(route(&mut router, &keymap, &key(16, false, KEYSYM_Q, "q", plain), false), KeyRoute::Forward);
}

#[test]
fn keysym_quit_binding_recognized() {
    assert!(is_quit_keysym(KEYSYM_Q, &logo_shift()));
    assert!(!is_quit_keysym(KEYSYM_Q, &logo()));
    assert!(!is_quit_keysym(KEY_T, &logo_shift()));
}

#[test]
fn ctrl_alt_f2_through_the_seat_asks_for_the_vt() {
    let keymap = binds(&[]);
    let mut router = KeyRouter::new();
    let ctrl_alt = ModifiersState { ctrl: true, alt: true, ..Default::default() };
    let input = KeyInput {
        keycode: 60,
        pressed: true,
        raw: F2,
        modified: SWITCH_VT_FIRST + 1,
        name: "F2".into(),
        mods: ctrl_alt,
    };
    assert_eq!(route(&mut router, &keymap, &input, false), KeyRoute::SwitchVt(2));
    let prompt = router.route(&keymap, &input, true, true, Instant::now());
    assert_eq!(prompt, KeyRoute::SwitchVt(2), "not even an open prompt keeps the escape hatch shut");
}

#[test]
fn f2_on_its_own_is_not_a_vt_switch() {
    let keymap = binds(&[]);
    let mut router = KeyRouter::new();
    let r = route(&mut router, &keymap, &key(60, true, F2, "F2", ModifiersState::default()), false);
    assert_eq!(r, KeyRoute::Forward);
}

#[test]
fn vt_switch_keysyms_map_to_their_terminal() {
    assert_eq!(vt_switch_target(SWITCH_VT_FIRST), Some(1));
    assert_eq!(vt_switch_target(SWITCH_VT_FIRST + 2), Some(3));
    assert_eq!(vt_switch_target(SWITCH_VT_LAST), Some(12));
    assert_eq!(vt_switch_target(KEYSYM_Q), None);
    assert_eq!(vt_switch_target(F1), None);
    assert_eq!(vt_switch_target(NO_SYMBOL), None);
    assert_eq!(vt_switch_target(SWITCH_VT_LAST + 1), None);
}

#[test]
fn the_quit_hatch_still_fires_while_an_editor_pane_has_focus() {
    let keymap = binds(&[("M-t", "cycle workspace")]);
    let mut router = KeyRouter::new();
    let r = route(&mut router, &keymap, &key(16, true, KEYSYM_Q, "q", logo_shift()), true);
    assert_eq!(r, KeyRoute::Dispatch(Action::Quit));
}

#[test]
fn a_pane_receives_the_keys_the_keymap_does_not_claim() {
    let keymap = binds(&[("M-t", "cycle workspace")]);
    let mut router = KeyRouter::new();
    let plain = ModifiersState::default();
    assert_eq!(route(&mut router, &keymap, &key(30, true, KEY_A, "a", plain), true), KeyRoute::Pane);
    assert_eq!(
        route(&mut router, &keymap, &key(30, false, KEY_A, "a", plain), true),
        KeyRoute::Swallow,
        "and its release, which the client never saw the press of"
    );
}

#[test]
fn an_open_prompt_takes_every_key_before_the_keymap() {
    let keymap = binds(&[("M-S-q", "quit")]);
    let mut router = KeyRouter::new();
    let press = key(16, true, KEYSYM_Q, "q", logo_shift());
    assert_eq!(router.route(&keymap, &press, true, false, Instant::now()), KeyRoute::Overlay);
    let release = key(16, false, KEYSYM_Q, "q", logo_shift());
    assert_eq!(router.route(&keymap, &release, false, false, Instant::now()), KeyRoute::Swallow);
}

#[test]
fn a_sequence_is_typed_a_chord_at_a_time() {
    let keymap = binds(&[("M-w h", "focus left"), ("M-w l", "focus right")]);
    let mut router = KeyRouter::new();
    assert_eq!(route(&mut router, &keymap, &key(17, true, 0x77, "w", logo()), false), KeyRoute::Pending);
    assert_eq!(router.chord_state().pending(), &["M-w".to_string()]);
    let plain = ModifiersState::default();
    assert_eq!(
        route(&mut router, &keymap, &key(35, true, 0x68, "h", plain), false),
        KeyRoute::Dispatch(Action::Focus(ruster::action::Direction::Left))
    );
    assert!(!router.chord_state().is_active());
}

#[test]
fn a_key_that_continues_nothing_abandons_the_sequence() {
    let keymap = binds(&[("M-w h", "focus left")]);
    let mut router = KeyRouter::new();
    assert_eq!(route(&mut router, &keymap, &key(17, true, 0x77, "w", logo()), false), KeyRoute::Pending);
    let plain = ModifiersState::default();
    assert_eq!(route(&mut router, &keymap, &key(45, true, 0x78, "x", plain), false), KeyRoute::Abandon);
    assert!(!router.chord_state().is_active());
    assert_eq!(route(&mut router, &keymap, &key(45, false, 0x78, "x", plain), false), KeyRoute::Swallow);
}

#[test]
fn the_quit_hatch_does_not_hijack_a_half_typed_sequence() {
    let keymap = binds(&[("M-w h", "focus left")]);
    let mut router = KeyRouter::new();
    assert_eq!(route(&mut router, &keymap, &key(17, true, 0x77, "w", logo()), false), KeyRoute::Pending);
    assert_eq!(route(&mut router, &keymap, &key(16, true, KEYSYM_Q, "q", logo_shift()), false), KeyRoute::Abandon);
}

#[test]
fn quit_is_recognised_whatever_the_config_says() {
    assert!(is_quit_keysym(KEYSYM_Q, &logo_shift()));
    assert_eq!(resolve_one(&[("M-S-x", "quit")], &logo_shift(), "q"), None);
    let keymap = binds(&[("M-S-x", "quit")]);
    let mut router = KeyRouter::new();
    assert_eq!(
        route(&mut router, &keymap, &key(16, true, KEYSYM_Q, "q", logo_shift()), false),
        KeyRoute::Dispatch(Action::Quit)
    );
}

#[test]
fn a_rebound_key_no_longer_does_what_it_used_to() {
    assert_eq!(resolve_one(&[("M-t", "screenshot")], &logo(), "t"), Some(Action::Screenshot));
    assert_eq!(resolve_one(&[], &logo(), "t"), None);
}

#[test]
fn resolve_quit_and_cycle_from_configured_keybinds() {
    let pairs = [("M-S-q", "quit"), ("M-t", "cycle workspace")];
    assert_eq!(resolve_one(&pairs, &logo_shift(), "q"), Some(Action::Quit));
    assert_eq!(resolve_one(&pairs, &logo(), "t"), Some(Action::CycleWorkspace));
}

#[test]
fn a_config_can_bind_its_own_key_to_its_own_action() {
    let pairs = [("M-F9", "cycle workspace"), ("C-A-F10", "quit")];
    assert_eq!(resolve_one(&pairs, &logo(), "F9"), Some(Action::CycleWorkspace));
    let ctrl_alt = ModifiersState { ctrl: true, alt: true, ..Default::default() };
    assert_eq!(resolve_one(&pairs, &ctrl_alt, "F10"), Some(Action::Quit));
    assert_eq!(resolve_one(&[("M-F9", "explode")], &logo(), "F9"), None);
    let _ = (F9, F10);
}

#[test]
fn resolve_falls_back_to_defaults_when_unbound() {
    let pairs = [("M-S-q", "quit")];
    assert_eq!(resolve_one(&pairs, &logo(), "Tab"), None);
    assert_eq!(resolve_one(&pairs, &logo(), "NoSymbol"), None);
    let _ = (TAB, NO_SYMBOL);
}

#[test]
fn the_quit_hatch_cannot_be_configured_away() {
    // Whatever the config binds to Super+Shift+q, a fresh press quits.
    let keymap = binds(&[("M-S-q", "cycle workspace")]);
    let mut router = KeyRouter::new();
    assert_eq!(
        route(&mut router, &keymap, &key(16, true, KEYSYM_Q, "q", logo_shift()), true),
        KeyRoute::Dispatch(Action::Quit)
    );
    let keymap = binds(&[("M-S-q x", "screenshot")]);
    let mut router = KeyRouter::new();
    assert_eq!(
        route(&mut router, &keymap, &key(16, true, KEYSYM_Q, "q", logo_shift()), false),
        KeyRoute::Dispatch(Action::Quit),
        "not even as the start of a longer binding"
    );
    assert!(!router.chord_state().is_active());
}

#[test]
fn an_abandoned_prefix_stops_eating_keys() {
    let keymap = binds(&[("M-w h", "focus left")]);
    let mut router = KeyRouter::new();
    assert_eq!(route(&mut router, &keymap, &key(17, true, 0x77, "w", logo()), false), KeyRoute::Pending);
    let plain = ModifiersState::default();
    let later = Instant::now() + std::time::Duration::from_secs(2);
    assert_eq!(
        router.route(&keymap, &key(35, true, 0x68, "h", plain), false, false, later),
        KeyRoute::Forward,
        "after the timeout, h is a fresh key for the client"
    );
    assert!(!router.chord_state().is_active());
}
