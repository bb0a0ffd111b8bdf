use ruster::repeat::{repeat_delay_ms, repeats, Repeater};

const SHIFT_L: u32 = 0xffe1;
const CONTROL_L: u32 = 0xffe3;
const SUPER_L: u32 = 0xffeb;
const KEY_A: u32 = 0x61;

#[test]
fn a_modifier_is_never_a_repeating_key() {
    for raw in [SHIFT_L, CONTROL_L, SUPER_L, 0xff7f, 0xfe03] {
        assert!(!repeats(raw), "{raw:#x} must not repeat");
    }
    assert!(repeats(KEY_A));
}

#[test]
fn releasing_a_key_stops_it_repeating() {
    let mut r: Repeater<&str> = Repeater::new();
    let id = r.hold(30, "q", true, Some(40_000_000)).expect("armed");
    assert!(r.is_repeating(), "a held key should be repeating");
    assert_eq!(r.fire(id), Some((&"q", 40_000_000)));
    r.release(30);
    assert!(!r.is_repeating(), "releasing it must stop the repeat");
    assert_eq!(r.fire(id), None);
}

#[test]
fn a_modifier_going_up_does_not_stop_the_letter() {
    let mut r: Repeater<&str> = Repeater::new();
    let id = r.hold(30, "a", true, Some(40_000_000)).unwrap();
    r.release(42);
    assert_eq!(r.fire(id), Some((&"a", 40_000_000)));
}

#[test]
fn a_second_press_takes_over_the_repeat() {
    let mut r: Repeater<&str> = Repeater::new();
    let first = r.hold(36, "j", true, Some(40_000_000)).unwrap();
    let second = r.hold(37, "k", true, Some(40_000_000)).unwrap();
    assert_ne!(first, second);
    assert_eq!(r.fire(first), None, "the timer for j is stale");
    assert_eq!(r.fire(second), Some((&"k", 40_000_000)));
    r.release(36);
    assert!(r.is_repeating(), "letting go of j does not stop k");
}

#[test]
fn a_press_that_does_not_repeat_still_stops_the_one_before() {
    let mut r: Repeater<&str> = Repeater::new();
    let id = r.hold(36, "j", true, Some(40_000_000)).unwrap();
    assert_eq!(r.hold(42, "shift", false, Some(40_000_000)), None);
    assert!(!r.is_repeating());
    assert_eq!(r.fire(id), None);
    assert_eq!(r.hold(36, "j", true, None), None, "repeat turned off");
    r.hold(36, "j", true, Some(40_000_000)).unwrap();
    r.cancel();
    assert!(!r.is_repeating());
}

#[test]
fn a_negative_delay_starts_repeating_at_once() {
    assert_eq!(repeat_delay_ms(200), 200);
    assert_eq!(repeat_delay_ms(-5), 0);
}

use ruster::bind::ModifiersState;
use ruster::overlay::EditorKey;
use ruster::persist::WindowId;
use ruster::repeat::RepeatTarget;

#[test]
fn a_repeat_does_not_outlive_the_pane_it_was_aimed_at() {
    // A pane that loses focus is no longer listening, and delivering to it
    // anyway would type into whatever replaced it.
    let pane = WindowId(1);
    let target = RepeatTarget::Pane { window: pane, key: EditorKey::Char('q') };
    let mut repeater: Repeater<RepeatTarget> = Repeater::new();
    assert!(repeater.hold(16, target, target.repeats(), Some(40_000_000)).is_some());
    assert!(repeater.is_repeating());
    assert!(target.still_aimed(Some(pane), true, false));

    // Focus moves elsewhere; the repeat has nothing left to deliver to.
    assert!(
        !target.still_aimed(None, true, false),
        "delivery must refuse once the target is gone"
    );
    assert!(!target.still_aimed(Some(WindowId(2)), true, false));
    assert!(!target.still_aimed(Some(pane), false, false), "nor to a pane that was closed");
}

#[test]
fn an_overlay_repeat_lasts_as_long_as_an_overlay_is_open() {
    let target = RepeatTarget::Overlay { raw: KEY_A, typed: Some('a'), mods: ModifiersState::default() };
    assert!(target.repeats());
    assert!(target.still_aimed(None, false, true));
    assert!(!target.still_aimed(Some(WindowId(1)), true, false));
    let shift = RepeatTarget::Overlay { raw: SHIFT_L, typed: None, mods: ModifiersState::default() };
    assert!(!shift.repeats(), "a modifier held in the prompt does not repeat");
}
