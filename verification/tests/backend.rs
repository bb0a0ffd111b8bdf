use ruster::backend::{output_model, poll_timeout, RedrawGate, Servicing};

fn ms(n: u64) -> u64 {
    n * 1_000_000
}

#[test]
fn with_nothing_to_service_the_loop_blocks() {
    assert_eq!(poll_timeout(Servicing::default()), None);
}

#[test]
fn a_running_language_server_keeps_a_tick() {
    assert_eq!(
        poll_timeout(Servicing {
            lsp: true,
            ..Servicing::default()
        }),
        Some(ms(16))
    );
}

#[test]
fn a_half_typed_chord_has_to_be_able_to_expire() {
    assert_eq!(
        poll_timeout(Servicing {
            chord: true,
            ..Servicing::default()
        }),
        Some(ms(250)),
        "a chord that cannot time out leaves the overlay up and eats the \
         next key as part of the sequence"
    );
}

#[test]
fn a_deferred_action_wakes_the_loop_at_its_deadline() {
    assert_eq!(
        poll_timeout(Servicing {
            next_deferred: Some(ms(900)),
            ..Servicing::default()
        }),
        Some(ms(900))
    );
}

#[test]
fn the_soonest_deadline_wins() {
    assert_eq!(
        poll_timeout(Servicing {
            lsp: true,
            chord: true,
            next_deferred: Some(ms(900)),
        }),
        Some(ms(16))
    );
    assert_eq!(
        poll_timeout(Servicing {
            lsp: false,
            chord: true,
            next_deferred: Some(ms(5)),
        }),
        Some(ms(5)),
        "a defer due in 5ms must not wait out the 250ms chord tick"
    );
}

#[test]
fn an_overdue_deferred_action_yields_immediately() {
    assert_eq!(
        poll_timeout(Servicing {
            lsp: true,
            chord: true,
            next_deferred: Some(0),
        }),
        Some(0)
    );
}

#[test]
fn a_sub_millisecond_deadline_is_kept_to_the_nanosecond() {
    assert_eq!(
        poll_timeout(Servicing {
            lsp: true,
            chord: false,
            next_deferred: Some(15_999_999),
        }),
        Some(15_999_999)
    );
}

#[test]
fn an_invitation_is_consumed_by_taking_it() {
    let mut gate = RedrawGate::default();
    gate.request();
    assert!(gate.take(), "the invitation should let one frame through");
    assert!(!gate.take(), "a second frame without a second invitation is the stall");
}

#[test]
fn a_gate_that_was_never_invited_stays_shut() {
    assert!(!RedrawGate::default().take());
}

#[test]
fn invitations_do_not_accumulate() {
    let mut gate = RedrawGate::default();
    gate.request();
    gate.request();
    gate.request();
    assert!(gate.take());
    assert!(!gate.take());
}

#[test]
fn output_model_name_has_ruster_prefix() {
    assert_eq!(output_model("sda"), "ruster-drm-sda");
}

#[test]
fn output_model_prefixes_connector() {
    assert_eq!(output_model("eDP-1"), "ruster-drm-eDP-1");
}

use ruster::backend::pick_mode;

#[test]
fn the_preferred_mode_wins_and_the_first_stands_in_for_it() {
    assert_eq!(pick_mode(&[false, true, true]), Some(1));
    assert_eq!(pick_mode(&[false, false]), Some(0));
    assert_eq!(pick_mode(&[true]), Some(0));
    assert_eq!(pick_mode(&[]), None);
}
