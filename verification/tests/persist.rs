use std::collections::HashMap;

use ruster::persist::{ancestor_in, parse_ppid, Restore, WindowId};

fn stat(pid: u32, comm: &str, ppid: u32) -> String {
    format!("{pid} ({comm}) S {ppid} {pid} {pid} 0 -1 4194304 1234 0 0 0\n")
}

#[test]
fn the_parent_is_read_from_the_field_after_the_command_name() {
    assert_eq!(parse_ppid(&stat(1234, "foot", 42)), Some(42));
    assert_eq!(parse_ppid(&stat(1, "systemd", 0)), Some(0));
}

#[test]
fn a_command_name_with_spaces_and_brackets_in_it_still_reads() {
    assert_eq!(parse_ppid(&stat(7, "Web Content", 3)), Some(3));
    assert_eq!(parse_ppid(&stat(7, "a (b) c", 3)), Some(3));
    assert_eq!(parse_ppid("garbage with no brackets"), None);
    assert_eq!(parse_ppid("7 (foot) S"), None, "truncated");
}

fn tree() -> HashMap<u32, u32> {
    HashMap::from([(300, 200), (200, 100), (100, 1), (900, 1)])
}

fn known() -> HashMap<u32, &'static str> {
    HashMap::from([(100, "sh -c foot")])
}

#[test]
fn a_client_below_the_process_we_spawned_is_still_ours() {
    let (parents, known) = (tree(), known());
    let found = ancestor_in(300, &known, |pid| parents.get(&pid).copied());
    assert_eq!(found, Some(&"sh -c foot"));
}

#[test]
fn a_client_we_did_not_spawn_is_nobodys() {
    let (parents, known) = (tree(), known());
    assert_eq!(ancestor_in(900, &known, |pid| parents.get(&pid).copied()), None);
    assert_eq!(ancestor_in(300, &known, |_| None), None, "and a chain that cannot be walked at all");
}

fn restore() -> Restore {
    Restore { pending: HashMap::from([(100, 0), (900, 1)]), claimed: HashMap::new() }
}

#[test]
fn a_relaunched_client_claims_the_leaf_it_was_launched_for() {
    let parents = tree();
    let mut restore = restore();
    assert!(restore.claim(300, WindowId(1), |pid| parents.get(&pid).copied()));
    assert_eq!(restore.claimed.get(&0), Some(&WindowId(1)));
    assert!(!restore.is_complete(), "one of the two is still out");

    assert!(restore.claim(900, WindowId(2), |_| None));
    assert!(restore.is_complete());
}

#[test]
fn a_second_window_from_the_same_client_does_not_take_the_slot() {
    let mut restore = restore();
    assert!(restore.claim(100, WindowId(1), |_| None));
    assert!(!restore.claim(100, WindowId(2), |_| None));
    assert_eq!(restore.claimed.get(&0), Some(&WindowId(1)));
    assert_eq!(restore.claimed.len(), 1);
}

#[test]
fn a_window_the_session_was_not_waiting_for_claims_nothing() {
    let mut restore = restore();
    assert!(!restore.claim(555, WindowId(1), |_| None));
    assert!(restore.claimed.is_empty());
}

#[test]
fn a_cycle_in_the_process_tree_does_not_hang_the_compositor() {
    assert_eq!(ancestor_in(1, &known(), Some), None);
    assert_eq!(ancestor_in(1, &known(), |pid| Some(pid + 1)), None);
}

#[test]
fn the_walk_gives_up_sixteen_processes_up() {
    let known: HashMap<u32, &str> = HashMap::from([(16, "far"), (15, "near")]);
    assert_eq!(ancestor_in(0, &known, |pid| Some(pid + 1)), Some(&"near"));
    let known: HashMap<u32, &str> = HashMap::from([(16, "far")]);
    assert_eq!(ancestor_in(0, &known, |pid| Some(pid + 1)), None);
}

#[test]
fn a_ppid_too_large_for_a_pid_is_not_a_parent() {
    assert_eq!(parse_ppid("7 (x) S 4294967296 1"), None);
    assert_eq!(parse_ppid("7 (x) S 4294967295 1"), Some(4294967295));
    assert_eq!(parse_ppid("7 (x) S -1 1"), None);
}

use ruster::persist::{restore_step, RestoreStep, SavedApp};

#[test]
fn a_pane_is_recreated_and_a_window_relaunched_or_left_out() {
    assert_eq!(restore_step(&SavedApp::pane("scratch".to_string())), RestoreStep::Pane);
    assert_eq!(
        restore_step(&SavedApp::window(Some("foot".to_string()), "foot".to_string())),
        RestoreStep::Relaunch("foot".to_string())
    );
    assert_eq!(
        restore_step(&SavedApp::window(None, "someone else's".to_string())),
        RestoreStep::Skip,
        "a window the compositor did not start has nothing to relaunch"
    );
    let pane = SavedApp::pane("notes".to_string());
    assert!(pane.pane && pane.command.is_none());
}

#[test]
fn a_restore_waits_for_what_it_relaunched_and_starts_with_its_panes() {
    let r = Restore::new(&[(100, 0), (200, 2)], &[(1, WindowId(5))]);
    assert_eq!(r.pending.get(&100), Some(&0));
    assert_eq!(r.pending.get(&200), Some(&2));
    assert_eq!(r.claimed.get(&1), Some(&WindowId(5)));
    assert!(!r.is_immediate());
    assert!(!r.is_complete());

    let panes_only = Restore::new(&[], &[(0, WindowId(1)), (1, WindowId(2))]);
    assert!(panes_only.is_immediate(), "nothing relaunched, nothing to wait for");
    assert!(panes_only.is_complete());

    let again = Restore::new(&[(7, 0), (7, 3)], &[]);
    assert_eq!(again.pending.get(&7), Some(&3), "the later pairing for a pid wins");
    assert_eq!(again.pending.len(), 1);
}
