use ruster::action::{Action, Direction};
use ruster::config::{
    build_command, merge_config_table, merge_keyboard, ConfigTable, KeyboardConfig, KeyboardFields,
    LuaShell, WmControl, WmStatus,
};

#[test]
fn focus_is_a_real_call_now_rather_than_a_warning() {
    let mut wm = WmControl::new();
    assert!(wm.focus("left"));
    assert_eq!(wm.take_actions(), vec![Action::Focus(Direction::Left)]);
}

#[test]
fn queued_actions_come_back_in_the_order_they_were_made() {
    let mut wm = WmControl::new();
    assert!(wm.focus("right"));
    assert!(wm.action("swap left"));
    assert!(wm.spawn("foot -e htop"));
    wm.quit();
    assert_eq!(
        wm.take_actions(),
        vec![
            Action::Focus(Direction::Right),
            Action::Swap(Direction::Left),
            Action::Spawn("foot -e htop".into()),
            Action::Quit,
        ]
    );
}

#[test]
fn draining_the_queue_empties_it() {
    let mut wm = WmControl::new();
    wm.quit();
    assert_eq!(wm.take_actions().len(), 1);
    assert!(wm.take_actions().is_empty());
}

#[test]
fn a_bad_call_is_reported_to_the_script_and_queues_nothing() {
    let mut wm = WmControl::new();
    assert!(!wm.focus("sideways"));
    assert!(!wm.action("frobnicate"));
    assert!(!wm.spawn("   "));
    assert!(wm.take_actions().is_empty());
}

#[test]
fn status_reports_what_the_compositor_last_published() {
    let mut wm = WmControl::new();
    let status = WmStatus {
        workspace: 4,
        windows: 3,
        focused_title: "foot".into(),
        floating: true,
        layout: Some("vertical".into()),
    };
    wm.publish(status.clone());
    assert_eq!(wm.current_status(), &status);
}

#[test]
fn switching_workspace_works_from_a_config_and_at_runtime() {
    let mut wm = WmControl::new();
    wm.switch_workspace(4);
    assert_eq!(wm.recorded().initial_workspace, Some(4));
    assert_eq!(wm.take_actions(), vec![Action::Workspace(4)]);
}

#[test]
fn an_out_of_range_workspace_is_ignored_not_clamped() {
    for (ws, want) in [(20, None), (0, None), (9, Some(9))] {
        let mut wm = WmControl::new();
        wm.switch_workspace(ws);
        assert_eq!(wm.recorded().initial_workspace, want);
        assert_eq!(wm.take_actions().len(), want.iter().count());
    }
}

#[test]
fn wm_api_records_binds_clients_and_workspace() {
    let mut wm = WmControl::new();
    wm.set_keybind("M-S-q".into(), "quit".into());
    wm.set_keybind("M-F9".into(), "cycle workspace".into());
    wm.launch_client("foot".into());
    wm.switch_workspace(3);
    let shell = wm.recorded();
    assert_eq!(
        shell.keybinds,
        vec![("M-S-q".into(), "quit".into()), ("M-F9".into(), "cycle workspace".into())]
    );
    assert_eq!(shell.startup_clients, vec!["foot".to_string()]);
    assert_eq!(shell.initial_workspace, Some(3));
}

#[test]
fn focus_is_callable_but_inert() {
    let mut wm = WmControl::new();
    assert!(wm.focus("left"));
    let shell = wm.recorded();
    assert!(shell.keybinds.is_empty());
    assert!(shell.startup_clients.is_empty());
    assert_eq!(shell.initial_workspace, None);
}

#[test]
fn a_spawn_is_trimmed_but_otherwise_kept_as_written() {
    let mut wm = WmControl::new();
    assert!(wm.spawn("  Discord-canary --x_y  "));
    assert_eq!(wm.take_actions(), vec![Action::Spawn("Discord-canary --x_y".into())]);
}

#[test]
fn the_minibuffer_can_run_anything_the_config_could() {
    let mut wm = WmControl::new();
    assert!(wm.action("workspace 7"));
    assert_eq!(wm.take_actions(), vec![Action::Workspace(7)]);
}

#[test]
fn api_calls_and_a_returned_table_accumulate() {
    let mut wm = WmControl::new();
    wm.launch_client("foot".into());
    let mut shell = wm.recorded().clone();
    merge_config_table(
        &mut shell,
        ConfigTable { startup_clients: vec!["weston-terminal".into()], ..Default::default() },
    );
    assert_eq!(shell.startup_clients, vec!["foot".to_string(), "weston-terminal".to_string()]);
}

#[test]
fn parse_config_extracts_keybinds_and_clients() {
    let mut shell = LuaShell::default();
    merge_config_table(
        &mut shell,
        ConfigTable {
            keybinds: vec![("M-S-q".into(), "quit".into()), ("M-t".into(), "cycle workspace".into())],
            startup_clients: vec!["foot".into()],
            ..Default::default()
        },
    );
    assert_eq!(
        shell.keybinds,
        vec![("M-S-q".into(), "quit".into()), ("M-t".into(), "cycle workspace".into())]
    );
    assert_eq!(shell.startup_clients, vec!["foot".to_string()]);
}

#[test]
fn a_table_workspace_replaces_the_recorded_one_even_when_it_is_refused() {
    let mut shell = LuaShell::default();
    shell.initial_workspace = Some(2);
    merge_config_table(&mut shell, ConfigTable { workspace: Some(5), ..Default::default() });
    assert_eq!(shell.initial_workspace, Some(5));
    merge_config_table(&mut shell, ConfigTable { workspace: Some(12), ..Default::default() });
    assert_eq!(shell.initial_workspace, None);
    shell.initial_workspace = Some(3);
    merge_config_table(&mut shell, ConfigTable::default());
    assert_eq!(shell.initial_workspace, Some(3));
}

#[test]
fn parse_config_tolerates_a_missing_key() {
    let mut shell = LuaShell::default();
    merge_config_table(&mut shell, ConfigTable::default());
    assert!(shell.keybinds.is_empty());
    assert!(shell.startup_clients.is_empty());
    assert_eq!(shell.keyboard, KeyboardConfig::default());
}

#[test]
fn a_config_can_name_its_keyboard_layout() {
    let mut kb = KeyboardConfig::default();
    merge_keyboard(
        &mut kb,
        KeyboardFields {
            layout: Some("gb".into()),
            variant: Some("colemak".into()),
            options: Some("ctrl:nocaps".into()),
            repeat_delay: Some(300),
            repeat_rate: Some(40),
            ..Default::default()
        },
    );
    assert_eq!(kb.layout, "gb");
    assert_eq!(kb.variant, "colemak");
    assert_eq!(kb.options.as_deref(), Some("ctrl:nocaps"));
    assert_eq!(kb.repeat_delay, 300);
    assert_eq!(kb.repeat_rate, 40);
    assert!(!kb.is_system_default());
}

#[test]
fn an_unmentioned_keyboard_field_keeps_its_default() {
    let mut kb = KeyboardConfig::default();
    merge_keyboard(&mut kb, KeyboardFields { layout: Some("de".into()), ..Default::default() });
    let default = KeyboardConfig::default();
    assert_eq!(kb.layout, "de");
    assert_eq!(kb.repeat_delay, default.repeat_delay);
    assert_eq!(kb.repeat_rate, default.repeat_rate);
    assert_eq!(kb.variant, "");
}

#[test]
fn no_keyboard_table_means_the_system_keymap() {
    let kb = KeyboardConfig::default();
    assert!(kb.layout.is_empty());
    assert!(kb.options.is_none());
    assert_eq!((kb.repeat_delay, kb.repeat_rate), (200, 25));
    assert!(kb.is_system_default());
}

#[test]
fn empty_options_are_dropped_rather_than_passed_to_xkb() {
    let mut kb = KeyboardConfig { options: Some("grp:alt_shift_toggle".into()), ..Default::default() };
    merge_keyboard(&mut kb, KeyboardFields { options: Some(String::new()), ..Default::default() });
    assert!(kb.options.is_none());
}

#[test]
fn a_spawned_program_is_pointed_at_this_compositor() {
    let plan = build_command("foot -e htop", Some("wayland-7")).unwrap();
    assert_eq!(plan.program, "foot");
    assert_eq!(plan.args, vec!["-e".to_string(), "htop".to_string()]);
    assert_eq!(plan.display.as_deref(), Some("wayland-7"));
}

#[test]
fn a_spawn_with_no_socket_yet_still_runs() {
    let plan = build_command("foot", None).unwrap();
    assert_eq!(plan.program, "foot");
    assert!(plan.args.is_empty());
    assert_eq!(plan.display, None);
    assert!(build_command("   ", Some("wayland-1")).is_none());
}

use ruster::action::Layout;
use ruster::chrome::TreeStatus;

#[test]
fn the_status_says_what_the_tree_says() {
    let tree = TreeStatus { layout: Some(Layout::Vertical), windows: 2, floating: true };
    let s = WmStatus::from_tree(3, &tree, Some("foot"));
    assert_eq!(s.workspace, 3);
    assert_eq!(s.windows, 2);
    assert!(s.floating);
    assert_eq!(s.focused_title, "foot");
    assert_eq!(s.layout.as_deref(), Some("vertical"));
    let tree = TreeStatus { layout: Some(Layout::Horizontal), windows: 1, floating: false };
    assert_eq!(WmStatus::from_tree(1, &tree, None).layout.as_deref(), Some("horizontal"));
    let empty = TreeStatus { layout: None, windows: 0, floating: false };
    let s = WmStatus::from_tree(1, &empty, None);
    assert_eq!(s.layout, None);
    assert_eq!(s.focused_title, "");
}
