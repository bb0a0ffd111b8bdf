use ruster::desktop::{launch_command, parse_entry, strip_field_codes, DesktopEntry};

fn always(_: &str) -> bool {
    true
}

#[test]
fn an_action_group_does_not_become_the_entry() {
    let text = "[Desktop Entry]\n\
                Type=Application\n\
                Name=Files\n\
                Exec=nautilus --new-window %U\n\
                Actions=new-window;\n\
                \n\
                [Desktop Action new-window]\n\
                Name=New Window\n\
                Comment=Leaked from an action\n\
                Terminal=true\n\
                Exec=nautilus --new-window-please\n";
    let entry = parse_entry("org.gnome.Nautilus.desktop", text, always).unwrap();
    assert_eq!(entry.name, "Files");
    assert_eq!(entry.command, "nautilus --new-window");
    assert_eq!(entry.comment, "", "an action's Comment is not the entry's");
    assert!(!entry.terminal, "an action's Terminal is not the entry's");
}

#[test]
fn a_translated_name_is_not_the_name() {
    let text = "[Desktop Entry]\nType=Application\nName=Firefox\nName[de]=Dateien\nName[ach]=Nope\nExec=firefox %u\n";
    let entry = parse_entry("firefox.desktop", text, always).unwrap();
    assert_eq!(entry.name, "Firefox");
    assert_eq!(entry.command, "firefox");
}

#[test]
fn entries_that_are_not_meant_to_be_shown_are_not() {
    let base = "[Desktop Entry]\nType=Application\nName=X\nExec=x\n";
    assert!(parse_entry("a.desktop", &format!("{base}NoDisplay=true\n"), always).is_none());
    assert!(parse_entry("a.desktop", &format!("{base}Hidden=true\n"), always).is_none());
    assert!(parse_entry(
        "a.desktop",
        "[Desktop Entry]\nType=Link\nName=X\nURL=http://x\n",
        always
    )
    .is_none());
    assert!(parse_entry("a.desktop", base, always).is_some());
}

#[test]
fn an_entry_whose_binary_is_gone_is_skipped() {
    let text = "[Desktop Entry]\nType=Application\nName=Ghost\nTryExec=/usr/bin/ghost\nExec=ghost\n";
    assert!(parse_entry("g.desktop", text, |b| b == "ghost").is_some());
    assert!(parse_entry("g.desktop", text, |_| false).is_none());
}

#[test]
fn field_codes_go_and_escaped_percents_stay() {
    assert_eq!(strip_field_codes("firefox %u"), "firefox");
    assert_eq!(strip_field_codes("gimp %U %i %c"), "gimp");
    assert_eq!(strip_field_codes("foo %% bar"), "foo % bar");
    assert_eq!(strip_field_codes("steam steam://open/games"), "steam steam://open/games");
}

#[test]
fn a_terminal_program_is_given_a_terminal() {
    let entry = DesktopEntry {
        name: "htop".into(),
        command: "htop".into(),
        comment: String::new(),
        terminal: true,
        id: "htop.desktop".into(),
    };
    assert_eq!(launch_command(&entry, Some("foot")), "foot -e htop");
    assert_eq!(launch_command(&entry, None), "htop");
    let gui = DesktopEntry { terminal: false, ..entry };
    assert_eq!(launch_command(&gui, Some("foot")), "htop");
}

#[test]
fn the_entry_keeps_its_id_comment_and_terminal_flag() {
    let text = "[Desktop Entry]\nType=Application\nName=Top\nComment=Process viewer\nTerminal=true\nExec=htop\n";
    let entry = parse_entry("htop.desktop", text, always).unwrap();
    assert_eq!(entry.id, "htop.desktop");
    assert_eq!(entry.comment, "Process viewer");
    assert!(entry.terminal);
}

#[test]
fn an_entry_with_no_name_or_no_command_is_skipped() {
    assert!(parse_entry("a.desktop", "[Desktop Entry]\nType=Application\nExec=x\n", always).is_none());
    assert!(parse_entry("a.desktop", "[Desktop Entry]\nType=Application\nName=X\n", always).is_none());
    assert!(parse_entry("a.desktop", "[Desktop Entry]\nType=Application\nName=X\nExec=%u\n", always).is_none());
}

#[test]
fn a_field_code_glued_to_a_word_goes_and_the_word_stays() {
    assert_eq!(strip_field_codes("a%fb"), "ab");
    assert_eq!(strip_field_codes("  x   %F  "), "x");
    assert_eq!(strip_field_codes("100%"), "100%");
}

#[test]
fn a_group_appended_after_the_entry_changes_nothing() {
    let text = "[Desktop Entry]\nType=Application\nName=Files\nExec=nautilus %U";
    let more = "[Desktop Action new-window]\nName=New Window\nComment=Leaked\nTerminal=true";
    let with_more = format!("{text}\n{more}");
    let always = |_: &str| true;
    let plain = parse_entry("files.desktop", text, always);
    assert!(plain.is_some());
    assert_eq!(parse_entry("files.desktop", &with_more, always), plain);
}

use ruster::desktop::installed_apps;

fn app(id: &str, name: &str, command: &str) -> DesktopEntry {
    DesktopEntry {
        name: name.to_string(),
        command: command.to_string(),
        comment: String::new(),
        terminal: false,
        id: id.to_string(),
    }
}

#[test]
fn the_directory_that_outranks_the_others_wins_and_the_list_is_by_name() {
    let found = vec![
        app("foot.desktop", "Foot", "foot --user"),
        app("firefox.desktop", "Firefox", "firefox"),
        app("foot.desktop", "Foot", "foot --system"),
        app("b.desktop", "Bar", "bar"),
        app("a.desktop", "Éclair", "eclair"),
        app("c.desktop", "Bar2", "bar2"),
    ];
    let apps = installed_apps(&found);
    let names: Vec<&str> = apps.iter().map(|e| e.name.as_str()).collect();
    assert_eq!(names, vec!["Bar", "Bar2", "Firefox", "Foot", "Éclair"]);
    let foot = apps.iter().find(|e| e.id == "foot.desktop").unwrap();
    assert_eq!(foot.command, "foot --user", "the first found wins");
    assert!(installed_apps(&[].to_vec()).is_empty());
}
