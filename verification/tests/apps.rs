use ruster::action::Action;
use ruster::apps::{app_candidates, score_app};
use ruster::desktop::DesktopEntry;
use ruster::provider::Activation;

fn entry(name: &str, comment: &str, command: &str, terminal: bool) -> DesktopEntry {
    DesktopEntry {
        name: name.to_string(),
        command: command.to_string(),
        comment: comment.to_string(),
        terminal,
        id: format!("{}.desktop", name.to_lowercase()),
    }
}

#[test]
fn a_description_counts_at_three_quarters_of_a_name() {
    assert_eq!(score_app(Some(100), None, "Web Browser"), Some(100));
    assert_eq!(score_app(None, Some(100), "Web Browser"), Some(75));
    assert_eq!(score_app(Some(70), Some(100), "Web Browser"), Some(75));
    assert_eq!(score_app(Some(80), Some(100), "Web Browser"), Some(80));
    assert_eq!(score_app(None, None, "Web Browser"), None);
    assert_eq!(
        score_app(None, Some(100), ""),
        None,
        "an empty description matches nothing"
    );
    assert_eq!(score_app(None, Some(u32::MAX), "x"), Some(3_221_225_471));
}

#[test]
fn the_apps_that_matched_come_best_first_and_ties_keep_their_order() {
    let entries = vec![
        entry("Files", "", "nautilus", false),
        entry("Firefox", "Web Browser", "firefox", false),
        entry("Terminal", "", "foot", false),
        entry("Fractal", "Matrix client", "fractal", false),
    ];
    let by_name = vec![Some(40), Some(90), None, Some(40)];
    let by_comment = vec![None, None, Some(500), None];
    let rows = app_candidates(&entries, &by_name, &by_comment, None, 8);
    let labels: Vec<&str> = rows.iter().map(|c| c.label.as_str()).collect();
    assert_eq!(labels, vec!["Firefox", "Files", "Fractal"]);
    assert_eq!(rows[0].score, 90);
    assert_eq!(rows[0].detail, "Web Browser");
    assert_eq!(
        rows[0].activation,
        Activation::Action(Action::Spawn("firefox".to_string()))
    );
}

#[test]
fn no_more_rows_than_the_limit() {
    let entries = vec![
        entry("A", "", "a", false),
        entry("B", "", "b", false),
        entry("C", "", "c", false),
    ];
    let scores = vec![Some(1), Some(3), Some(2)];
    let none = vec![None, None, None];
    let rows = app_candidates(&entries, &scores, &none, None, 2);
    let labels: Vec<&str> = rows.iter().map(|c| c.label.as_str()).collect();
    assert_eq!(labels, vec!["B", "C"]);
    assert!(app_candidates(&entries, &scores, &none, None, 0).is_empty());
    assert!(app_candidates(&entries, &none, &none, None, 8).is_empty());
}

#[test]
fn an_app_that_needs_a_terminal_is_run_in_one() {
    let entries = vec![entry("Htop", "Process viewer", "htop", true)];
    let rows = app_candidates(&entries, &[Some(10)], &[None], Some("foot"), 8);
    assert_eq!(
        rows[0].activation,
        Activation::Action(Action::Spawn("foot -e htop".to_string()))
    );
    let rows = app_candidates(&entries, &[Some(10)], &[None], None, 8);
    assert_eq!(
        rows[0].activation,
        Activation::Action(Action::Spawn("htop".to_string()))
    );
}
