use ruster::action::Action;
use ruster::launcher::{list_scroll, Launcher};
use ruster::provider::{Activation, Candidate, Group};

fn group(name: &str, labels: &[&str]) -> Group {
    Group {
        name: name.to_string(),
        rows: labels
            .iter()
            .map(|l| Candidate {
                label: l.to_string(),
                detail: format!("detail for {l}"),
                score: 500,
                activation: Activation::Report(l.to_string()),
            })
            .collect(),
    }
}

#[test]
fn a_maths_answer_survives_a_query_it_does_not_look_like() {
    let mut l = Launcher::new();
    for c in "6*7".chars() {
        l.push(c);
    }
    l.set_groups(vec![group("maths", &["42"])]);
    assert_eq!(l.row_count(), 1);
    assert_eq!(l.accept(), Some(Activation::Report("42".into())));
}

#[test]
fn the_selection_wraps_across_group_boundaries() {
    let mut l = Launcher::new();
    l.set_groups(vec![group("a", &["a1", "a2"]), group("b", &["b1", "b2"]), group("c", &["c1", "c2"])]);
    assert_eq!(l.row_count(), 6);
    assert_eq!(l.selected(), 0);
    l.move_selection(-1);
    assert_eq!(l.selected(), 5, "wraps to the last row overall");
    assert_eq!(l.accept(), Some(Activation::Report("c2".into())));
    l.move_selection(1);
    assert_eq!(l.selected(), 0);
}

#[test]
fn a_heading_is_drawn_once_per_run_of_rows() {
    let mut l = Launcher::new();
    l.set_groups(vec![group("apps", &["Firefox", "Files"]), group("maths", &["42"])]);
    let view = l.view(10);
    let headers: Vec<&str> = view.rows.iter().map(|r| r.group.as_str()).collect();
    assert_eq!(headers, vec!["apps", "", "maths"]);
    assert_eq!(view.rows.iter().filter(|r| r.selected).count(), 1);
    assert_eq!(view.rows[0].detail, "detail for Firefox");
}

#[test]
fn the_view_shows_a_window_around_the_selection() {
    let mut l = Launcher::new();
    let labels: Vec<String> = (0..20).map(|i| format!("row{i}")).collect();
    let refs: Vec<&str> = labels.iter().map(|s| s.as_str()).collect();
    l.set_groups(vec![group("many", &refs)]);

    let view = l.view(5);
    assert_eq!(view.rows.len(), 5, "only the viewport is emitted");
    assert_eq!(view.total, 20, "but the whole count is reported");
    assert_eq!(view.scrolled, 0);

    for _ in 0..7 {
        l.move_selection(1);
    }
    let view = l.view(5);
    assert!(view.scrolled > 0, "the window followed the selection");
    assert!(view.rows.iter().any(|r| r.selected), "and the selected row is inside it");
}

#[test]
fn an_empty_result_says_so_only_once_something_was_typed() {
    let mut l = Launcher::new();
    l.set_groups(vec![]);
    assert_eq!(l.message, "", "an empty launcher is not a failed search");
    l.push('z');
    l.set_groups(vec![]);
    assert_eq!(l.message, "no matches");
}

#[test]
fn backspacing_past_the_last_character_closes_it() {
    let mut l = Launcher::new();
    l.push('a');
    assert!(l.backspace(), "empty now, so the launcher closes");
    l.push('a');
    l.push('b');
    assert!(!l.backspace(), "still has 'a', so it stays open");
}

#[test]
fn moving_by_more_than_the_list_wraps_as_often_as_it_takes() {
    let mut l = Launcher::new();
    l.set_groups(vec![group("a", &["0", "1", "2"])]);
    l.move_selection(7);
    assert_eq!(l.selected(), 1);
    l.move_selection(-5);
    assert_eq!(l.selected(), 2);
    l.move_selection(i32::MIN);
    assert_eq!(l.selected(), (2 + 3 - (2147483648usize % 3)) % 3);
}

#[test]
fn with_nothing_to_select_moving_does_nothing_and_accepting_gives_nothing() {
    let mut l = Launcher::new();
    l.move_selection(3);
    assert_eq!(l.selected(), 0);
    assert_eq!(l.accept(), None);
    let view = l.view(4);
    assert!(view.rows.is_empty());
    assert_eq!(view.total, 0);
}

#[test]
fn new_results_put_the_selection_back_at_the_top() {
    let mut l = Launcher::new();
    l.set_groups(vec![group("a", &["0", "1", "2"])]);
    l.move_selection(2);
    l.set_groups(vec![group("b", &["x", "y"])]);
    assert_eq!(l.selected(), 0);
    assert_eq!(l.accept(), Some(Activation::Report("x".into())));
}

#[test]
fn scrolling_back_up_follows_the_selection() {
    let mut l = Launcher::new();
    let labels: Vec<String> = (0..10).map(|i| format!("r{i}")).collect();
    let refs: Vec<&str> = labels.iter().map(|s| s.as_str()).collect();
    l.set_groups(vec![group("g", &refs)]);
    l.move_selection(-1);
    let view = l.view(3);
    assert_eq!(view.scrolled, 7);
    assert_eq!(view.rows.len(), 3);
    assert!(view.rows[2].selected);
    assert_eq!(view.rows[0].group, "", "a run continued from above the panel has no heading");
    l.move_selection(1);
    let view = l.view(3);
    assert_eq!(view.scrolled, 0);
    assert_eq!(view.rows[0].group, "g");
}

#[test]
fn the_scroll_moves_only_as_far_as_it_must() {
    assert_eq!(list_scroll(0, 0, 5, 20), 0);
    assert_eq!(list_scroll(0, 4, 5, 20), 0);
    assert_eq!(list_scroll(0, 5, 5, 20), 1);
    assert_eq!(list_scroll(6, 2, 5, 20), 2);
    assert_eq!(list_scroll(3, 0, 5, 0), 0);
}

#[test]
fn an_accepted_row_can_be_an_action() {
    let mut l = Launcher::new();
    l.set_groups(vec![Group {
        name: "apps".into(),
        rows: vec![Candidate {
            label: "foot".into(),
            detail: "foot".into(),
            score: 1,
            activation: Activation::Action(Action::Spawn("foot".into())),
        }],
    }]);
    assert_eq!(l.accept(), Some(Activation::Action(Action::Spawn("foot".into()))));
}
