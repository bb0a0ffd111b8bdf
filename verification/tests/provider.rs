use ruster::action::Action;
use ruster::provider::{order_groups, Activation, Candidate, Group};

fn group(name: &str, scores: &[u32]) -> Group {
    Group {
        name: name.to_string(),
        rows: scores
            .iter()
            .map(|&score| Candidate {
                label: format!("{name}-{score}"),
                detail: String::new(),
                score,
                activation: Activation::Report(name.to_string()),
            })
            .collect(),
    }
}

fn names(groups: &[Group]) -> Vec<&str> {
    groups.iter().map(|g| g.name.as_str()).collect()
}

#[test]
fn the_best_answer_leads_whoever_produced_it() {
    let forward = order_groups(vec![group("apps", &[900]), group("math", &[1000])]);
    assert_eq!(forward[0].name, "math");
    let backward = order_groups(vec![group("math", &[1000]), group("apps", &[900])]);
    assert_eq!(backward[0].name, "math");
}

#[test]
fn a_tie_keeps_registration_order() {
    let groups = order_groups(vec![group("first", &[500]), group("second", &[500])]);
    assert_eq!(names(&groups), vec!["first", "second"]);
}

#[test]
fn a_provider_with_nothing_to_say_is_not_shown() {
    let groups = order_groups(vec![group("quiet", &[]), group("loud", &[10])]);
    assert_eq!(groups.len(), 1);
    assert_eq!(groups[0].name, "loud");
}

#[test]
fn rows_within_a_group_are_ordered_by_score() {
    let groups = order_groups(vec![group("apps", &[10, 900, 400])]);
    let scores: Vec<u32> = groups[0].rows.iter().map(|r| r.score).collect();
    assert_eq!(scores, vec![900, 400, 10]);
}

#[test]
fn a_group_is_ranked_by_its_best_row_not_its_first() {
    let groups = order_groups(vec![group("a", &[100, 800]), group("b", &[700]), group("c", &[])]);
    assert_eq!(names(&groups), vec!["a", "b"]);
    assert_eq!(groups[0].rows[0].score, 800);
}

#[test]
fn equal_rows_keep_the_order_their_provider_gave() {
    let mut g = group("apps", &[5, 9, 5, 9]);
    for (i, row) in g.rows.iter_mut().enumerate() {
        row.label = format!("row{i}");
    }
    let out = order_groups(vec![g]);
    let labels: Vec<&str> = out[0].rows.iter().map(|r| r.label.as_str()).collect();
    assert_eq!(labels, vec!["row1", "row3", "row0", "row2"]);
}

#[test]
fn many_groups_sort_stably() {
    let groups = order_groups(vec![
        group("a", &[1]),
        group("b", &[3]),
        group("c", &[2]),
        group("d", &[3]),
        group("e", &[]),
        group("f", &[1]),
    ]);
    assert_eq!(names(&groups), vec!["b", "d", "c", "a", "f"]);
}

#[test]
fn nothing_in_is_nothing_out() {
    assert!(order_groups(Vec::new()).is_empty());
    assert!(order_groups(vec![group("x", &[]), group("y", &[])]).is_empty());
}

#[test]
fn a_row_can_carry_any_action() {
    let row = Candidate {
        label: "Terminal".into(),
        detail: "foot".into(),
        score: 1,
        activation: Activation::Action(Action::Spawn("foot".into())),
    };
    let out = order_groups(vec![Group { name: "apps".into(), rows: vec![row.clone()] }]);
    assert_eq!(out[0].rows[0], row);
}

use ruster::provider::{LuaProvider, LuaRow};

fn lua_row(label: &str, score: u32, action: Action) -> LuaRow {
    LuaRow { label: label.into(), detail: format!("{label}!"), score, action }
}

#[test]
fn a_lua_provider_keeps_its_name_and_its_slot() {
    let p = LuaProvider::new("bookmarks".into(), 3);
    assert_eq!(p.name(), "bookmarks");
    assert_eq!(p.index(), 3);
}

#[test]
fn a_lua_row_runs_its_action_and_the_list_is_cut_to_the_limit() {
    let p = LuaProvider::new("lua".into(), 0);
    let rows = vec![
        lua_row("a", 10, Action::Quit),
        lua_row("b", 20, Action::Spawn("foot".into())),
        lua_row("c", 30, Action::Screenshot),
    ];
    let out = p.candidates(rows.clone(), 2);
    assert_eq!(out.len(), 2);
    assert_eq!(out[0].label, "a");
    assert_eq!(out[0].detail, "a!");
    assert_eq!(out[1].score, 20);
    assert_eq!(out[1].activation, Activation::Action(Action::Spawn("foot".into())));
    assert_eq!(p.candidates(rows, 10).len(), 3);
    assert!(p.candidates(Vec::new(), 10).is_empty());
}
