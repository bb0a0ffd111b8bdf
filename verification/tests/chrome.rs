use ruster::action::Layout;
use ruster::chrome::{runs, Run, TreeStatus};
use ruster::compositor::next_focus_after_unmap;
use ruster::highlight::{clip_spans, plain, StyledLine};
use ruster::persist::WindowId;

fn line(text: &str, spans: Vec<(usize, usize, u32)>) -> StyledLine<u32> {
    StyledLine { text: text.to_string(), highlights: spans }
}

fn joined(runs: &[Run<u32>]) -> String {
    runs.iter().map(|r| r.text.as_str()).collect()
}

#[test]
fn the_text_between_spans_is_drawn_too() {
    let runs = runs(&line("let x = 1;", vec![(0, 3, 1), (8, 9, 2)]));
    assert_eq!(joined(&runs), "let x = 1;", "every character must be drawn once");
    let coloured: Vec<&str> = runs.iter().filter(|r| r.style.is_some()).map(|r| r.text.as_str()).collect();
    assert_eq!(coloured, ["let", "1"], "only the spans are coloured");
    let plain: String = runs.iter().filter(|r| r.style.is_none()).map(|r| r.text.as_str()).collect();
    assert_eq!(plain, " x = ;", "and everything between them is still drawn");
}

#[test]
fn every_run_starts_at_the_column_it_occupies() {
    let runs = runs(&line("fn main() {}", vec![(0, 2, 1), (3, 7, 2)]));
    for run in &runs {
        let expected: String = "fn main() {}".chars().skip(run.column).take(run.text.chars().count()).collect();
        assert_eq!(run.text, expected, "run at column {}", run.column);
    }
}

#[test]
fn a_line_with_no_spans_is_one_plain_run() {
    let runs = runs(&line("plain text", Vec::new()));
    assert_eq!(runs.len(), 1);
    assert_eq!(runs[0].column, 0);
    assert!(runs[0].style.is_none());
}

#[test]
fn an_empty_line_produces_nothing_to_draw() {
    assert!(runs(&line("", Vec::new())).is_empty());
}

#[test]
fn a_span_that_overlaps_an_earlier_one_is_skipped() {
    let runs = runs(&line("abcdef", vec![(0, 4, 1), (2, 5, 2)]));
    assert_eq!(joined(&runs), "abcdef", "no character drawn twice");
}

#[test]
fn a_span_running_off_the_line_is_cut_and_one_past_it_is_dropped() {
    let runs = runs(&line("héllo", vec![(1, 99, 7), (8, 9, 3)]));
    assert_eq!(runs.len(), 2);
    assert_eq!((runs[1].column, runs[1].text.as_str(), runs[1].style), (1, "éllo", Some(7)));
}

#[test]
fn the_indicator_says_which_way_the_next_window_goes() {
    let across = TreeStatus { layout: Some(Layout::Horizontal), windows: 2, floating: false };
    assert_eq!(across.indicator(), "| 2");
    let down = TreeStatus { layout: Some(Layout::Vertical), ..across };
    assert_eq!(down.indicator(), "- 2");
}

#[test]
fn a_lone_window_has_no_split_to_report() {
    let alone = TreeStatus { layout: None, windows: 1, floating: false };
    assert_eq!(alone.indicator(), "· 1");
}

#[test]
fn a_floating_window_is_marked() {
    let floating = TreeStatus { layout: None, windows: 3, floating: true };
    assert_eq!(floating.indicator(), "· 3 ~");
}

#[test]
fn a_count_of_many_windows_is_written_out() {
    let many = TreeStatus { layout: Some(Layout::Horizontal), windows: 1207, floating: false };
    assert_eq!(many.indicator(), "| 1207");
    let none = TreeStatus { layout: None, windows: 0, floating: false };
    assert_eq!(none.indicator(), "· 0");
}

#[test]
fn a_span_past_the_end_of_a_line_is_cut_to_fit() {
    assert_eq!(clip_spans(&[(0, 99, 5u32)], "abc"), vec![(0, 3, 5)]);
}

#[test]
fn a_span_entirely_past_the_end_is_dropped_rather_than_emptied() {
    assert!(clip_spans(&[(10, 20, 5u32)], "abc").is_empty());
}

#[test]
fn spans_inside_the_line_are_left_alone() {
    let spans = vec![(0, 2, 1u32), (4, 7, 2u32)];
    assert_eq!(clip_spans(&spans, "abcdefgh"), spans);
}

#[test]
fn a_line_is_measured_in_characters_not_bytes() {
    assert_eq!(clip_spans(&[(0, 10, 1u32)], "ééé"), vec![(0, 3, 1)]);
    let p: StyledLine<u32> = plain("x");
    assert_eq!(p.text, "x");
    assert!(p.highlights.is_empty());
}

#[test]
fn unmapping_focused_toplevel_refocuses_last_mapped() {
    let mapped = [WindowId(0), WindowId(1), WindowId(3)];
    assert_eq!(next_focus_after_unmap(&mapped, WindowId(0)), Some(WindowId(3)));
    assert_eq!(next_focus_after_unmap(&mapped, WindowId(3)), Some(WindowId(1)));
    assert_eq!(next_focus_after_unmap(&[WindowId(2)], WindowId(2)), None);
}

#[test]
fn the_order_windows_are_listed_in_does_not_matter() {
    let mapped = [WindowId(1), WindowId(4), WindowId(2)];
    assert_eq!(next_focus_after_unmap(&mapped, WindowId(4)), Some(WindowId(2)));
    assert_eq!(next_focus_after_unmap(&mapped, WindowId(1)), Some(WindowId(4)));
    assert_eq!(next_focus_after_unmap(&[], WindowId(3)), None);
}

use ruster::chrome::{severity_sign, SignColour};

#[test]
fn each_severity_has_its_letter_and_an_error_stands_out() {
    assert_eq!(severity_sign(1), ("E", SignColour::Accent));
    assert_eq!(severity_sign(2), ("W", SignColour::Foreground));
    assert_eq!(severity_sign(3), ("I", SignColour::Gutter));
    assert_eq!(severity_sign(4), ("H", SignColour::Gutter));
    assert_eq!(severity_sign(0), ("H", SignColour::Gutter));
    assert_ne!(
        severity_sign(1).1,
        severity_sign(2).1,
        "an error and a warning are the two a reader most needs to tell apart"
    );
}
