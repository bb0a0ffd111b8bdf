use ruster::pane::{follow_cursor, line_severities, scroll_by, visible_lines};

#[test]
fn a_diagnostic_marks_the_line_it_is_on() {
    assert_eq!(line_severities(&[(2, 1)], 0, 5), vec![None, None, Some(1), None, None]);
}

#[test]
fn the_worst_severity_on_a_line_is_the_one_shown() {
    assert_eq!(line_severities(&[(0, 2), (0, 1)], 0, 1), vec![Some(1)]);
    assert_eq!(line_severities(&[(0, 1), (0, 2)], 0, 1), vec![Some(1)], "and the other order gives the same answer");
}

#[test]
fn diagnostics_are_placed_relative_to_the_first_visible_line() {
    assert_eq!(line_severities(&[(12, 1)], 10, 4), vec![None, None, Some(1), None]);
}

#[test]
fn diagnostics_off_screen_are_not_drawn_anywhere() {
    assert_eq!(line_severities(&[(3, 1)], 10, 3), vec![None; 3]);
    assert_eq!(line_severities(&[(99, 1)], 10, 3), vec![None; 3]);
}

#[test]
fn a_pane_shows_the_lines_its_grid_has_room_for() {
    assert_eq!(visible_lines(0, 3, 5), (0, 3));
}

#[test]
fn scrolling_moves_the_window_over_the_buffer() {
    let top = scroll_by(0, 5, 2);
    assert_eq!(visible_lines(top, 2, 5), (2, 4));
}

#[test]
fn scrolling_stops_at_the_ends_rather_than_running_off() {
    assert_eq!(scroll_by(0, 3, -5), 0);
    let top = scroll_by(0, 3, 500);
    assert_eq!(top, 2, "the last line stays reachable");
    assert_eq!(visible_lines(top, 2, 3), (2, 3));
}

#[test]
fn growing_a_scrolled_pane_reveals_more_rather_than_leaving_a_gap() {
    let top = scroll_by(0, 6, 4);
    assert_eq!(visible_lines(top, 2, 6), (4, 6));
    assert_eq!(visible_lines(top, 6, 6), (4, 6));
    let top = scroll_by(top, 6, -4);
    assert_eq!(visible_lines(top, 6, 6), (0, 6));
}

#[test]
fn an_empty_pane_shows_nothing_and_does_not_panic() {
    assert_eq!(visible_lines(0, 0, 1), (0, 0));
    assert_eq!(visible_lines(7, 4, 0), (0, 0));
}

#[test]
fn a_pane_scrolled_past_a_shorter_document_shows_its_last_line() {
    assert_eq!(visible_lines(150, 5, 3), (2, 3));
}

#[test]
fn the_view_follows_the_cursor_off_the_bottom() {
    assert_eq!(follow_cursor(0, 5, 10), 6);
    assert_eq!(follow_cursor(0, 5, 4), 0);
}

#[test]
fn the_view_follows_the_cursor_back_up() {
    assert_eq!(follow_cursor(30, 5, 0), 0);
    assert_eq!(follow_cursor(30, 0, 0), 30, "a pane with no rows does not scroll");
}

#[test]
fn scrolling_by_the_extremes_stays_in_range() {
    assert_eq!(scroll_by(usize::MAX, 10, i64::MAX), 9);
    assert_eq!(scroll_by(3, 10, i64::MIN), 0);
    assert_eq!(scroll_by(3, 0, 1), 0);
}

#[test]
fn showing_another_document_scrolls_to_where_the_cursor_ended_up() {
    let top = follow_cursor(150, 5, 0);
    assert_eq!(visible_lines(top, 5, 3), (0, 3));
}
