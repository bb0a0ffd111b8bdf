use ruster::chrome::{gutter_cols, gutter_width};
use ruster::render::{chrome_height, depth, front_to_back, LayerKind, Stage};

#[test]
fn chrome_height_never_exceeds_output() {
    let h = chrome_height(1080);
    assert!(h <= 1080 && h > 0);
    assert_eq!(h, 27);
}

#[test]
fn chrome_height_scales_with_output_height() {
    assert_eq!(chrome_height(2160), 54);
    assert_eq!(chrome_height(2560), 64);
}

#[test]
fn chrome_height_is_bounded() {
    assert_eq!(chrome_height(100), 24);
    assert_eq!(chrome_height(100_000), 64);
}

#[test]
fn a_negative_height_still_gets_the_smallest_bar() {
    assert_eq!(chrome_height(-4000), 24);
    assert_eq!(chrome_height(0), 24);
}

#[test]
fn an_empty_pane_has_no_gutter_at_all() {
    assert_eq!(gutter_cols(0, 0), 0);
    assert_eq!(gutter_width(5, 0), 0);
}

#[test]
fn only_the_numbers_widen_with_the_line_count() {
    assert_eq!(gutter_cols(0, 9) + 1, gutter_cols(0, 10));
    assert_eq!(
        gutter_cols(0, 9) - gutter_width(0, 9),
        gutter_cols(0, 1000) - gutter_width(0, 1000)
    );
}

#[test]
fn the_gutter_is_sized_to_the_last_line_shown() {
    assert_eq!(gutter_width(0, 40), 3);
    assert_eq!(gutter_width(9_990, 40), 6);
    assert_eq!(gutter_cols(9_990, 40), 7);
    assert_eq!(gutter_width(usize::MAX - 1, 1), 21);
}

#[test]
fn a_client_bar_is_drawn_in_front_of_the_compositors_own_statusline() {
    assert!(depth(Stage::Layer(LayerKind::Top)) < depth(Stage::Chrome), "a bar must beat the statusline it overlaps");
    assert!(depth(Stage::Layer(LayerKind::Overlay)) < depth(Stage::Layer(LayerKind::Top)));
    assert_eq!(depth(Stage::Cursor), 0);
}

#[test]
fn an_x11_menu_is_drawn_in_front_of_the_window_that_opened_it() {
    assert!(depth(Stage::X11Unmanaged) < depth(Stage::Windows));
    assert!(depth(Stage::X11Unmanaged) > depth(Stage::Chrome));
}

#[test]
fn wallpaper_layers_stay_behind_the_windows_they_are_behind() {
    for below in [LayerKind::Bottom, LayerKind::Background] {
        assert!(depth(Stage::Layer(below)) > depth(Stage::Windows), "{below:?} must stay behind the windows");
    }
    assert!(depth(Stage::Layer(LayerKind::Background)) > depth(Stage::Layer(LayerKind::Bottom)));
}

#[test]
fn every_layer_is_emitted_exactly_once() {
    let order = front_to_back();
    for which in [LayerKind::Background, LayerKind::Bottom, LayerKind::Top, LayerKind::Overlay] {
        assert_eq!(order.iter().filter(|s| **s == Stage::Layer(which)).count(), 1, "{which:?}");
    }
    for (i, stage) in order.iter().enumerate() {
        assert_eq!(depth(*stage), i);
    }
    assert_eq!(order.len(), 8);
}

use ruster::persist::WindowId;
use ruster::render::{scene_plan, PaneShown, Piece};

#[test]
fn a_frame_draws_its_pieces_in_order_and_hover_only_while_its_line_shows() {
    let panes = [
        PaneShown { window: WindowId(1), first_line: 10, shown: 20 },
        PaneShown { window: WindowId(2), first_line: 0, shown: 5 },
    ];
    let (base, overlay) = scene_plan(true, false, &panes, Some((WindowId(1), 29)), false);
    assert_eq!(
        base,
        vec![Piece::Borders, Piece::Statusline, Piece::Minibuffer, Piece::Pane(WindowId(1)), Piece::Pane(WindowId(2))]
    );
    assert_eq!(overlay, vec![Piece::Hover]);
    let (_, overlay) = scene_plan(false, true, &panes, Some((WindowId(1), 30)), true);
    assert_eq!(overlay, vec![Piece::Launcher], "line 30 is scrolled off");
    let (_, overlay) = scene_plan(false, false, &panes, Some((WindowId(2), 9)), false);
    assert!(overlay.is_empty(), "nothing over the frame");
    let (base, _) = scene_plan(false, true, &[], None, false);
    assert_eq!(base, vec![Piece::Borders, Piece::Statusline, Piece::WhichKey]);
}
