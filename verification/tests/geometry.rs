use ruster::geometry::{surface_origin, tile_under, tiling_area, Rect};
use ruster::persist::WindowId;

fn geom() -> Vec<(WindowId, Rect)> {
    vec![(WindowId(0), Rect::new(0, 0, 500, 800)), (WindowId(1), Rect::new(500, 0, 500, 800))]
}

/// The pixel a pointer position falls in.
fn px(v: f64) -> i32 {
    v.floor() as i32
}

#[test]
fn the_pointer_picks_the_tile_it_is_over() {
    assert_eq!(tile_under(&geom(), px(10.0), px(10.0)).map(|(id, _)| id), Some(WindowId(0)));
    assert_eq!(tile_under(&geom(), px(600.0), px(10.0)).map(|(id, _)| id), Some(WindowId(1)));
    assert_eq!(tile_under(&geom(), px(1200.0), px(10.0)), None);
    assert_eq!(tile_under(&geom(), px(-1.0), px(10.0)), None);
}

#[test]
fn the_origin_is_the_tile_corner_not_the_output_corner() {
    let (_, origin) = tile_under(&geom(), px(600.0), px(40.0)).unwrap();
    assert_eq!(origin, (500, 0));
    assert_eq!((600 - origin.0, 40 - origin.1), (100, 40), "100px into the right tile");
}

#[test]
fn a_shared_tile_edge_belongs_to_one_window() {
    assert_eq!(tile_under(&geom(), px(499.9), px(400.0)).map(|(id, _)| id), Some(WindowId(0)));
    assert_eq!(tile_under(&geom(), px(500.0), px(400.0)).map(|(id, _)| id), Some(WindowId(1)));
}

#[test]
fn a_click_lands_on_the_float_not_through_it() {
    let geometry = vec![(WindowId(0), Rect::new(0, 0, 1000, 800)), (WindowId(1), Rect::new(100, 100, 200, 200))];
    assert_eq!(tile_under(&geometry, 150, 150).map(|(id, _)| id), Some(WindowId(1)), "the float owns the overlap");
    assert_eq!(tile_under(&geometry, 600, 400).map(|(id, _)| id), Some(WindowId(0)));
    let (_, origin) = tile_under(&geometry, 150, 150).unwrap();
    assert_eq!(origin, (100, 100));
}

#[test]
fn an_empty_layout_is_over_nothing() {
    assert_eq!(tile_under(&[], 10, 10), None);
}

#[test]
fn a_bar_that_claims_everything_is_ignored() {
    let zone = Rect::new(0, 30, 1920, 0);
    assert_eq!(tiling_area(1920, 1080, zone), Rect::new(0, 0, 1920, 1080));
    let zone = Rect::new(0, 30, 1920, 1050);
    assert_eq!(tiling_area(1920, 1080, zone), zone);
}

#[test]
fn a_surface_is_drawn_back_by_its_shadow() {
    assert_eq!(surface_origin(500, 0, Some(Rect::new(20, 20, 800, 600))), (480, -20));
    assert_eq!(surface_origin(500, 0, None), (500, 0));
}

#[test]
fn a_rectangle_holds_its_top_left_and_not_its_bottom_right() {
    let r = Rect::new(10, 10, 5, 5);
    assert!(r.contains(10, 10));
    assert!(r.contains(14, 14));
    assert!(!r.contains(15, 14));
    assert!(!r.contains(14, 15));
    let big = Rect::new(i32::MAX - 1, 0, i32::MAX, 1);
    assert!(big.contains(i32::MAX, 0));
}
