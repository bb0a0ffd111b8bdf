use ruster::bar::{paint_bar, BarState, BAR_HEIGHT};

const ACCENT: [u8; 4] = [0xf7, 0xa6, 0xcb, 0xff];
const BAR: [u8; 4] = [0x5a, 0x47, 0x45, 0xff];

#[test]
fn each_row_starts_with_an_accent_square() {
    let px = paint_bar(3, 2);
    assert_eq!(px.len(), 3 * 2 * 4);
    for row in 0..2 {
        let at = |x: usize| &px[(row * 3 + x) * 4..(row * 3 + x) * 4 + 4];
        assert_eq!(at(0), ACCENT);
        assert_eq!(at(1), ACCENT);
        assert_eq!(at(2), BAR);
    }
}

#[test]
fn a_bar_narrower_than_it_is_tall_is_all_accent() {
    let px = paint_bar(1, 4);
    assert_eq!(px.len(), 16);
    assert!(px.chunks(4).all(|p| p == ACCENT));
}

#[test]
fn a_full_width_bar_has_one_accent_square_per_row() {
    let (w, h) = (100u32, BAR_HEIGHT);
    let px = paint_bar(w, h);
    let accent = px.chunks(4).filter(|p| *p == ACCENT).count();
    assert_eq!(accent, (h * h) as usize);
    assert_eq!(px.chunks(4).count(), (w * h) as usize);
}

#[test]
fn the_compositor_decides_the_size_and_never_zero() {
    let mut bar = BarState::new();
    assert_eq!((bar.width, bar.height), (0, BAR_HEIGHT));
    assert!(!bar.configured);
    bar.configure(1920, 28);
    assert_eq!((bar.width, bar.height), (1920, 28));
    assert!(bar.configured);
    bar.configure(0, 0);
    assert_eq!((bar.width, bar.height), (1, 1));
    assert!(!bar.closed);
    bar.close();
    assert!(bar.closed);
    assert!(bar.configured);
}
