use chip8::display::Display;

fn lit(d: &Display) -> usize {
    d.pixels().iter().map(|row| row.iter().filter(|p| **p).count()).sum()
}

#[test]
fn new_display_is_blank_and_clean() {
    let d = Display::new();
    assert!(!d.changed());
    assert!(!d.hi_mode());
    assert_eq!(d.width(), 64);
    assert_eq!(d.height(), 32);
    assert_eq!(lit(&d), 0);
    assert_eq!(lit(&Display::default()), 0);
}

#[test]
fn draw_places_msb_at_column_x() {
    let mut d = Display::new();
    assert!(!d.draw(10, 3, vec![0b1000_0001]));
    assert!(d.changed());
    assert!(d.pixel(10, 3));
    assert!(d.pixel(17, 3));
    assert_eq!(lit(&d), 2);
}

#[test]
fn draw_twice_restores_pixels() {
    let mut d = Display::new();
    d.draw(0, 0, vec![0x0F]);
    let before = d.pixels();
    assert!(!d.draw(3, 4, vec![0xF0, 0x90]));
    assert_ne!(d.pixels(), before);
    assert!(d.draw(3, 4, vec![0xF0, 0x90]));
    assert_eq!(d.pixels(), before);
}

#[test]
fn draw_collision_only_on_overlap() {
    let mut d = Display::new();
    assert!(!d.draw(0, 0, vec![0xF0]));
    assert!(!d.draw(0, 0, vec![0x0F]));
    assert!(d.draw(0, 0, vec![0x01]));
    assert!(d.pixel(0, 0));
    assert!(!d.pixel(7, 0));
}

#[test]
fn draw_clips_bottom_and_right_edges() {
    let mut d = Display::new();
    assert!(!d.draw(60, 31, vec![0xFF, 0xFF]));
    assert_eq!(lit(&d), 4);
    assert!(d.pixel(63, 31));
    assert!(!d.draw(64, 0, vec![0xFF]));
    assert!(!d.draw(0, 40, vec![0xFF]));
    assert_eq!(lit(&d), 4);
}

#[test]
fn clear_unsets_every_pixel() {
    let mut d = Display::new();
    d.draw(0, 0, vec![0xFF, 0xFF, 0xFF]);
    d.mark_clean();
    d.clear();
    assert!(d.changed());
    assert_eq!(lit(&d), 0);
}

#[test]
fn scroll_down_moves_rows_and_zeroes_top() {
    let mut d = Display::new();
    d.draw(0, 0, vec![0x80, 0x40, 0x20]);
    d.mark_clean();
    d.scroll_down(3);
    assert!(d.changed());
    assert!(d.pixel(0, 3));
    assert!(d.pixel(1, 4));
    assert!(d.pixel(2, 5));
    for y in 0..3 {
        for x in 0..64 {
            assert!(!d.pixel(x, y));
        }
    }
    assert_eq!(lit(&d), 3);
    d.draw(0, 31, vec![0xFF]);
    d.scroll_down(1);
    assert_eq!(lit(&d), 3);
    d.scroll_down(40);
    assert_eq!(lit(&d), 0);
}

#[test]
fn scroll_left_and_right_shift_four_pixels() {
    let mut d = Display::new();
    d.draw(0, 0, vec![0xFF]);
    d.scroll_right();
    assert!(!d.pixel(3, 0));
    assert!(d.pixel(4, 0));
    assert!(d.pixel(11, 0));
    d.scroll_left();
    d.scroll_left();
    assert_eq!(lit(&d), 4);
    assert!(d.pixel(0, 0));
    assert!(d.pixel(3, 0));
    let mut e = Display::new();
    e.draw(56, 0, vec![0xFF]);
    e.scroll_right();
    assert_eq!(lit(&e), 4);
    assert!(e.pixel(63, 0));
}

#[test]
fn hi_mode_has_wider_rows() {
    let mut d = Display::new();
    d.draw(0, 0, vec![0xFF]);
    d.set_mode(true);
    assert!(d.hi_mode());
    assert_eq!(d.width(), 128);
    assert_eq!(d.height(), 64);
    assert_eq!(lit(&d), 0);
    assert!(!d.draw(124, 63, vec![0xFF, 0xFF]));
    assert_eq!(lit(&d), 4);
    assert!(d.pixel(127, 63));
    d.scroll_left();
    assert!(d.pixel(123, 63));
    assert!(!d.pixel(127, 63));
    let frame = d.pixels();
    assert_eq!(frame.len(), 64);
    assert_eq!(frame[0].len(), 128);
}

#[test]
fn render_returns_frame_and_marks_clean() {
    let mut d = Display::new();
    d.draw(1, 1, vec![0x80]);
    let frame = d.render();
    assert!(!d.changed());
    assert!(frame[1][1]);
    assert!(d.pixel(1, 1));
}
