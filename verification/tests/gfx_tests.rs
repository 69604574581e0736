use myosa::gfx::{Adafruit_GFX, Adafruit_GFX_Button, DrawPixel, GFXcanvas1, GFXcanvas16, GFXcanvas8, Pixel};
use std::collections::BTreeSet;

/// A backend that records every pixel handed to it.
struct Recorder {
    px: Vec<(i16, i16, u16)>,
}

impl Recorder {
    fn new() -> Self {
        Recorder { px: Vec::new() }
    }

    fn set(&self) -> BTreeSet<(i16, i16)> {
        self.px.iter().map(|p| (p.0, p.1)).collect()
    }
}

impl DrawPixel for Recorder {
    fn drawn(&self) -> vstd::seq::Seq<Pixel> {
        unreachable!()
    }

    fn draw_pixel(&mut self, x: i16, y: i16, color: u16) {
        self.px.push((x, y, color));
    }
}

#[test]
fn horizontal_line_pixels_in_order() {
    let mut g = Adafruit_GFX::new(32, 16);
    let mut r = Recorder::new();
    g.draw_fast_h_line(2, 3, 4, 7, &mut r);
    assert_eq!(r.px, vec![(2, 3, 7), (3, 3, 7), (4, 3, 7), (5, 3, 7)]);
}

#[test]
fn vertical_line_pixels_in_order() {
    let mut g = Adafruit_GFX::new(32, 16);
    let mut r = Recorder::new();
    g.draw_fast_v_line(1, 2, 3, 9, &mut r);
    assert_eq!(r.px, vec![(1, 2, 9), (1, 3, 9), (1, 4, 9)]);
}

#[test]
fn diagonal_line() {
    let mut g = Adafruit_GFX::new(32, 16);
    let mut r = Recorder::new();
    g.draw_line(0, 0, 3, 3, 1, &mut r);
    assert_eq!(r.px, vec![(0, 0, 1), (1, 1, 1), (2, 2, 1), (3, 3, 1)]);
}

#[test]
fn steep_line_follows_bresenham() {
    let mut g = Adafruit_GFX::new(32, 16);
    let mut r = Recorder::new();
    g.draw_line(0, 0, 1, 3, 1, &mut r);
    assert_eq!(r.px, vec![(0, 0, 1), (0, 1, 1), (1, 2, 1), (1, 3, 1)]);
}

#[test]
fn fill_rect_column_by_column() {
    let mut g = Adafruit_GFX::new(32, 16);
    let mut r = Recorder::new();
    g.fill_rect(1, 1, 2, 2, 5, &mut r);
    assert_eq!(r.px, vec![(1, 1, 5), (1, 2, 5), (2, 1, 5), (2, 2, 5)]);
}

#[test]
fn draw_rect_outline() {
    let mut g = Adafruit_GFX::new(32, 16);
    let mut r = Recorder::new();
    g.draw_rect(0, 0, 3, 3, 1, &mut r);
    let expect: BTreeSet<(i16, i16)> =
        [(0, 0), (1, 0), (2, 0), (0, 1), (2, 1), (0, 2), (1, 2), (2, 2)].into_iter().collect();
    assert_eq!(r.set(), expect);
}

#[test]
fn small_circle_is_a_diamond() {
    let mut g = Adafruit_GFX::new(32, 16);
    let mut r = Recorder::new();
    g.draw_circle(5, 5, 1, 1, &mut r);
    let expect: BTreeSet<(i16, i16)> = [(5, 6), (5, 4), (6, 5), (4, 5)].into_iter().collect();
    assert_eq!(r.set(), expect);
}

#[test]
fn fill_screen_covers_every_pixel() {
    let mut g = Adafruit_GFX::new(4, 3);
    let mut r = Recorder::new();
    g.fill_screen(2, &mut r);
    assert_eq!(r.set().len(), 12);
    assert!(r.px.iter().all(|p| p.2 == 2));
}

#[test]
fn write_draws_a_glyph_and_advances() {
    let mut g = Adafruit_GFX::new(128, 64);
    let mut r = Recorder::new();
    g.set_cursor(0, 0);
    // The built-in glyph table is empty, so every glyph is blank: with the
    // default (transparent) background nothing is drawn.
    assert_eq!(g.write(b'A', &mut r), 1);
    assert!(r.px.is_empty());
    assert_eq!(g.get_cursor_x(), 6);
    assert_eq!(g.get_cursor_y(), 0);
    // With an opaque background the whole 6x8 cell is painted in it.
    g.set_text_color_bg(1, 0);
    g.write(b'B', &mut r);
    assert_eq!(r.px.len(), 48);
    assert!(r.px.iter().all(|p| p.2 == 0 && (6..12).contains(&p.0) && (0..8).contains(&p.1)));
    assert_eq!(g.get_cursor_x(), 12);
}

#[test]
fn newline_moves_the_cursor_down() {
    let mut g = Adafruit_GFX::new(128, 64);
    let mut r = Recorder::new();
    g.set_cursor(10, 0);
    g.write(b'\n', &mut r);
    assert_eq!(g.get_cursor_x(), 0);
    assert_eq!(g.get_cursor_y(), 8);
    assert!(r.px.is_empty());
}

#[test]
fn text_bounds_of_two_characters() {
    let g = Adafruit_GFX::new(128, 64);
    assert_eq!(g.get_text_bounds("AB", 0, 0), (0, 0, 12, 8));
}

#[test]
fn rotation_swaps_dimensions() {
    let mut g = Adafruit_GFX::new(128, 64);
    assert_eq!((g.width(), g.height()), (128, 64));
    g.set_rotation(1);
    assert_eq!(g.get_rotation(), 1);
    assert_eq!((g.width(), g.height()), (64, 128));
    g.set_rotation(6);
    assert_eq!(g.get_rotation(), 2);
    assert_eq!((g.width(), g.height()), (128, 64));
}

#[test]
fn canvas1_sets_bits_msb_first() {
    let mut c = GFXcanvas1::new(8, 2);
    c.draw_pixel(0, 0, 1);
    c.draw_pixel(7, 1, 1);
    assert_eq!(c.get_buffer(), &[0x80, 0x01]);
    c.draw_pixel(0, 0, 0);
    assert_eq!(c.get_buffer(), &[0x00, 0x01]);
    c.draw_pixel(9, 0, 1);
    assert_eq!(c.get_buffer(), &[0x00, 0x01]);
    c.fill_screen(1);
    assert_eq!(c.get_buffer(), &[0xFF, 0xFF]);
}

#[test]
fn canvas8_pixels_and_runs() {
    let mut c = GFXcanvas8::new(4, 2);
    c.draw_pixel(1, 1, 0x5A);
    assert_eq!(c.get_buffer(), &[0, 0, 0, 0, 0, 0x5A, 0, 0]);
    c.write_fast_h_line(0, 0, 3, 7);
    assert_eq!(c.get_buffer(), &[7, 7, 7, 0, 0, 0x5A, 0, 0]);
    c.write_fast_h_line(2, 1, 5, 9);
    assert_eq!(c.get_buffer(), &[7, 7, 7, 0, 0, 0x5A, 9, 9]);
    c.fill_screen(0x1FF);
    assert_eq!(c.get_buffer(), &[0xFF; 8]);
}

#[test]
fn canvas16_byte_swap() {
    let mut c = GFXcanvas16::new(2, 1);
    c.draw_pixel(0, 0, 0x1234);
    c.draw_pixel(1, 0, 0xABCD);
    c.byte_swap();
    assert_eq!(c.get_buffer(), &[0x3412, 0xCDAB]);
    c.byte_swap();
    assert_eq!(c.get_buffer(), &[0x1234, 0xABCD]);
}

#[test]
fn button_press_edges() {
    let mut b = Adafruit_GFX_Button::new();
    b.init_button_ul(10, 10, 20, 10, 1, 0, 1, "OK", 1, 1);
    assert!(b.contains(15, 15));
    assert!(b.contains(10, 10));
    assert!(!b.contains(30, 15));
    assert!(!b.contains(9, 15));
    b.press(true);
    assert!(b.just_pressed());
    assert!(b.is_pressed());
    b.press(true);
    assert!(!b.just_pressed());
    b.press(false);
    assert!(b.just_released());
    assert!(!b.is_pressed());
}

#[test]
fn button_from_centre() {
    let mut b = Adafruit_GFX_Button::new();
    b.init_button(20, 20, 10, 6, 1, 0, 1, "X", 1);
    assert!(b.contains(15, 17));
    assert!(!b.contains(14, 17));
    assert!(b.contains(24, 22));
    assert!(!b.contains(25, 22));
}

#[test]
fn line_is_the_same_from_either_end() {
    let mut g = Adafruit_GFX::new(64, 64);
    for &(x0, y0, x1, y1) in &[(0, 0, 7, 3), (5, 9, 1, 2), (3, 3, 3, 10), (10, 4, 2, 4)] {
        let (mut a, mut b) = (Recorder::new(), Recorder::new());
        g.draw_line(x0, y0, x1, y1, 1, &mut a);
        g.draw_line(x1, y1, x0, y0, 1, &mut b);
        assert_eq!(a.px, b.px);
        let n = std::cmp::max((x1 - x0).abs(), (y1 - y0).abs()) as usize + 1;
        assert_eq!(a.px.len(), n);
        assert!(a.px.contains(&(x0, y0, 1)) && a.px.contains(&(x1, y1, 1)));
    }
}

#[test]
fn filled_triangle_ignores_corner_order() {
    let mut g = Adafruit_GFX::new(64, 64);
    let pts = [(2i16, 3i16), (20, 3), (9, 17)];
    let mut first: Option<Vec<(i16, i16, u16)>> = None;
    for p in [[0, 1, 2], [1, 0, 2], [0, 2, 1], [1, 2, 0], [2, 0, 1], [2, 1, 0]] {
        let mut r = Recorder::new();
        let (a, b, c) = (pts[p[0]], pts[p[1]], pts[p[2]]);
        g.fill_triangle(a.0, a.1, b.0, b.1, c.0, c.1, 1, &mut r);
        match &first {
            None => first = Some(r.px.clone()),
            Some(f) => assert_eq!(&r.px, f),
        }
    }
}

#[test]
fn filled_circle_halves_draw_each_pixel_once() {
    let mut g = Adafruit_GFX::new(64, 64);
    for corners in 1u8..=3 {
        let mut r = Recorder::new();
        g.fill_circle_helper(30, 30, 9, corners, 0, 1, &mut r);
        assert_eq!(r.set().len(), r.px.len());
        for p in &r.px {
            assert_ne!(p.0, 30);
            if corners == 1 {
                assert!(p.0 > 30);
            }
            if corners == 2 {
                assert!(p.0 < 30);
            }
        }
    }
}

#[test]
fn canvas16_byte_swap_twice_restores() {
    let mut c = GFXcanvas16::new(4, 2);
    c.draw_pixel(1, 1, 0x1234);
    c.draw_pixel(3, 0, 0xABCD);
    let before = c.get_buffer().to_vec();
    c.byte_swap();
    assert_eq!(c.get_buffer()[5], 0x3412);
    c.byte_swap();
    assert_eq!(c.get_buffer().to_vec(), before);
}

#[test]
fn char_bounds_follows_write() {
    let mut g = Adafruit_GFX::new(40, 40);
    g.set_text_wrap(true);
    g.set_cursor(30, 5);
    for c in [b'A', b'B', b'\n', b'C', b'\r'] {
        let (mut x, mut y) = (g.get_cursor_x(), g.get_cursor_y());
        let (mut minx, mut miny, mut maxx, mut maxy) = (100i16, 100i16, -100i16, -100i16);
        let (m0, n0, m1, n1) = (minx, miny, maxx, maxy);
        g.char_bounds(c, &mut x, &mut y, &mut minx, &mut miny, &mut maxx, &mut maxy);
        let mut r = Recorder::new();
        g.write(c, &mut r);
        assert_eq!((x, y), (g.get_cursor_x(), g.get_cursor_y()));
        assert!(minx <= m0 && miny <= n0 && maxx >= m1 && maxy >= n1);
    }
}
