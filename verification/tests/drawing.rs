use embassy_st7789v_sprite::font::{char_to_glyph, FONT};
use embassy_st7789v_sprite::{
    APPROX, DEGREE, DELTA, DIVIDE, GE, INFINITY, LAMBDA, LE, PI, PLUS_MINUS, SQRT, THETA, TIMES,
};
use embassy_st7789v_sprite::{
    Color, PiskelSprite, SpriteEngine, FB_SIZE, SCREEN_H, SCREEN_W, TRANSPARENT_KEY,
};

fn framebuffer(fill: u16) -> Box<[u16; FB_SIZE]> {
    vec![fill; FB_SIZE].into_boxed_slice().try_into().unwrap()
}

fn at(fb: &[u16; FB_SIZE], x: usize, y: usize) -> u16 {
    fb[y * SCREEN_W + x]
}

fn leak(pixels: Vec<u16>) -> &'static [u16] {
    Box::leak(pixels.into_boxed_slice())
}

#[test]
fn screen_constants() {
    assert_eq!(SCREEN_W, 240);
    assert_eq!(SCREEN_H, 320);
    assert_eq!(FB_SIZE, 76_800);
    assert_eq!(TRANSPARENT_KEY, 0xF81F);
}

#[test]
fn clear_fills_every_pixel() {
    let mut fb = framebuffer(7);
    let mut engine = SpriteEngine::new(&mut fb);
    engine.clear(Color(0x1234));
    assert!(engine.framebuffer().iter().all(|&p| p == 0x1234));
}

#[test]
fn draw_pixel_sets_one_pixel() {
    let mut fb = framebuffer(0);
    let mut engine = SpriteEngine::new(&mut fb);
    engine.draw_pixel(120, 160, Color(0xFFFF));
    let fb = engine.framebuffer();
    assert_eq!(at(fb, 120, 160), 0xFFFF);
    assert_eq!(fb.iter().filter(|&&p| p != 0).count(), 1);
}

#[test]
fn draw_pixel_corners() {
    let mut fb = framebuffer(0);
    let mut engine = SpriteEngine::new(&mut fb);
    engine.draw_pixel(0, 0, Color(1));
    engine.draw_pixel(239, 319, Color(2));
    let fb = engine.framebuffer();
    assert_eq!(fb[0], 1);
    assert_eq!(fb[FB_SIZE - 1], 2);
}

#[test]
fn draw_pixel_off_screen_is_ignored() {
    let mut fb = framebuffer(5);
    let mut engine = SpriteEngine::new(&mut fb);
    engine.draw_pixel(-1, 10, Color(1));
    engine.draw_pixel(10, -1, Color(1));
    engine.draw_pixel(240, 10, Color(1));
    engine.draw_pixel(10, 320, Color(1));
    engine.draw_pixel(i16::MIN, i16::MAX, Color(1));
    assert!(engine.framebuffer().iter().all(|&p| p == 5));
}

#[test]
fn fill_rect_corners_are_inclusive() {
    let mut fb = framebuffer(0);
    let mut engine = SpriteEngine::new(&mut fb);
    engine.fill_rect(10, 20, 12, 21, Color(9));
    let fb = engine.framebuffer();
    for y in 0..SCREEN_H {
        for x in 0..SCREEN_W {
            let inside = (10..=12).contains(&x) && (20..=21).contains(&y);
            assert_eq!(at(fb, x, y), if inside { 9 } else { 0 }, "({x}, {y})");
        }
    }
    assert_eq!(fb.iter().filter(|&&p| p == 9).count(), 6);
}

#[test]
fn fill_rect_ground_band() {
    let mut fb = framebuffer(0);
    let mut engine = SpriteEngine::new(&mut fb);
    engine.fill_rect(0, 280, 239, 319, Color(0x0664));
    let fb = engine.framebuffer();
    assert_eq!(fb.iter().filter(|&&p| p == 0x0664).count(), 240 * 40);
    assert_eq!(at(fb, 0, 279), 0);
    assert_eq!(at(fb, 239, 280), 0x0664);
}

#[test]
fn fill_rect_is_clipped_to_the_screen() {
    let mut fb = framebuffer(0);
    let mut engine = SpriteEngine::new(&mut fb);
    engine.fill_rect(-10, -10, 1, 2, Color(3));
    engine.fill_rect(238, 318, 1000, 1000, Color(4));
    let fb = engine.framebuffer();
    assert_eq!(fb.iter().filter(|&&p| p == 3).count(), 2 * 3);
    assert_eq!(fb.iter().filter(|&&p| p == 4).count(), 2 * 2);
    assert_eq!(at(fb, 1, 2), 3);
    assert_eq!(at(fb, 239, 319), 4);
}

#[test]
fn fill_rect_empty_or_off_screen_changes_nothing() {
    let mut fb = framebuffer(8);
    let mut engine = SpriteEngine::new(&mut fb);
    engine.fill_rect(50, 50, 49, 60, Color(1));
    engine.fill_rect(50, 50, 60, 49, Color(1));
    engine.fill_rect(-20, 10, -5, 20, Color(1));
    engine.fill_rect(10, -20, 20, -5, Color(1));
    engine.fill_rect(240, 0, 300, 10, Color(1));
    engine.fill_rect(0, 320, 10, 400, Color(1));
    assert!(engine.framebuffer().iter().all(|&p| p == 8));
}

#[test]
fn fill_whole_screen_equals_clear() {
    let mut a = framebuffer(1);
    let mut b = framebuffer(2);
    SpriteEngine::new(&mut a).fill_rect(-5, -5, 500, 500, Color(0xABCD));
    SpriteEngine::new(&mut b).clear(Color(0xABCD));
    assert_eq!(a, b);
}

#[test]
fn fill_one_pixel_equals_draw_pixel() {
    let mut a = framebuffer(0);
    let mut b = framebuffer(0);
    SpriteEngine::new(&mut a).fill_rect(33, 44, 33, 44, Color(0x5555));
    SpriteEngine::new(&mut b).draw_pixel(33, 44, Color(0x5555));
    assert_eq!(a, b);
}

#[test]
fn fill_rect_twice_is_fill_rect_once() {
    let mut a = framebuffer(0);
    let mut b = framebuffer(0);
    {
        let mut e = SpriteEngine::new(&mut a);
        e.fill_rect(5, 6, 70, 80, Color(2));
        e.fill_rect(5, 6, 70, 80, Color(2));
    }
    SpriteEngine::new(&mut b).fill_rect(5, 6, 70, 80, Color(2));
    assert_eq!(a, b);
}

#[test]
fn pixels_at_different_points_commute() {
    let mut a = framebuffer(0);
    let mut b = framebuffer(0);
    {
        let mut e = SpriteEngine::new(&mut a);
        e.draw_pixel(1, 2, Color(10));
        e.draw_pixel(3, 4, Color(20));
    }
    {
        let mut e = SpriteEngine::new(&mut b);
        e.draw_pixel(3, 4, Color(20));
        e.draw_pixel(1, 2, Color(10));
    }
    assert_eq!(a, b);
}

fn two_frame_sprite() -> PiskelSprite {
    // Two 3x2 frames; frame 0 has a transparent pixel in its centre column.
    let k = TRANSPARENT_KEY;
    PiskelSprite {
        width: 3,
        height: 2,
        frame_count: 2,
        pixels: leak(vec![1, k, 3, 4, 5, 6, 11, 12, 13, 14, 15, 16]),
    }
}

#[test]
fn draw_sprite_copies_frame_zero() {
    let sprite = two_frame_sprite();
    let mut fb = framebuffer(0);
    let mut engine = SpriteEngine::new(&mut fb);
    assert!(sprite.can_draw(100, 200, 0));
    engine.draw_sprite(&sprite, 100, 200, 0);
    let fb = engine.framebuffer();
    assert_eq!(at(fb, 100, 200), 1);
    assert_eq!(at(fb, 101, 200), 0); // transparent: the background stays
    assert_eq!(at(fb, 102, 200), 3);
    assert_eq!(at(fb, 100, 201), 4);
    assert_eq!(at(fb, 101, 201), 5);
    assert_eq!(at(fb, 102, 201), 6);
    assert_eq!(fb.iter().filter(|&&p| p != 0).count(), 5);
}

#[test]
fn draw_sprite_second_frame() {
    let sprite = two_frame_sprite();
    let mut fb = framebuffer(0);
    let mut engine = SpriteEngine::new(&mut fb);
    engine.draw_sprite(&sprite, 0, 0, 1);
    let fb = engine.framebuffer();
    assert_eq!(at(fb, 0, 0), 11);
    assert_eq!(at(fb, 1, 0), 12);
    assert_eq!(at(fb, 2, 0), 13);
    assert_eq!(at(fb, 0, 1), 14);
    assert_eq!(at(fb, 2, 1), 16);
}

#[test]
fn draw_sprite_transparency_keeps_what_is_below() {
    let sprite = two_frame_sprite();
    let mut fb = framebuffer(0);
    let mut engine = SpriteEngine::new(&mut fb);
    engine.clear(Color(0x867D));
    engine.draw_sprite(&sprite, 10, 10, 0);
    assert_eq!(at(engine.framebuffer(), 11, 10), 0x867D);
    assert!(engine.framebuffer().iter().all(|&p| p != TRANSPARENT_KEY));
}

#[test]
fn draw_sprite_frame_out_of_range_draws_nothing() {
    let sprite = two_frame_sprite();
    let mut fb = framebuffer(9);
    let mut engine = SpriteEngine::new(&mut fb);
    engine.draw_sprite(&sprite, 0, 0, 2);
    engine.draw_sprite(&sprite, 0, 0, u16::MAX);
    assert!(engine.framebuffer().iter().all(|&p| p == 9));
}

#[test]
fn draw_sprite_is_clipped_at_the_edges() {
    let sprite = two_frame_sprite();
    let mut fb = framebuffer(0);
    let mut engine = SpriteEngine::new(&mut fb);
    engine.draw_sprite(&sprite, -2, -1, 1); // only pixel (2, 1) of the frame is visible
    engine.draw_sprite(&sprite, 238, 319, 1); // only pixels (0, 0), (1, 0)
    let fb = engine.framebuffer();
    assert_eq!(at(fb, 0, 0), 16);
    assert_eq!(at(fb, 238, 319), 11);
    assert_eq!(at(fb, 239, 319), 12);
    assert_eq!(fb.iter().filter(|&&p| p != 0).count(), 3);
}

#[test]
fn draw_sprite_far_off_screen_draws_nothing() {
    let sprite = two_frame_sprite();
    let mut fb = framebuffer(0);
    let mut engine = SpriteEngine::new(&mut fb);
    engine.draw_sprite(&sprite, i16::MAX, i16::MAX, 0);
    engine.draw_sprite(&sprite, i16::MIN, 5, 0);
    engine.draw_sprite(&sprite, -3, 5, 0);
    engine.draw_sprite(&sprite, 5, -2, 0);
    assert!(engine.framebuffer().iter().all(|&p| p == 0));
}

#[test]
fn fully_transparent_frame_draws_nothing() {
    let sprite = PiskelSprite {
        width: 4,
        height: 4,
        frame_count: 1,
        pixels: leak(vec![TRANSPARENT_KEY; 16]),
    };
    let mut fb = framebuffer(3);
    let mut engine = SpriteEngine::new(&mut fb);
    engine.draw_sprite(&sprite, 10, 10, 0);
    assert!(engine.framebuffer().iter().all(|&p| p == 3));
}

#[test]
fn can_draw_checks_the_visible_pixels() {
    // A 4x4 sprite that claims two frames but only holds one.
    let sprite = PiskelSprite { width: 4, height: 4, frame_count: 2, pixels: leak(vec![1; 16]) };
    assert!(sprite.can_draw(0, 0, 0));
    assert!(!sprite.can_draw(0, 0, 1));
    // Frame 1 is wholly off the screen: nothing is read.
    assert!(sprite.can_draw(-10, 0, 1));
    assert!(sprite.can_draw(0, 400, 1));
    // A frame past the last one is never read.
    assert!(sprite.can_draw(0, 0, 2));
    // Only the top-left pixel of a partly visible short frame is read.
    let short = PiskelSprite { width: 4, height: 4, frame_count: 1, pixels: leak(vec![1; 1]) };
    assert!(short.can_draw(239, 319, 0));
    assert!(!short.can_draw(238, 319, 0));
}

#[test]
fn char_to_glyph_maps_the_font() {
    assert_eq!(char_to_glyph(b'0'), Some(0));
    assert_eq!(char_to_glyph(b'9'), Some(9));
    assert_eq!(char_to_glyph(b'-'), Some(10));
    assert_eq!(char_to_glyph(b' '), Some(11));
    assert_eq!(char_to_glyph(b'A'), Some(12));
    assert_eq!(char_to_glyph(b'a'), Some(12));
    assert_eq!(char_to_glyph(b'Z'), Some(37));
    assert_eq!(char_to_glyph(b'z'), Some(37));
    assert_eq!(char_to_glyph(b'.'), Some(38));
    assert_eq!(char_to_glyph(b'%'), Some(44));
    assert_eq!(char_to_glyph(b':'), Some(50));
    assert_eq!(char_to_glyph(b'"'), Some(59));
    assert_eq!(char_to_glyph(b'~'), None);
    assert_eq!(char_to_glyph(b'*'), None);
    assert_eq!(char_to_glyph(0x7F), None);
    assert_eq!(char_to_glyph(0x8D), None);
    assert_eq!(char_to_glyph(0xFF), None);
}

#[test]
fn char_to_glyph_maps_the_driver_symbols() {
    let symbols = [
        LAMBDA, THETA, PI, DELTA, DEGREE, PLUS_MINUS, TIMES, DIVIDE, SQRT, INFINITY, APPROX, LE, GE,
    ];
    for (k, &c) in symbols.iter().enumerate() {
        assert_eq!(char_to_glyph(c), Some(60 + k));
    }
    assert_eq!(char_to_glyph(LAMBDA), Some(60));
    assert_eq!(char_to_glyph(GE), Some(72));
}

/// The pixels that `draw_char` gives a cell at (x, y), read from FONT.
fn expect_glyph(fb: &[u16; FB_SIZE], x: usize, y: usize, g: usize, fg: u16, bg: u16) {
    for row in 0..7 {
        for col in 0..5 {
            let lit = (FONT[g][col] >> row) & 1 == 1;
            assert_eq!(at(fb, x + col, y + row), if lit { fg } else { bg }, "glyph {g} ({col}, {row})");
        }
    }
}

#[test]
fn draw_char_draws_the_glyph_cell() {
    let mut fb = framebuffer(0x7777);
    let mut engine = SpriteEngine::new(&mut fb);
    let next = engine.draw_char(10, 20, 0, Color(1), Color(2));
    assert_eq!(next, 16);
    let fb = engine.framebuffer();
    // '0' = [0x3E, 0x51, 0x49, 0x45, 0x3E]: column 0 is lit on rows 1..=5.
    assert_eq!(at(fb, 10, 20), 2);
    assert_eq!(at(fb, 10, 21), 1);
    assert_eq!(at(fb, 10, 25), 1);
    assert_eq!(at(fb, 10, 26), 2);
    expect_glyph(fb, 10, 20, 0, 1, 2);
    assert_eq!(fb.iter().filter(|&&p| p != 0x7777).count(), 35);
    assert_eq!(at(fb, 15, 20), 0x7777); // the blank column is not drawn
}

#[test]
fn draw_char_is_clipped() {
    let mut fb = framebuffer(0);
    let mut engine = SpriteEngine::new(&mut fb);
    let next = engine.draw_char(237, 317, 12, Color(1), Color(2));
    assert_eq!(next, 243);
    assert_eq!(engine.framebuffer().iter().filter(|&&p| p != 0).count(), 3 * 3);
    let next = engine.draw_char(-100, -100, 12, Color(1), Color(2));
    assert_eq!(next, -94);
    let next = engine.draw_char(0, i16::MAX, 12, Color(1), Color(2));
    assert_eq!(next, 6);
    assert_eq!(engine.framebuffer().iter().filter(|&&p| p != 0).count(), 3 * 3);
}

#[test]
fn draw_str_draws_each_character() {
    let mut fb = framebuffer(0);
    let mut engine = SpriteEngine::new(&mut fb);
    let end = engine.draw_str(0, 0, b"Hi!", Color(1), Color(2));
    assert_eq!(end, 18);
    let fb = engine.framebuffer();
    expect_glyph(fb, 0, 0, 19, 1, 2); // 'H'
    expect_glyph(fb, 6, 0, 20, 1, 2); // 'i' as 'I'
    expect_glyph(fb, 12, 0, 49, 1, 2); // '!'
}

#[test]
fn draw_str_leaves_a_blank_for_unknown_bytes() {
    let mut fb = framebuffer(0);
    let mut engine = SpriteEngine::new(&mut fb);
    let end = engine.draw_str(0, 0, b"*A", Color(1), Color(2));
    assert_eq!(end, 12);
    let fb = engine.framebuffer();
    for x in 0..6 {
        for y in 0..7 {
            assert_eq!(at(fb, x, y), 0);
        }
    }
    expect_glyph(fb, 6, 0, 12, 1, 2);
}

#[test]
fn draw_str_stops_at_the_right_edge() {
    let mut fb = framebuffer(0);
    let mut engine = SpriteEngine::new(&mut fb);
    // Characters start at 228 and 234; the third would start at 240.
    let end = engine.draw_str(228, 0, b"ABC", Color(1), Color(2));
    assert_eq!(end, 240);
    let end = engine.draw_str(235, 10, b"A", Color(1), Color(2));
    assert_eq!(end, 235);
    let end = engine.draw_str(i16::MAX, 10, b"A", Color(1), Color(2));
    assert_eq!(end, i16::MAX);
    let end = engine.draw_str(5, 30, b"", Color(1), Color(2));
    assert_eq!(end, 5);
    let fb = engine.framebuffer();
    expect_glyph(fb, 228, 0, 12, 1, 2);
    expect_glyph(fb, 234, 0, 13, 1, 2);
    assert_eq!(fb.iter().filter(|&&p| p != 0).count(), 2 * 35);
}

#[test]
fn draw_str_end_counts_six_pixels_per_character() {
    let mut fb = framebuffer(0);
    let mut engine = SpriteEngine::new(&mut fb);
    let text = [b'X'; 100];
    // From x = 0, the characters that fit start at 0, 6, ..., 234: 40 of them.
    assert_eq!(engine.draw_str(0, 0, &text, Color(1), Color(2)), 240);
    assert_eq!(engine.draw_str(-60, 100, &text, Color(1), Color(2)), 240);
    assert_eq!(engine.draw_str(1, 200, &text[..3], Color(1), Color(2)), 19);
}

#[test]
fn draw_str_extended_symbols() {
    let mut fb = framebuffer(0);
    let mut engine = SpriteEngine::new(&mut fb);
    let text = [PI, LE];
    assert_eq!(engine.draw_str(50, 50, &text, Color(1), Color(2)), 62);
    let fb = engine.framebuffer();
    expect_glyph(fb, 50, 50, 62, 1, 2);
    expect_glyph(fb, 56, 50, 71, 1, 2);
}

#[test]
fn draw_u32_draws_the_decimal_digits() {
    let mut fb = framebuffer(0);
    let mut engine = SpriteEngine::new(&mut fb);
    assert_eq!(engine.draw_u32(10, 10, 120, Color(1), Color(2)), 28);
    let fb = engine.framebuffer();
    expect_glyph(fb, 10, 10, 1, 1, 2);
    expect_glyph(fb, 16, 10, 2, 1, 2);
    expect_glyph(fb, 22, 10, 0, 1, 2);
    assert_eq!(fb.iter().filter(|&&p| p != 0).count(), 3 * 35);
}

#[test]
fn draw_u32_zero_and_max() {
    let mut fb = framebuffer(0);
    let mut engine = SpriteEngine::new(&mut fb);
    assert_eq!(engine.draw_u32(0, 0, 0, Color(1), Color(2)), 6);
    assert_eq!(engine.draw_u32(0, 20, u32::MAX, Color(1), Color(2)), 60);
    let fb = engine.framebuffer();
    expect_glyph(fb, 0, 0, 0, 1, 2);
    for (k, d) in [4, 2, 9, 4, 9, 6, 7, 2, 9, 5].iter().enumerate() {
        expect_glyph(fb, 6 * k, 20, *d, 1, 2);
    }
}

#[test]
fn draw_u32_matches_draw_str() {
    let mut a = framebuffer(0);
    let mut b = framebuffer(0);
    let ea = SpriteEngine::new(&mut a).draw_u32(3, 4, 9_087_001, Color(5), Color(6));
    let eb = SpriteEngine::new(&mut b).draw_str(3, 4, b"9087001", Color(5), Color(6));
    assert_eq!(ea, eb);
    assert_eq!(a, b);
}

#[test]
fn draw_decimal_sign_digits_and_fraction() {
    let mut a = framebuffer(0);
    let mut b = framebuffer(0);
    let ea = SpriteEngine::new(&mut a).draw_decimal(0, 0, true, 12, &[5, 0], Color(1), Color(2));
    let eb = SpriteEngine::new(&mut b).draw_str(0, 0, b"-12.50", Color(1), Color(2));
    assert_eq!(ea, 36);
    assert_eq!(ea, eb);
    assert_eq!(a, b);
}

#[test]
fn draw_decimal_without_fraction() {
    let mut a = framebuffer(0);
    let mut b = framebuffer(0);
    let ea = SpriteEngine::new(&mut a).draw_decimal(7, 9, false, 0, &[], Color(1), Color(2));
    let eb = SpriteEngine::new(&mut b).draw_str(7, 9, b"0", Color(1), Color(2));
    assert_eq!(ea, 13);
    assert_eq!(ea, eb);
    assert_eq!(a, b);
}

#[test]
fn engine_writes_into_the_borrowed_framebuffer() {
    let mut fb = framebuffer(0);
    {
        let mut engine = SpriteEngine::new(&mut fb);
        engine.fill_rect(0, 0, 1, 0, Color(0xF800));
    }
    assert_eq!(fb[0], 0xF800);
    assert_eq!(fb[1], 0xF800);
    assert_eq!(fb[2], 0);
}

#[test]
fn complete_sprite_can_be_drawn_anywhere() {
    let sprite = two_frame_sprite();
    for &x in &[i16::MIN, -3, -2, 0, 100, 237, 239, 240, i16::MAX] {
        for &y in &[i16::MIN, -1, 0, 160, 318, 319, 320, i16::MAX] {
            for frame in 0..4 {
                assert!(sprite.can_draw(x, y, frame), "({x}, {y}) frame {frame}");
                let mut fb = framebuffer(0);
                SpriteEngine::new(&mut fb).draw_sprite(&sprite, x, y, frame);
            }
        }
    }
}
