//! Properties of the drawing operations that span several calls or hold of
//! every input.
use vstd::prelude::*;

use crate::engine::{cleared, rect_rule, sprite_rule, with_glyph, with_pixel};
use crate::font::CHAR_ADVANCE;
use crate::paint::{col_of, lemma_index_point, lemma_pixel_index, on_screen, paint, pixel_index, row_of};
use crate::sprite::PiskelSprite;
use crate::text::{decimal_digits, str_end, with_str};
use crate::{FB_SIZE, SCREEN_H, SCREEN_W, TRANSPARENT_KEY};

verus! {

/// Filling a rectangle that covers the whole screen is clearing the screen.
pub proof fn law_fill_whole_screen_is_clear(fb: Seq<u16>, x0: int, y0: int, x1: int, y1: int, color: u16)
    requires
        fb.len() == FB_SIZE,
        x0 <= 0,
        y0 <= 0,
        x1 >= SCREEN_W - 1,
        y1 >= SCREEN_H - 1,
    ensures
        paint(fb, rect_rule(x0, y0, x1, y1, color)) == cleared(color),
{
    assert forall|i: int| 0 <= i < FB_SIZE implies paint(fb, rect_rule(x0, y0, x1, y1, color))[i]
        == cleared(color)[i] by {
        lemma_index_point(i);
    }
    assert(paint(fb, rect_rule(x0, y0, x1, y1, color)) =~= cleared(color));
}

/// Filling the one-pixel rectangle `[x, x] x [y, y]` is drawing the pixel `(x, y)`.
pub proof fn law_fill_one_pixel_is_draw_pixel(fb: Seq<u16>, x: int, y: int, color: u16)
    requires
        fb.len() == FB_SIZE,
    ensures
        paint(fb, rect_rule(x, y, x, y, color)) == with_pixel(fb, x, y, color),
{
    assert forall|i: int| 0 <= i < FB_SIZE implies paint(fb, rect_rule(x, y, x, y, color))[i]
        == with_pixel(fb, x, y, color)[i] by {
        lemma_index_point(i);
        if on_screen(x, y) {
            lemma_pixel_index(x, y);
        }
    }
    assert(paint(fb, rect_rule(x, y, x, y, color)) =~= with_pixel(fb, x, y, color));
}

/// Doing a drawing operation twice is doing it once: this holds of every
/// operation given by a rule (`fill_rect`, `draw_sprite`, `draw_char`).
pub proof fn law_paint_idempotent(fb: Seq<u16>, rule: spec_fn(int, int) -> Option<u16>)
    ensures
        paint(paint(fb, rule), rule) == paint(fb, rule),
{
    assert(paint(paint(fb, rule), rule) =~= paint(fb, rule));
}

/// Drawing the same pixel twice is drawing it once.
pub proof fn law_draw_pixel_idempotent(fb: Seq<u16>, x: int, y: int, color: u16)
    requires
        fb.len() == FB_SIZE,
    ensures
        with_pixel(with_pixel(fb, x, y, color), x, y, color) == with_pixel(fb, x, y, color),
{
    if on_screen(x, y) {
        lemma_pixel_index(x, y);
    }
    assert(with_pixel(with_pixel(fb, x, y, color), x, y, color) =~= with_pixel(fb, x, y, color));
}

/// Pixels drawn at two different points can be drawn in either order.
pub proof fn law_draw_pixel_commutes(
    fb: Seq<u16>,
    x0: int,
    y0: int,
    c0: u16,
    x1: int,
    y1: int,
    c1: u16,
)
    requires
        fb.len() == FB_SIZE,
        x0 != x1 || y0 != y1,
    ensures
        with_pixel(with_pixel(fb, x0, y0, c0), x1, y1, c1) == with_pixel(
            with_pixel(fb, x1, y1, c1),
            x0,
            y0,
            c0,
        ),
{
    if on_screen(x0, y0) {
        lemma_pixel_index(x0, y0);
    }
    if on_screen(x1, y1) {
        lemma_pixel_index(x1, y1);
    }
    if on_screen(x0, y0) && on_screen(x1, y1) {
        assert(pixel_index(x0, y0) != pixel_index(x1, y1));
    }
    assert(with_pixel(with_pixel(fb, x0, y0, c0), x1, y1, c1) =~= with_pixel(
        with_pixel(fb, x1, y1, c1),
        x0,
        y0,
        c0,
    ));
}

/// A sprite whose `pixels` hold all of its frames can be drawn at any
/// position, fully or partly off the screen, with any frame number: every
/// pixel that lands on the screen is read within `pixels`.
pub proof fn law_complete_sprite_draws_anywhere(
    sprite: PiskelSprite,
    start_x: int,
    start_y: int,
    frame: int,
)
    requires
        0 <= frame,
        sprite.pixels@.len() >= sprite.frame_count * (sprite.width * sprite.height),
    ensures
        sprite.visible_in_bounds(start_x, start_y, frame),
{
    let w = sprite.width as int;
    let h = sprite.height as int;
    let n = sprite.frame_count as int;
    assert forall|px: int, py: int|
        sprite.in_frame(px, py) && frame < n implies #[trigger] sprite.pixel_offset(frame, px, py)
        < sprite.pixels@.len() by {
        assert(frame * (w * h) + py * w + px < n * (w * h)) by (nonlinear_arith)
            requires
                0 <= frame < n,
                0 <= px < w,
                0 <= py < h,
        ;
    }
}

/// A frame past the last one draws nothing.
pub proof fn law_sprite_frame_out_of_range(
    fb: Seq<u16>,
    sprite: PiskelSprite,
    start_x: int,
    start_y: int,
    frame: int,
)
    requires
        frame >= sprite.frame_count,
    ensures
        paint(fb, sprite_rule(sprite, start_x, start_y, frame)) == fb,
{
    assert(paint(fb, sprite_rule(sprite, start_x, start_y, frame)) =~= fb);
}

/// A frame whose pixels are all the transparent key draws nothing.
pub proof fn law_transparent_frame_draws_nothing(
    fb: Seq<u16>,
    sprite: PiskelSprite,
    start_x: int,
    start_y: int,
    frame: int,
)
    requires
        forall|px: int, py: int|
            sprite.in_frame(px, py) ==> #[trigger] sprite.frame_pixel(frame, px, py) == TRANSPARENT_KEY,
    ensures
        paint(fb, sprite_rule(sprite, start_x, start_y, frame)) == fb,
{
    assert(paint(fb, sprite_rule(sprite, start_x, start_y, frame)) =~= fb);
}

/// Drawing a sprite changes no pixel outside the rectangle that the frame
/// covers, and sets every on-screen opaque pixel of the frame.
pub proof fn law_sprite_locality(
    fb: Seq<u16>,
    sprite: PiskelSprite,
    start_x: int,
    start_y: int,
    frame: int,
    i: int,
)
    requires
        fb.len() == FB_SIZE,
        0 <= i < FB_SIZE,
    ensures
        !sprite.in_frame(col_of(i) - start_x, row_of(i) - start_y) ==> paint(
            fb,
            sprite_rule(sprite, start_x, start_y, frame),
        )[i] == fb[i],
        frame < sprite.frame_count && sprite.in_frame(col_of(i) - start_x, row_of(i) - start_y)
            && sprite.frame_pixel(frame, col_of(i) - start_x, row_of(i) - start_y) != TRANSPARENT_KEY
            ==> paint(fb, sprite_rule(sprite, start_x, start_y, frame))[i] == sprite.frame_pixel(
            frame,
            col_of(i) - start_x,
            row_of(i) - start_y,
        ),
{
}

/// Drawing text changes only pixels of the rows `y .. y + 7` and of the
/// columns from `x` to the x coordinate that `draw_str` returns.
pub proof fn law_str_locality(fb: Seq<u16>, x: int, y: int, text: Seq<u8>, fg: u16, bg: u16, i: int)
    requires
        fb.len() == FB_SIZE,
        0 <= i < FB_SIZE,
        !(y <= row_of(i) < y + 7 && x <= col_of(i) < str_end(x, text)),
    ensures
        with_str(fb, x, y, text, fg, bg)[i] == fb[i],
    decreases text.len(),
{
    if text.len() == 0 || x + 5 >= SCREEN_W {
    } else {
        let next = match crate::font::glyph_of(text[0]) {
            Some(g) => with_glyph(fb, x, y, g, fg, bg),
            None => fb,
        };
        law_str_end_advances(x + CHAR_ADVANCE, text.drop_first());
        law_str_locality(next, x + CHAR_ADVANCE, y, text.drop_first(), fg, bg, i);
    }
}

/// `draw_str` never moves left: the x coordinate it returns is at least `x`.
pub proof fn law_str_end_advances(x: int, text: Seq<u8>)
    ensures
        str_end(x, text) >= x,
    decreases text.len(),
{
    if text.len() > 0 && x + 5 < SCREEN_W {
        law_str_end_advances(x + CHAR_ADVANCE, text.drop_first());
    }
}

/// How many characters of a text starting at `x` fit on the screen: those
/// that start left of `SCREEN_W - 5`.
pub open spec fn chars_that_fit(x: int) -> int {
    if x + 5 >= SCREEN_W {
        0
    } else {
        (SCREEN_W - x) / CHAR_ADVANCE as int
    }
}

/// `draw_str` returns the x coordinate after the last character it drew:
/// six pixels per character, for every character of `text` that fits.
pub proof fn law_str_end(x: int, text: Seq<u8>)
    ensures
        str_end(x, text) == x + CHAR_ADVANCE * (if text.len() < chars_that_fit(x) {
            text.len() as int
        } else {
            chars_that_fit(x)
        }),
    decreases text.len(),
{
    if text.len() > 0 && x + 5 < SCREEN_W {
        law_str_end(x + CHAR_ADVANCE, text.drop_first());
        assert(chars_that_fit(x + CHAR_ADVANCE) == chars_that_fit(x) - 1);
    }
}

/// The value of a sequence of decimal digits, most significant first.
pub open spec fn digits_value(d: Seq<int>) -> int
    decreases d.len(),
{
    if d.len() == 0 {
        0
    } else {
        digits_value(d.drop_last()) * 10 + d.last()
    }
}

/// `draw_u32` draws the decimal notation of its value: digits from `0` to `9`
/// whose value is `n`, with no leading zero.
pub proof fn law_decimal_digits(n: nat)
    ensures
        digits_value(decimal_digits(n)) == n,
        forall|k: int| 0 <= k < decimal_digits(n).len() ==> 0 <= #[trigger] decimal_digits(n)[k] < 10,
        decimal_digits(n).len() >= 1,
        n > 0 ==> decimal_digits(n)[0] != 0,
    decreases n,
{
    if n < 10 {
        assert(decimal_digits(n).drop_last() =~= Seq::<int>::empty());
        assert(digits_value(decimal_digits(n)) == digits_value(Seq::<int>::empty()) * 10 + n);
    } else {
        law_decimal_digits(n / 10);
        assert(decimal_digits(n).drop_last() =~= decimal_digits(n / 10));
        assert(decimal_digits(n).last() == n % 10);
        assert(digits_value(decimal_digits(n)) == digits_value(decimal_digits(n / 10)) * 10 + n % 10);
        assert((n / 10) * 10 + n % 10 == n) by (nonlinear_arith);
        assert(decimal_digits(n)[0] == decimal_digits(n / 10)[0]);
    }
}

} // verus!
