//! The sprite engine: drawing operations on a borrowed RAM framebuffer.
use vstd::prelude::*;

use crate::font::{glyph_lit, CHAR_ADVANCE, FONT, GLYPH_COUNT};
use crate::paint::{
    lemma_paint_done, lemma_paint_next_row, lemma_paint_nothing, lemma_paint_start,
    lemma_paint_step, lemma_pixel_index, on_screen, paint, pixel_index, rule_before,
};
use crate::sprite::PiskelSprite;
use crate::{FB_SIZE, SCREEN_H, SCREEN_W, TRANSPARENT_KEY};

verus! {

/// An RGB565 colour.
#[derive(Clone, Copy, PartialEq, Eq, Debug, Structural)]
pub struct Color(pub u16);

/// The framebuffer after `clear(color)`: every pixel is `color`.
pub open spec fn cleared(color: u16) -> Seq<u16> {
    Seq::new(FB_SIZE as nat, |i: int| color)
}

/// The framebuffer `fb` after `draw_pixel(x, y, color)`.
pub open spec fn with_pixel(fb: Seq<u16>, x: int, y: int, color: u16) -> Seq<u16> {
    if on_screen(x, y) {
        fb.update(pixel_index(x, y), color)
    } else {
        fb
    }
}

/// The rule of `fill_rect`: the points of the inclusive rectangle
/// `[x0, x1] x [y0, y1]` take `color`.
pub open spec fn rect_rule(x0: int, y0: int, x1: int, y1: int, color: u16) -> spec_fn(
    int,
    int,
) -> Option<u16> {
    |x: int, y: int|
        if x0 <= x <= x1 && y0 <= y <= y1 {
            Some(color)
        } else {
            None
        }
}

/// The rule of `draw_sprite`: the point `(x, y)` takes the pixel of `frame` at
/// `(x - start_x, y - start_y)` when that is a pixel of the frame and is not
/// transparent; nothing is drawn for a frame past the last one.
pub open spec fn sprite_rule(sprite: PiskelSprite, start_x: int, start_y: int, frame: int) -> spec_fn(
    int,
    int,
) -> Option<u16> {
    |x: int, y: int|
        {
            let px = x - start_x;
            let py = y - start_y;
            if frame < sprite.frame_count && sprite.in_frame(px, py) && sprite.frame_pixel(frame, px, py)
                != TRANSPARENT_KEY {
                Some(sprite.frame_pixel(frame, px, py))
            } else {
                None
            }
        }
}

/// The rule of `draw_char`: the 5x7 cell with its top-left corner at `(x, y)`
/// takes `fg` where glyph `g` is lit and `bg` elsewhere.
pub open spec fn glyph_rule(x: int, y: int, g: int, fg: u16, bg: u16) -> spec_fn(int, int) -> Option<
    u16,
> {
    |px: int, py: int|
        {
            let col = px - x;
            let row = py - y;
            if 0 <= col < 5 && 0 <= row < 7 {
                Some(
                    if glyph_lit(g, col, row) {
                        fg
                    } else {
                        bg
                    },
                )
            } else {
                None
            }
        }
}

/// The framebuffer `fb` after `draw_char(x, y, g, fg, bg)`.
pub open spec fn with_glyph(fb: Seq<u16>, x: int, y: int, g: int, fg: u16, bg: u16) -> Seq<u16> {
    paint(fb, glyph_rule(x, y, g, fg, bg))
}

/// Framebuffer renderer for the ST7789V: it draws into a borrowed buffer of
/// `FB_SIZE` RGB565 pixels, row after row, `SCREEN_W` pixels per row.
pub struct SpriteEngine<'a> {
    framebuffer: &'a mut [u16; FB_SIZE],
}

impl<'a> View for SpriteEngine<'a> {
    type V = Seq<u16>;

    /// The pixels of the framebuffer, row-major.
    closed spec fn view(&self) -> Seq<u16> {
        self.framebuffer@
    }
}

impl<'a> SpriteEngine<'a> {
    /// The framebuffer always holds `FB_SIZE` pixels.
    pub proof fn lemma_view_len(&self)
        ensures
            self@.len() == FB_SIZE,
    {
    }

    /// Creates an engine that draws into `framebuffer`.
    pub fn new(framebuffer: &'a mut [u16; FB_SIZE]) -> (engine: Self)
        ensures
            engine@ == old(framebuffer)@,
    {
        SpriteEngine { framebuffer }
    }

    /// The framebuffer, to be sent to the screen.
    pub fn framebuffer(&self) -> (fb: &[u16; FB_SIZE])
        ensures
            fb@ == self@,
    {
        self.framebuffer
    }

    /// Fills the whole framebuffer with `color`.
    pub fn clear(&mut self, color: Color)
        ensures
            final(self)@ == cleared(color.0),
    {
        let mut i: usize = 0;
        while i < FB_SIZE
            invariant
                i <= FB_SIZE,
                self@.len() == FB_SIZE,
                forall|j: int| 0 <= j < i ==> self@[j] == color.0,
            decreases FB_SIZE - i,
        {
            self.framebuffer[i] = color.0;
            i = i + 1;
        }
        assert(self@ =~= cleared(color.0));
    }

    /// Sets the pixel `(x, y)` to `color`; a point off the screen is ignored.
    pub fn draw_pixel(&mut self, x: i16, y: i16, color: Color)
        ensures
            final(self)@ == with_pixel(old(self)@, x as int, y as int, color.0),
    {
        if x >= 0 && y >= 0 && (x as usize) < SCREEN_W && (y as usize) < SCREEN_H {
            proof {
                lemma_pixel_index(x as int, y as int);
            }
            self.framebuffer[(y as usize) * SCREEN_W + (x as usize)] = color.0;
        }
    }

    /// Fills the rectangle `[x0, x1] x [y0, y1]` (corners included) with
    /// `color`, clipped to the screen; an empty or off-screen rectangle changes
    /// nothing.
    pub fn fill_rect(&mut self, x0: i16, y0: i16, x1: i16, y1: i16, color: Color)
        ensures
            final(self)@ == paint(
                old(self)@,
                rect_rule(x0 as int, y0 as int, x1 as int, y1 as int, color.0),
            ),
    {
        let ghost old_fb = self@;
        let ghost rule = rect_rule(x0 as int, y0 as int, x1 as int, y1 as int, color.0);
        let xa: i32 = if x0 < 0 { 0 } else { x0 as i32 };
        let ya: i32 = if y0 < 0 { 0 } else { y0 as i32 };
        let xb: i32 = if (x1 as i32) < 239 { x1 as i32 + 1 } else { 240 };
        let yb: i32 = if (y1 as i32) < 319 { y1 as i32 + 1 } else { 320 };
        if xa >= xb || ya >= yb {
            proof {
                lemma_paint_nothing(old_fb, rule);
            }
            return;
        }
        let xa = xa as usize;
        let xb = xb as usize;
        let yb = yb as usize;
        let mut y = ya as usize;
        proof {
            lemma_paint_start(old_fb, rule, xa as int, xb as int, ya as int);
        }
        while y < yb
            invariant
                old_fb.len() == FB_SIZE,
                rule == rect_rule(x0 as int, y0 as int, x1 as int, y1 as int, color.0),
                0 <= ya <= y <= yb <= SCREEN_H,
                xa < xb <= SCREEN_W,
                x0 <= xa,
                xb <= x1 + 1,
                y0 <= ya,
                yb <= y1 + 1,
                self@ == paint(old_fb, rule_before(rule, xa as int, xb as int, ya as int, xa as int, y as int)),
            decreases yb - y,
        {
            let mut x = xa;
            while x < xb
                invariant
                    old_fb.len() == FB_SIZE,
                    rule == rect_rule(x0 as int, y0 as int, x1 as int, y1 as int, color.0),
                    0 <= ya <= y < yb <= SCREEN_H,
                    xa <= x <= xb <= SCREEN_W,
                    x0 <= xa,
                    xb <= x1 + 1,
                    y0 <= ya,
                    yb <= y1 + 1,
                    self@ == paint(old_fb, rule_before(rule, xa as int, xb as int, ya as int, x as int, y as int)),
                decreases xb - x,
            {
                proof {
                    lemma_paint_step(old_fb, rule, xa as int, xb as int, ya as int, x as int, y as int);
                    lemma_pixel_index(x as int, y as int);
                    assert(rule(x as int, y as int) == Some(color.0));
                }
                self.framebuffer[y * SCREEN_W + x] = color.0;
                x = x + 1;
            }
            proof {
                lemma_paint_next_row(old_fb, rule, xa as int, xb as int, ya as int, y as int);
            }
            y = y + 1;
        }
        proof {
            lemma_paint_done(old_fb, rule, xa as int, xb as int, ya as int, yb as int);
        }
    }

    /// Draws frame `frame` of `sprite` with its top-left corner at
    /// `(start_x, start_y)`: transparent pixels are skipped and the sprite is
    /// clipped to the screen; a frame past the last one draws nothing.
    pub fn draw_sprite(&mut self, sprite: &PiskelSprite, start_x: i16, start_y: i16, frame: u16)
        requires
            sprite.visible_in_bounds(start_x as int, start_y as int, frame as int),
        ensures
            final(self)@ == paint(
                old(self)@,
                sprite_rule(*sprite, start_x as int, start_y as int, frame as int),
            ),
    {
        let ghost old_fb = self@;
        let ghost rule = sprite_rule(*sprite, start_x as int, start_y as int, frame as int);
        if frame >= sprite.frame_count {
            proof {
                lemma_paint_nothing(old_fb, rule);
            }
            return;
        }
        let w = sprite.width as i32;
        let h = sprite.height as i32;
        let sx = start_x as i32;
        let sy = start_y as i32;
        let xa: i32 = if sx < 0 { 0 } else { sx };
        let ya: i32 = if sy < 0 { 0 } else { sy };
        let xb: i32 = if sx + w < 240 { sx + w } else { 240 };
        let yb: i32 = if sy + h < 320 { sy + h } else { 320 };
        if xa >= xb || ya >= yb {
            proof {
                lemma_paint_nothing(old_fb, rule);
            }
            return;
        }
        let wu = sprite.width as u64;
        let hu = sprite.height as u64;
        assert(wu * hu <= 65535 * 65535) by (nonlinear_arith)
            requires
                wu <= 65535,
                hu <= 65535,
        ;
        let frame_size = wu * hu;
        assert(frame * frame_size <= 65535 * (65535 * 65535)) by (nonlinear_arith)
            requires
                frame <= 65535,
                frame_size <= 65535 * 65535,
        ;
        let frame_base: u64 = (frame as u64) * frame_size;
        let xa = xa as usize;
        let xb = xb as usize;
        let yb = yb as usize;
        let mut y = ya as usize;
        proof {
            lemma_paint_start(old_fb, rule, xa as int, xb as int, ya as int);
        }
        while y < yb
            invariant
                old_fb.len() == FB_SIZE,
                rule == sprite_rule(*sprite, start_x as int, start_y as int, frame as int),
                sprite.visible_in_bounds(start_x as int, start_y as int, frame as int),
                frame < sprite.frame_count,
                sx == start_x,
                sy == start_y,
                wu == sprite.width,
                hu == sprite.height,
                frame_base == frame * (wu * hu),
                frame_base <= 65535 * (65535 * 65535),
                0 <= ya <= y <= yb <= SCREEN_H,
                xa < xb <= SCREEN_W,
                start_x <= xa,
                xb <= start_x + sprite.width,
                start_y <= ya,
                yb <= start_y + sprite.height,
                self@ == paint(old_fb, rule_before(rule, xa as int, xb as int, ya as int, xa as int, y as int)),
            decreases yb - y,
        {
            let py = (y as i32 - sy) as u64;
            assert(py * wu <= 65535 * 65535) by (nonlinear_arith)
                requires
                    py < 65535,
                    wu <= 65535,
            ;
            let row_base = frame_base + py * wu;
            let mut x = xa;
            while x < xb
                invariant
                    old_fb.len() == FB_SIZE,
                    rule == sprite_rule(*sprite, start_x as int, start_y as int, frame as int),
                    sprite.visible_in_bounds(start_x as int, start_y as int, frame as int),
                    frame < sprite.frame_count,
                    sx == start_x,
                    sy == start_y,
                    wu == sprite.width,
                    hu == sprite.height,
                    py == y - start_y,
                    row_base == frame * (wu * hu) + py * wu,
                    row_base <= 65535 * (65535 * 65535) + 65535 * 65535,
                    0 <= ya <= y < yb <= SCREEN_H,
                    xa <= x <= xb <= SCREEN_W,
                    start_x <= xa,
                    xb <= start_x + sprite.width,
                    start_y <= ya,
                    yb <= start_y + sprite.height,
                    self@ == paint(old_fb, rule_before(rule, xa as int, xb as int, ya as int, x as int, y as int)),
                decreases xb - x,
            {
                let px = (x as i32 - sx) as u64;
                let offset = row_base + px;
                proof {
                    lemma_paint_step(old_fb, rule, xa as int, xb as int, ya as int, x as int, y as int);
                    lemma_pixel_index(x as int, y as int);
                    assert(offset == sprite.pixel_offset(frame as int, px as int, py as int));
                    assert(sprite.in_frame(px as int, py as int));
                }
                let raw = sprite.pixels[offset as usize];
                if raw != TRANSPARENT_KEY {
                    self.framebuffer[y * SCREEN_W + x] = raw;
                }
                x = x + 1;
            }
            proof {
                lemma_paint_next_row(old_fb, rule, xa as int, xb as int, ya as int, y as int);
            }
            y = y + 1;
        }
        proof {
            lemma_paint_done(old_fb, rule, xa as int, xb as int, ya as int, yb as int);
        }
    }

    /// Draws glyph `glyph_idx` of the 5x7 font with its top-left corner at
    /// `(x, y)`, lit pixels in `fg` and the others in `bg`, clipped to the
    /// screen. Returns the x coordinate after the glyph and one blank column.
    pub fn draw_char(&mut self, x: i16, y: i16, glyph_idx: usize, fg: Color, bg: Color) -> (next_x: i16)
        requires
            glyph_idx < GLYPH_COUNT,
            x + CHAR_ADVANCE <= i16::MAX,
        ensures
            final(self)@ == with_glyph(old(self)@, x as int, y as int, glyph_idx as int, fg.0, bg.0),
            next_x == x + CHAR_ADVANCE,
    {
        let ghost old_fb = self@;
        let ghost rule = glyph_rule(x as int, y as int, glyph_idx as int, fg.0, bg.0);
        let gx = x as i32;
        let gy = y as i32;
        let xa: i32 = if gx < 0 { 0 } else { gx };
        let ya: i32 = if gy < 0 { 0 } else { gy };
        let xb: i32 = if gx + 5 < 240 { gx + 5 } else { 240 };
        let yb: i32 = if gy + 7 < 320 { gy + 7 } else { 320 };
        if xa >= xb || ya >= yb {
            proof {
                lemma_paint_nothing(old_fb, rule);
            }
            return x + CHAR_ADVANCE;
        }
        let xa = xa as usize;
        let xb = xb as usize;
        let yb = yb as usize;
        let mut py = ya as usize;
        proof {
            lemma_paint_start(old_fb, rule, xa as int, xb as int, ya as int);
        }
        while py < yb
            invariant
                old_fb.len() == FB_SIZE,
                rule == glyph_rule(x as int, y as int, glyph_idx as int, fg.0, bg.0),
                glyph_idx < GLYPH_COUNT,
                gx == x,
                gy == y,
                0 <= ya <= py <= yb <= SCREEN_H,
                xa < xb <= SCREEN_W,
                x <= xa,
                xb <= x + 5,
                y <= ya,
                yb <= y + 7,
                self@ == paint(old_fb, rule_before(rule, xa as int, xb as int, ya as int, xa as int, py as int)),
            decreases yb - py,
        {
            let row = (py as i32 - gy) as u32;
            let mut px = xa;
            while px < xb
                invariant
                    old_fb.len() == FB_SIZE,
                    rule == glyph_rule(x as int, y as int, glyph_idx as int, fg.0, bg.0),
                    glyph_idx < GLYPH_COUNT,
                    gx == x,
                    row == py - y,
                    0 <= ya <= py < yb <= SCREEN_H,
                    xa <= px <= xb <= SCREEN_W,
                    x <= xa,
                    xb <= x + 5,
                    y <= ya,
                    yb <= y + 7,
                    self@ == paint(old_fb, rule_before(rule, xa as int, xb as int, ya as int, px as int, py as int)),
                decreases xb - px,
            {
                let col = (px as i32 - gx) as usize;
                let lit = (FONT[glyph_idx][col] >> row) & 1 == 1;
                proof {
                    lemma_paint_step(old_fb, rule, xa as int, xb as int, ya as int, px as int, py as int);
                    lemma_pixel_index(px as int, py as int);
                    assert(lit == glyph_lit(glyph_idx as int, col as int, row as int));
                }
                self.framebuffer[py * SCREEN_W + px] = if lit { fg.0 } else { bg.0 };
                px = px + 1;
            }
            proof {
                lemma_paint_next_row(old_fb, rule, xa as int, xb as int, ya as int, py as int);
            }
            py = py + 1;
        }
        proof {
            lemma_paint_done(old_fb, rule, xa as int, xb as int, ya as int, yb as int);
        }
        x + CHAR_ADVANCE
    }
}

} // verus!
