//! Sprite sheets exported from Piskel.
use vstd::prelude::*;

use crate::paint::on_screen;

verus! {

/// A still sprite or an animation sheet exported from Piskel.
///
/// The frames are stored one after the other in `pixels`, each frame row after
/// row, each pixel an RGB565 word; a pixel equal to
/// [`TRANSPARENT_KEY`](crate::TRANSPARENT_KEY) is transparent.
#[derive(Clone, Copy)]
pub struct PiskelSprite {
    /// Width of one frame in pixels.
    pub width: u16,
    /// Height of one frame in pixels.
    pub height: u16,
    /// Number of frames in the sheet.
    pub frame_count: u16,
    /// RGB565 pixels of all the frames.
    pub pixels: &'static [u16],
}

impl PiskelSprite {
    /// Position in `pixels` of the pixel at column `px`, row `py` of `frame`.
    pub open spec fn pixel_offset(&self, frame: int, px: int, py: int) -> int {
        frame * (self.width * self.height) + py * self.width + px
    }

    /// The pixel at column `px`, row `py` of `frame`.
    pub open spec fn frame_pixel(&self, frame: int, px: int, py: int) -> u16 {
        self.pixels@[self.pixel_offset(frame, px, py)]
    }

    /// Whether `(px, py)` is a pixel position of one frame.
    pub open spec fn in_frame(&self, px: int, py: int) -> bool {
        0 <= px < self.width && 0 <= py < self.height
    }

    /// Whether every pixel of `frame` that lands on the screen, when the frame
    /// is drawn with its top-left corner at `(start_x, start_y)`, lies within
    /// `pixels`. Nothing is read for a frame past the last one.
    pub open spec fn visible_in_bounds(&self, start_x: int, start_y: int, frame: int) -> bool {
        frame < self.frame_count ==> forall|px: int, py: int|
            self.in_frame(px, py) && on_screen(start_x + px, start_y + py)
                ==> #[trigger] self.pixel_offset(frame, px, py) < self.pixels@.len()
    }

    /// Tells whether `draw_sprite` can draw `frame` at `(start_x, start_y)`:
    /// every pixel of the frame that lands on the screen lies within `pixels`.
    pub fn can_draw(&self, start_x: i16, start_y: i16, frame: u16) -> (ok: bool)
        ensures
            ok == self.visible_in_bounds(start_x as int, start_y as int, frame as int),
    {
        if frame >= self.frame_count {
            return true;
        }
        let w = self.width as i32;
        let h = self.height as i32;
        let sx = start_x as i32;
        let sy = start_y as i32;
        // The columns and rows of the frame that land on the screen.
        let pxa: i32 = if sx < 0 { -sx } else { 0 };
        let pya: i32 = if sy < 0 { -sy } else { 0 };
        let pxb: i32 = if 240 - sx < w { 240 - sx } else { w };
        let pyb: i32 = if 320 - sy < h { 320 - sy } else { h };
        if pxa >= pxb || pya >= pyb {
            return true;
        }
        let wu = self.width as u64;
        let hu = self.height as u64;
        let lx = (pxb - 1) as u64;
        let ly = (pyb - 1) as u64;
        assert(wu * hu <= 65535 * 65535) by (nonlinear_arith)
            requires
                wu <= 65535,
                hu <= 65535,
        ;
        assert(frame * (wu * hu) + ly * wu + lx <= 65535 * (65535 * 65535) + 65535 * 65535 + 65535)
            by (nonlinear_arith)
            requires
                frame <= 65535,
                wu <= 65535,
                hu <= 65535,
                ly < 65535,
                lx < 65535,
        ;
        let last = (frame as u64) * (wu * hu) + ly * wu + lx;
        let ok = last < self.pixels.len() as u64;
        proof {
            assert(self.in_frame(lx as int, ly as int) && on_screen(start_x + lx, start_y + ly));
            assert(last == self.pixel_offset(frame as int, lx as int, ly as int));
            assert forall|px: int, py: int|
                self.in_frame(px, py) && on_screen(start_x + px, start_y + py) implies
                #[trigger] self.pixel_offset(frame as int, px, py) <= last by {
                assert(py * wu <= ly * wu) by (nonlinear_arith)
                    requires
                        py <= ly,
                        wu >= 0,
                ;
            }
        }
        ok
    }
}

} // verus!
