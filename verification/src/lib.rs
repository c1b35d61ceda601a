//! Sprite and text rendering into a RAM framebuffer for the ST7789V display
//! (240x320 pixels, RGB565).
//!
//! Every drawing operation only changes the framebuffer, in RAM: a whole
//! scene (background, sprites, text) is composed there and then sent to the
//! screen in one block, which avoids flicker.
//!
//! Modules:
//! - `paint`: the framebuffer model and the painting of a region by a rule;
//! - `font`: the 5x7 font and the mapping from text bytes to glyphs;
//! - `sprite`: Piskel sprite sheets;
//! - `engine`: the engine and its pixel, rectangle, sprite and glyph drawing;
//! - `text`: text and numbers;
//! - `laws`: properties that span several operations;
//! - `text_laws`: what each glyph cell holds, and how text, integers and
//!   decimal numbers relate.
use vstd::prelude::*;

pub use embassy_st7789v::{
    NoPin, St7789v, St7789vBuffered, APPROX, DEGREE, DELTA, DIVIDE, GE, INFINITY, LAMBDA, LE, PI,
    PLUS_MINUS, SQRT, THETA, TIMES,
};

pub use engine::{Color, SpriteEngine};
pub use sprite::PiskelSprite;

pub mod engine;
pub mod font;
pub mod laws;
pub mod paint;
pub mod sprite;
pub mod text;
pub mod text_laws;

verus! {

/// Width of the screen in pixels.
pub const SCREEN_W: usize = 240;

/// Height of the screen in pixels.
pub const SCREEN_H: usize = 320;

/// Number of pixels in the framebuffer (`SCREEN_W * SCREEN_H`).
pub const FB_SIZE: usize = SCREEN_W * SCREEN_H;

/// The RGB565 colour key (magenta) that [`SpriteEngine::draw_sprite`] treats
/// as transparent.
pub const TRANSPARENT_KEY: u16 = 0xF81F;

} // verus!
