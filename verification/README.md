# embassy-st7789v-sprite

Sprite and text rendering into a RAM framebuffer for the ST7789V display
(240x320, RGB565), with the drawing operations specified and proved in Verus.

- `src/` is the verified library: the framebuffer model (`paint`), the 5x7
  font and byte-to-glyph mapping (`font`), Piskel sprite sheets (`sprite`),
  the engine with pixel, rectangle, sprite and glyph drawing (`engine`), text
  and numbers (`text`), and properties spanning several operations (`laws`).
- `app/` holds what talks to the display: the `St7789v` driver, the
  asynchronous one-block transfer of the framebuffer (`flush`), and the
  floating-point formatting of `draw_f32`, which hands its sign, integer part
  and digits to the library.
- `tests/` runs the library on concrete scenes.
