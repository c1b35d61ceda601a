//! Properties of the text drawing: what each glyph cell holds, pixel by pixel,
//! and how text, integers and decimal numbers relate to one another.
use vstd::prelude::*;

use crate::engine::with_glyph;
use crate::font::{glyph_of, CHAR_ADVANCE, FONT, GLYPH_DOT, GLYPH_MINUS, PUNCTUATION};
use crate::laws::digits_value;
use crate::paint::{lemma_pixel_index, on_screen, pixel_index};
use crate::text::{as_glyphs, decimal_digits, decimal_glyphs, str_end, with_glyphs, with_str};
use crate::{FB_SIZE, SCREEN_W};

verus! {

/// Whether bit `row` of column `col` of glyph `g` is set in `FONT`.
pub open spec fn font_bit(g: int, col: int, row: int) -> bool {
    (FONT@[g]@[col] >> (row as u32)) & 1u8 == 1u8
}

/// `draw_char` sets each on-screen pixel of the 5x7 cell whose top-left corner
/// is `(x, y)`: pixel `(px, py)` shows bit `py - y` of column `px - x` of the
/// glyph, in `fg` when set and `bg` when not, whatever the sign of `x` and
/// `y`; every other pixel keeps its value.
pub proof fn law_glyph_pixels(fb: Seq<u16>, x: int, y: int, g: int, fg: u16, bg: u16, px: int, py: int)
    requires
        fb.len() == FB_SIZE,
        on_screen(px, py),
    ensures
        with_glyph(fb, x, y, g, fg, bg)[pixel_index(px, py)] == if 0 <= px - x < 5 && 0 <= py - y < 7 {
            if font_bit(g, px - x, py - y) {
                fg
            } else {
                bg
            }
        } else {
            fb[pixel_index(px, py)]
        },
{
    lemma_pixel_index(px, py);
}

/// A glyph looks the same wherever it is drawn: moving it `k` columns to the
/// right moves each of its on-screen pixels `k` columns, also when the cell is
/// cut by the left edge of the screen at one of the two places.
pub proof fn law_glyph_translation(
    fb0: Seq<u16>,
    fb1: Seq<u16>,
    x: int,
    y: int,
    k: int,
    g: int,
    fg: u16,
    bg: u16,
    col: int,
    row: int,
)
    requires
        fb0.len() == FB_SIZE,
        fb1.len() == FB_SIZE,
        0 <= col < 5,
        0 <= row < 7,
        on_screen(x + col, y + row),
        on_screen(x + k + col, y + row),
    ensures
        with_glyph(fb0, x, y, g, fg, bg)[pixel_index(x + col, y + row)] == with_glyph(
            fb1,
            x + k,
            y,
            g,
            fg,
            bg,
        )[pixel_index(x + k + col, y + row)],
{
    law_glyph_pixels(fb0, x, y, g, fg, bg, x + col, y + row);
    law_glyph_pixels(fb1, x + k, y, g, fg, bg, x + k + col, y + row);
}

/// Drawing a run of glyphs from `(x, y)`: the on-screen pixel `(px, py)` lies
/// in the cell of the `k`-th glyph when `px - x` is `6k + col` with `col < 5`
/// and `0 <= py - y < 7`; it then shows bit `py - y` of column `col` of that
/// very glyph, and any other pixel keeps its value.
pub proof fn law_glyph_run_pixels(
    fb: Seq<u16>,
    x: int,
    y: int,
    glyphs: Seq<int>,
    fg: u16,
    bg: u16,
    px: int,
    py: int,
)
    requires
        fb.len() == FB_SIZE,
        on_screen(px, py),
    ensures
        with_glyphs(fb, x, y, glyphs, fg, bg)[pixel_index(px, py)] == if 0 <= px - x && (px - x)
            / 6 < glyphs.len() && (px - x) % 6 < 5 && 0 <= py - y < 7 {
            if font_bit(glyphs[(px - x) / 6], (px - x) % 6, py - y) {
                fg
            } else {
                bg
            }
        } else {
            fb[pixel_index(px, py)]
        },
    decreases glyphs.len(),
{
    if glyphs.len() == 0 {
    } else {
        let fb1 = with_glyph(fb, x, y, glyphs[0], fg, bg);
        law_glyph_pixels(fb, x, y, glyphs[0], fg, bg, px, py);
        law_glyph_run_pixels(fb1, x + CHAR_ADVANCE, y, glyphs.drop_first(), fg, bg, px, py);
        if px - x >= 6 {
            assert((px - x - 6) / 6 == (px - x) / 6 - 1);
            assert((px - x - 6) % 6 == (px - x) % 6);
        } else if 0 <= px - x {
            assert((px - x) / 6 == 0);
            assert((px - x) % 6 == px - x);
        }
    }
}

/// The glyphs of a text whose every byte has one.
pub open spec fn glyphs_of_text(text: Seq<u8>) -> Seq<int> {
    text.map_values(|c: u8| glyph_of(c)->0)
}

/// Whether every byte of `text` has a glyph and every character of it starts
/// left of `SCREEN_W - 5`, so that `draw_str` draws all of it.
pub open spec fn text_fits(x: int, text: Seq<u8>) -> bool {
    &&& forall|k: int| 0 <= k < text.len() ==> (#[trigger] glyph_of(text[k])) is Some
    &&& text.len() > 0 ==> x + CHAR_ADVANCE * (text.len() - 1) + 5 < SCREEN_W
}

/// Text that fits is drawn as the run of its glyphs, one cell per byte, every
/// cell painted whole (a space included), and `draw_str` returns the x six
/// pixels per byte further right.
pub proof fn law_str_is_its_glyph_run(fb: Seq<u16>, x: int, y: int, text: Seq<u8>, fg: u16, bg: u16)
    requires
        text_fits(x, text),
    ensures
        with_str(fb, x, y, text, fg, bg) == with_glyphs(fb, x, y, glyphs_of_text(text), fg, bg),
        str_end(x, text) == x + CHAR_ADVANCE * text.len(),
    decreases text.len(),
{
    if text.len() > 0 {
        let rest = text.drop_first();
        assert(glyphs_of_text(text).drop_first() =~= glyphs_of_text(rest));
        assert(glyphs_of_text(text)[0] == glyph_of(text[0])->0);
        assert(glyph_of(text[0]) is Some);
        assert forall|k: int| 0 <= k < rest.len() implies (#[trigger] glyph_of(rest[k])) is Some by {
            assert(rest[k] == text[k + 1]);
        }
        law_str_is_its_glyph_run(
            with_glyph(fb, x, y, glyph_of(text[0])->0, fg, bg),
            x + CHAR_ADVANCE,
            y,
            rest,
            fg,
            bg,
        );
    } else {
        assert(glyphs_of_text(text) =~= Seq::<int>::empty());
    }
}

/// A space paints its whole cell with the background colour.
pub proof fn law_space_paints_background(
    fb: Seq<u16>,
    x: int,
    y: int,
    fg: u16,
    bg: u16,
    col: int,
    row: int,
)
    requires
        fb.len() == FB_SIZE,
        x + 5 < SCREEN_W,
        0 <= col < 5,
        0 <= row < 7,
        on_screen(x + col, y + row),
    ensures
        with_str(fb, x, y, seq![0x20u8], fg, bg)[pixel_index(x + col, y + row)] == bg,
{
    let text = seq![0x20u8];
    assert(glyph_of(text[0]) == Some(11int));
    law_str_is_its_glyph_run(fb, x, y, text, fg, bg);
    assert(glyphs_of_text(text) =~= seq![11int]);
    law_glyph_run_pixels(fb, x, y, seq![11int], fg, bg, x + col, y + row);
    assert(col / 6 == 0 && col % 6 == col);
    assert(FONT@[11]@[col] == 0u8);
    let r = row as u32;
    assert((0u8 >> r) & 1u8 == 0u8) by (bit_vector);
}

/// Digits in range have a value of at least zero, and above zero when the
/// first one is not zero.
proof fn lemma_digits_value_bounds(d: Seq<int>)
    requires
        forall|k: int| 0 <= k < d.len() ==> 0 <= #[trigger] d[k] < 10,
    ensures
        digits_value(d) >= 0,
        d.len() > 0 && d[0] != 0 ==> digits_value(d) > 0,
    decreases d.len(),
{
    if d.len() > 0 {
        let p = d.drop_last();
        assert forall|k: int| 0 <= k < p.len() implies 0 <= #[trigger] p[k] < 10 by {
            assert(p[k] == d[k]);
        }
        lemma_digits_value_bounds(p);
        if p.len() > 0 {
            assert(p[0] == d[0]);
        }
    }
}

/// Decimal notation is unique: digits in range, with no leading zero, whose
/// value is `n`, are the digits that `draw_u32` draws for `n`.
proof fn lemma_decimal_digits_unique(d: Seq<int>, n: nat)
    requires
        d.len() > 0,
        forall|k: int| 0 <= k < d.len() ==> 0 <= #[trigger] d[k] < 10,
        d.len() > 1 ==> d[0] != 0,
        digits_value(d) == n,
    ensures
        d == decimal_digits(n),
    decreases d.len(),
{
    let p = d.drop_last();
    assert forall|k: int| 0 <= k < p.len() implies 0 <= #[trigger] p[k] < 10 by {
        assert(p[k] == d[k]);
    }
    lemma_digits_value_bounds(p);
    if d.len() == 1 {
        assert(p =~= Seq::<int>::empty());
        assert(d =~= seq![n as int]);
    } else {
        assert(p[0] == d[0]);
        let v = digits_value(p);
        assert(v * 10 + d.last() == n);
        vstd::arithmetic::div_mod::lemma_fundamental_div_mod_converse(n as int, 10, v, d.last());
        lemma_decimal_digits_unique(p, (n / 10) as nat);
        assert(d =~= p.push(d.last()));
    }
}

/// The values of ASCII digit bytes.
pub open spec fn ascii_digit_values(text: Seq<u8>) -> Seq<int> {
    text.map_values(|c: u8| c - 0x30)
}

/// Whether `text` is the decimal notation of `n` in ASCII: digits, whose value
/// is `n`, with no leading zero.
pub open spec fn is_decimal_text(text: Seq<u8>, n: nat) -> bool {
    &&& text.len() > 0
    &&& forall|k: int| 0 <= k < text.len() ==> 0x30 <= #[trigger] text[k] <= 0x39
    &&& text.len() > 1 ==> text[0] != 0x30
    &&& digits_value(ascii_digit_values(text)) == n
}

/// The glyphs of the decimal notation of `n` are its digits.
proof fn lemma_decimal_text_glyphs(text: Seq<u8>, n: nat)
    requires
        is_decimal_text(text, n),
    ensures
        glyphs_of_text(text) == decimal_digits(n),
        forall|k: int| 0 <= k < text.len() ==> (#[trigger] glyph_of(text[k])) is Some,
{
    let d = ascii_digit_values(text);
    assert forall|k: int| 0 <= k < d.len() implies 0 <= #[trigger] d[k] < 10 by {
        assert(0x30 <= text[k] <= 0x39);
    }
    lemma_decimal_digits_unique(d, n);
    assert forall|k: int| 0 <= k < text.len() implies glyph_of(text[k]) == Some(d[k]) by {
        assert(0x30 <= text[k] <= 0x39);
    }
    assert(glyphs_of_text(text) =~= d);
}

/// `draw_u32(val)` draws exactly what `draw_str` draws for the decimal
/// notation of `val` in ASCII, and both return the same x.
pub proof fn law_u32_is_its_decimal_text(fb: Seq<u16>, x: int, y: int, val: u32, text: Seq<u8>, fg: u16, bg: u16)
    requires
        is_decimal_text(text, val as nat),
        x + CHAR_ADVANCE * (text.len() - 1) + 5 < SCREEN_W,
    ensures
        with_glyphs(fb, x, y, decimal_digits(val as nat), fg, bg) == with_str(fb, x, y, text, fg, bg),
        x + CHAR_ADVANCE * decimal_digits(val as nat).len() == str_end(x, text),
{
    lemma_decimal_text_glyphs(text, val as nat);
    law_str_is_its_glyph_run(fb, x, y, text, fg, bg);
}

/// A negative number is drawn as a `'-'` followed by the same number without
/// sign, for every integer part, zero included.
pub proof fn law_negative_decimal(fb: Seq<u16>, x: int, y: int, int_part: nat, frac_digits: Seq<u8>, fg: u16, bg: u16)
    ensures
        decimal_glyphs(true, int_part, frac_digits) == seq![GLYPH_MINUS as int] + decimal_glyphs(
            false,
            int_part,
            frac_digits,
        ),
        with_glyphs(fb, x, y, decimal_glyphs(true, int_part, frac_digits), fg, bg) == with_glyphs(
            with_glyph(fb, x, y, GLYPH_MINUS as int, fg, bg),
            x + CHAR_ADVANCE,
            y,
            decimal_glyphs(false, int_part, frac_digits),
            fg,
            bg,
        ),
        decimal_glyphs(true, int_part, frac_digits).len() == decimal_glyphs(false, int_part, frac_digits).len() + 1,
{
    let unsigned = decimal_glyphs(false, int_part, frac_digits);
    assert(decimal_glyphs(true, int_part, frac_digits) =~= seq![GLYPH_MINUS as int] + unsigned);
    let signed = seq![GLYPH_MINUS as int] + unsigned;
    assert(signed[0] == GLYPH_MINUS as int);
    assert(signed.drop_first() =~= unsigned);
}

/// The glyphs of a decimal number, position by position: the sign when
/// negative, the digits of the integer part, then, when there are fractional
/// digits, a `'.'` and every one of them in order, zeros included.
pub proof fn law_decimal_glyphs_layout(negative: bool, int_part: nat, frac_digits: Seq<u8>)
    ensures
        ({
            let g = decimal_glyphs(negative, int_part, frac_digits);
            let s: int = if negative { 1 } else { 0 };
            let d = decimal_digits(int_part);
            &&& g.len() == s + d.len() + (if frac_digits.len() > 0 { 1 + frac_digits.len() } else { 0 })
            &&& negative ==> g[0] == GLYPH_MINUS
            &&& forall|k: int| 0 <= k < d.len() ==> #[trigger] g[s + k] == d[k]
            &&& frac_digits.len() > 0 ==> g[s + d.len()] == GLYPH_DOT
            &&& forall|k: int| 0 <= k < frac_digits.len() ==> #[trigger] g[s + d.len() + 1 + k] == frac_digits[k]
        }),
{
}

/// `draw_decimal` draws exactly what `draw_str` draws for the number written
/// out in ASCII (`'-'` when negative, the decimal notation of the integer
/// part, then `'.'` and the fractional digits when there are any), and both
/// return the same x.
pub proof fn law_decimal_is_its_text(
    fb: Seq<u16>,
    x: int,
    y: int,
    negative: bool,
    int_part: u32,
    int_text: Seq<u8>,
    frac_digits: Seq<u8>,
    text: Seq<u8>,
    fg: u16,
    bg: u16,
)
    requires
        is_decimal_text(int_text, int_part as nat),
        forall|k: int| 0 <= k < frac_digits.len() ==> #[trigger] frac_digits[k] < 10,
        text == (if negative { seq![0x2Du8] } else { Seq::empty() }) + int_text + (if frac_digits.len() > 0 {
            seq![0x2Eu8] + frac_digits.map_values(|d: u8| (d + 0x30) as u8)
        } else {
            Seq::empty()
        }),
        x + CHAR_ADVANCE * (text.len() - 1) + 5 < SCREEN_W,
    ensures
        with_glyphs(fb, x, y, decimal_glyphs(negative, int_part as nat, frac_digits), fg, bg) == with_str(
            fb,
            x,
            y,
            text,
            fg,
            bg,
        ),
        x + CHAR_ADVANCE * decimal_glyphs(negative, int_part as nat, frac_digits).len() == str_end(x, text),
{
    lemma_decimal_text_glyphs(int_text, int_part as nat);
    let sign: Seq<u8> = if negative { seq![0x2Du8] } else { Seq::empty() };
    let tail: Seq<u8> = if frac_digits.len() > 0 {
        seq![0x2Eu8] + frac_digits.map_values(|d: u8| (d + 0x30) as u8)
    } else {
        Seq::empty()
    };
    assert(PUNCTUATION@[0] == 0x2E);
    assert(glyph_of(0x2Eu8) == Some(GLYPH_DOT as int));
    assert(glyph_of(0x2Du8) == Some(GLYPH_MINUS as int));
    assert forall|k: int| 0 <= k < text.len() implies (#[trigger] glyph_of(text[k])) is Some && glyph_of(text[k])->0
        == decimal_glyphs(negative, int_part as nat, frac_digits)[k] by {
        if k < sign.len() {
            assert(text[k] == 0x2Du8);
        } else if k < sign.len() + int_text.len() {
            assert(text[k] == int_text[k - sign.len()]);
            assert(glyph_of(int_text[k - sign.len()]) is Some);
        } else if k == sign.len() + int_text.len() {
            assert(text[k] == 0x2Eu8);
        } else {
            let j = k - sign.len() - int_text.len() - 1;
            assert(text[k] == (frac_digits[j] + 0x30) as u8);
        }
    }
    assert(glyphs_of_text(text) =~= decimal_glyphs(negative, int_part as nat, frac_digits));
    law_str_is_its_glyph_run(fb, x, y, text, fg, bg);
}

/// The byte-to-glyph mapping: digit byte `'0' + d` is drawn with glyph `d`,
/// `'-'` and `'.'` with the glyphs that numbers use, a letter looks the same
/// in either case, every glyph is one of the font's, and two different bytes
/// other than a lower-case letter never share a glyph.
pub proof fn law_glyph_of(c0: u8, c1: u8)
    ensures
        0x30 <= c0 <= 0x39 ==> glyph_of(c0) == Some(c0 - 0x30),
        c0 == 0x2D ==> glyph_of(c0) == Some(GLYPH_MINUS as int),
        c0 == 0x2E ==> glyph_of(c0) == Some(GLYPH_DOT as int),
        0x61 <= c0 <= 0x7A ==> glyph_of(c0) == glyph_of((c0 - 0x20) as u8),
        glyph_of(c0) matches Some(g) ==> 0 <= g < 73,
        c0 != c1 && !(0x61 <= c0 <= 0x7A) && !(0x61 <= c1 <= 0x7A) && glyph_of(c0) is Some
            ==> glyph_of(c0) != glyph_of(c1),
{
    assert(PUNCTUATION@[0] == 0x2E);
    if PUNCTUATION@.contains(c0) {
        let i = PUNCTUATION@.index_of(c0);
        assert(0 <= i < 22 && PUNCTUATION@[i] == c0);
    }
    if PUNCTUATION@.contains(c1) {
        let j = PUNCTUATION@.index_of(c1);
        assert(0 <= j < 22 && PUNCTUATION@[j] == c1);
    }
}

} // verus!
