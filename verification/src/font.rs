//! The 5x7 bitmap font and the mapping from text bytes to glyphs.
//!
//! A glyph is five column bytes; bit `r` of column `c` (bit 0 at the top) says
//! whether the pixel at column `c`, row `r` of the 5x7 cell is lit.
use vstd::prelude::*;

verus! {

/// Number of glyphs in [`FONT`].
pub const GLYPH_COUNT: usize = 73;

/// Width of a glyph cell in pixels.
pub const GLYPH_W: usize = 5;

/// Height of a glyph cell in pixels.
pub const GLYPH_H: usize = 7;

/// Horizontal advance of one character: the glyph and one blank column.
pub const CHAR_ADVANCE: i16 = 6;

/// Index of the glyph `'-'`.
pub const GLYPH_MINUS: usize = 10;

/// Index of the glyph `'.'`.
pub const GLYPH_DOT: usize = 38;

/// The 5x7 font: digits, `'-'`, `' '`, letters, punctuation, then the
/// extended symbols (lambda, theta, pi, delta, degree, plus-minus, times,
/// divide, square root, infinity, approx, less-or-equal, greater-or-equal).
pub const FONT: [[u8; 5]; 73] = [
    [0x3E, 0x51, 0x49, 0x45, 0x3E], // 0
    [0x00, 0x42, 0x7F, 0x40, 0x00], // 1
    [0x42, 0x61, 0x51, 0x49, 0x46], // 2
    [0x21, 0x41, 0x45, 0x4B, 0x31], // 3
    [0x18, 0x14, 0x12, 0x7F, 0x10], // 4
    [0x27, 0x45, 0x45, 0x45, 0x39], // 5
    [0x3C, 0x4A, 0x49, 0x49, 0x30], // 6
    [0x01, 0x71, 0x09, 0x05, 0x03], // 7
    [0x36, 0x49, 0x49, 0x49, 0x36], // 8
    [0x06, 0x49, 0x49, 0x29, 0x1E], // 9
    [0x08, 0x08, 0x08, 0x08, 0x08], // 10 = '-'
    [0x00, 0x00, 0x00, 0x00, 0x00], // 11 = ' '
    [0x7E, 0x11, 0x11, 0x11, 0x7E], // 12 = 'A'
    [0x7F, 0x49, 0x49, 0x49, 0x36], // 13 = 'B'
    [0x3E, 0x41, 0x41, 0x41, 0x22], // 14 = 'C'
    [0x7F, 0x41, 0x41, 0x22, 0x1C], // 15 = 'D'
    [0x7F, 0x49, 0x49, 0x49, 0x41], // 16 = 'E'
    [0x7F, 0x09, 0x09, 0x09, 0x01], // 17 = 'F'
    [0x3E, 0x41, 0x49, 0x49, 0x7A], // 18 = 'G'
    [0x7F, 0x08, 0x08, 0x08, 0x7F], // 19 = 'H'
    [0x00, 0x41, 0x7F, 0x41, 0x00], // 20 = 'I'
    [0x20, 0x40, 0x41, 0x3F, 0x01], // 21 = 'J'
    [0x7F, 0x08, 0x14, 0x22, 0x41], // 22 = 'K'
    [0x7F, 0x40, 0x40, 0x40, 0x40], // 23 = 'L'
    [0x7F, 0x02, 0x0C, 0x02, 0x7F], // 24 = 'M'
    [0x7F, 0x04, 0x08, 0x10, 0x7F], // 25 = 'N'
    [0x3E, 0x41, 0x41, 0x41, 0x3E], // 26 = 'O'
    [0x7F, 0x09, 0x09, 0x09, 0x06], // 27 = 'P'
    [0x3E, 0x41, 0x51, 0x21, 0x5E], // 28 = 'Q'
    [0x7F, 0x09, 0x19, 0x29, 0x46], // 29 = 'R'
    [0x46, 0x49, 0x49, 0x49, 0x31], // 30 = 'S'
    [0x01, 0x01, 0x7F, 0x01, 0x01], // 31 = 'T'
    [0x3F, 0x40, 0x40, 0x40, 0x3F], // 32 = 'U'
    [0x1F, 0x20, 0x40, 0x20, 0x1F], // 33 = 'V'
    [0x3F, 0x40, 0x38, 0x40, 0x3F], // 34 = 'W'
    [0x63, 0x14, 0x08, 0x14, 0x63], // 35 = 'X'
    [0x07, 0x08, 0x70, 0x08, 0x07], // 36 = 'Y'
    [0x61, 0x51, 0x49, 0x45, 0x43], // 37 = 'Z'
    [0x00, 0x00, 0x60, 0x60, 0x00], // 38 = '.'
    [0x00, 0x3E, 0x41, 0x41, 0x00], // 39 = '('
    [0x00, 0x41, 0x41, 0x3E, 0x00], // 40 = ')'
    [0x00, 0x40, 0x50, 0x30, 0x00], // 41 = ','
    [0x00, 0x7F, 0x41, 0x41, 0x00], // 42 = '['
    [0x00, 0x41, 0x41, 0x7F, 0x00], // 43 = ']'
    [0x23, 0x13, 0x08, 0x64, 0x62], // 44 = '%'
    [0x08, 0x14, 0x22, 0x41, 0x00], // 45 = '<'
    [0x00, 0x41, 0x22, 0x14, 0x08], // 46 = '>'
    [0x00, 0x24, 0x24, 0x24, 0x00], // 47 = '='
    [0x02, 0x01, 0x51, 0x09, 0x06], // 48 = '?'
    [0x00, 0x00, 0x5F, 0x00, 0x00], // 49 = '!'
    [0x00, 0x36, 0x36, 0x00, 0x00], // 50 = ':'
    [0x08, 0x08, 0x3E, 0x08, 0x08], // 51 = '+'
    [0x20, 0x10, 0x08, 0x04, 0x02], // 52 = '/'
    [0x00, 0x00, 0x7F, 0x00, 0x00], // 53 = '|'
    [0x40, 0x40, 0x40, 0x40, 0x40], // 54 = '_'
    [0x04, 0x02, 0x01, 0x02, 0x04], // 55 = '^'
    [0x14, 0x7F, 0x14, 0x7F, 0x14], // 56 = '#'
    [0x3E, 0x41, 0x5D, 0x55, 0x1E], // 57 = '@'
    [0x32, 0x49, 0x55, 0x22, 0x50], // 58 = '&'
    [0x00, 0x07, 0x00, 0x07, 0x00], // 59 = '"'
    [0x60, 0x10, 0x0F, 0x10, 0x60], // 60 = 'λ'
    [0x3E, 0x49, 0x49, 0x49, 0x3E], // 61 = 'θ'
    [0x01, 0x7D, 0x01, 0x7D, 0x01], // 62 = 'π'
    [0x78, 0x46, 0x41, 0x46, 0x78], // 63 = 'Δ'
    [0x06, 0x09, 0x09, 0x06, 0x00], // 64 = '°'
    [0x48, 0x48, 0x5E, 0x48, 0x48], // 65 = '±'
    [0x22, 0x14, 0x08, 0x14, 0x22], // 66 = '×'
    [0x08, 0x08, 0x49, 0x08, 0x08], // 67 = '÷'
    [0x70, 0x4C, 0x03, 0x01, 0x01], // 68 = '√'
    [0x1C, 0x22, 0x1C, 0x22, 0x1C], // 69 = '∞'
    [0x00, 0x24, 0x12, 0x12, 0x24], // 70 = '≈'
    [0x60, 0x68, 0x64, 0x62, 0x61], // 71 = '≤'
    [0x61, 0x62, 0x64, 0x68, 0x60], // 72 = '≥'
];

/// The punctuation bytes that have a glyph, in glyph order from index 38.
pub const PUNCTUATION: [u8; 22] = [
    0x2E, 0x28, 0x29, 0x2C, 0x5B, 0x5D, 0x25, 0x3C, 0x3E, 0x3D, 0x3F, // . ( ) , [ ] % < > = ?
    0x21, 0x3A, 0x2B, 0x2F, 0x7C, 0x5F, 0x5E, 0x23, 0x40, 0x26, 0x22, // ! : + / | _ ^ # @ & "
];

/// Index of the first extended-symbol glyph (lambda) in [`FONT`].
pub const FIRST_SYMBOL_GLYPH: usize = 60;

/// Whether the pixel at column `col`, row `row` of glyph `g` is lit.
pub open spec fn glyph_lit(g: int, col: int, row: int) -> bool {
    (FONT@[g]@[col] >> (row as u32)) & 1u8 == 1u8
}

/// The glyph that a text byte is drawn with, if any.
///
/// Digits, `'-'`, `' '`, letters of either case (both map to the upper-case
/// glyphs), the punctuation `. ( ) , [ ] % < > = ? ! : + / | _ ^ # @ & "`
/// and the extended codes `0x80..=0x8C` of the display driver.
pub open spec fn glyph_of(c: u8) -> Option<int> {
    if 0x30 <= c <= 0x39 {
        // '0'..='9'
        Some(c - 0x30)
    } else if c == 0x2D {
        // '-'
        Some(GLYPH_MINUS as int)
    } else if c == 0x20 {
        // ' '
        Some(11)
    } else if 0x41 <= c <= 0x5A {
        // 'A'..='Z'
        Some(c - 0x41 + 12)
    } else if 0x61 <= c <= 0x7A {
        // 'a'..='z'
        Some(c - 0x61 + 12)
    } else if PUNCTUATION@.contains(c) {
        Some(PUNCTUATION@.index_of(c) + GLYPH_DOT)
    } else if 0x80 <= c <= 0x8C {
        Some(c - 0x80 + FIRST_SYMBOL_GLYPH)
    } else {
        None
    }
}

/// The extended symbol codes of the display driver, in glyph order:
/// `LAMBDA, THETA, PI, DELTA, DEGREE, PLUS_MINUS, TIMES, DIVIDE, SQRT,
/// INFINITY, APPROX, LE, GE` of `embassy_st7789v`.
///
/// Trusted: the contract states the values that `embassy_st7789v` 0.6 defines
/// for these thirteen constants (`0x80` to `0x8C`, one after the other).
#[verifier::external_body]
fn extended_symbol_codes() -> (codes: [u8; 13])
    ensures
        forall|k: int| 0 <= k < 13 ==> #[trigger] codes@[k] == 0x80 + k,
{
    [
        embassy_st7789v::LAMBDA,
        embassy_st7789v::THETA,
        embassy_st7789v::PI,
        embassy_st7789v::DELTA,
        embassy_st7789v::DEGREE,
        embassy_st7789v::PLUS_MINUS,
        embassy_st7789v::TIMES,
        embassy_st7789v::DIVIDE,
        embassy_st7789v::SQRT,
        embassy_st7789v::INFINITY,
        embassy_st7789v::APPROX,
        embassy_st7789v::LE,
        embassy_st7789v::GE,
    ]
}

/// Maps a text byte to the index of its glyph in [`FONT`], or `None` when the
/// font has no glyph for it.
pub fn char_to_glyph(c: u8) -> (g: Option<usize>)
    ensures
        g matches Some(i) ==> glyph_of(c) == Some(i as int) && i < GLYPH_COUNT,
        g is None <==> glyph_of(c) is None,
{
    // '0'..='9'
    if 0x30 <= c && c <= 0x39 {
        return Some((c - 0x30) as usize);
    }
    // '-'
    if c == 0x2D {
        return Some(GLYPH_MINUS);
    }
    // ' '
    if c == 0x20 {
        return Some(11);
    }
    // 'A'..='Z'
    if 0x41 <= c && c <= 0x5A {
        return Some((c - 0x41) as usize + 12);
    }
    // 'a'..='z', drawn with the upper-case glyphs
    if 0x61 <= c && c <= 0x7A {
        return Some((c - 0x61) as usize + 12);
    }
    let mut k: usize = 0;
    while k < PUNCTUATION.len()
        invariant
            k <= 22,
            forall|j: int| 0 <= j < k ==> PUNCTUATION@[j] != c,
        decreases 22 - k,
    {
        if PUNCTUATION[k] == c {
            proof {
                assert(PUNCTUATION@.contains(c));
                assert(PUNCTUATION@.index_of(c) == k) by {
                    PUNCTUATION@.index_of_first_ensures(c);
                }
            }
            return Some(GLYPH_DOT + k);
        }
        k = k + 1;
    }
    assert(!PUNCTUATION@.contains(c));
    let codes = extended_symbol_codes();
    let mut s: usize = 0;
    while s < 13
        invariant
            s <= 13,
            forall|k: int| 0 <= k < 13 ==> #[trigger] codes@[k] == 0x80 + k,
            forall|j: int| 0 <= j < s ==> codes@[j] != c,
        decreases 13 - s,
    {
        if codes[s] == c {
            return Some(FIRST_SYMBOL_GLYPH + s);
        }
        s = s + 1;
    }
    proof {
        if 0x80 <= c <= 0x8C {
            assert(codes@[c - 0x80] == c);
        }
    }
    None
}

} // verus!
