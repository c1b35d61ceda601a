//! Text and numbers, drawn glyph after glyph into the framebuffer.
use vstd::prelude::*;

use crate::engine::{with_glyph, Color, SpriteEngine};
use crate::font::{char_to_glyph, glyph_of, CHAR_ADVANCE, GLYPH_COUNT, GLYPH_DOT, GLYPH_MINUS};
use crate::SCREEN_W;

verus! {

/// The framebuffer `fb` after drawing the glyphs `glyphs` one after the other,
/// the first with its top-left corner at `(x, y)`, each next one six pixels
/// further right.
pub open spec fn with_glyphs(fb: Seq<u16>, x: int, y: int, glyphs: Seq<int>, fg: u16, bg: u16) -> Seq<
    u16,
>
    decreases glyphs.len(),
{
    if glyphs.len() == 0 {
        fb
    } else {
        with_glyphs(
            with_glyph(fb, x, y, glyphs[0], fg, bg),
            x + CHAR_ADVANCE,
            y,
            glyphs.drop_first(),
            fg,
            bg,
        )
    }
}

/// The framebuffer `fb` after `draw_str(x, y, text, fg, bg)`: character after
/// character, as long as the next character still starts left of
/// `SCREEN_W - 5`, its glyph (if the font has one) is drawn and the pen moves
/// six pixels right.
pub open spec fn with_str(fb: Seq<u16>, x: int, y: int, text: Seq<u8>, fg: u16, bg: u16) -> Seq<u16>
    decreases text.len(),
{
    if text.len() == 0 || x + 5 >= SCREEN_W {
        fb
    } else {
        let next = match glyph_of(text[0]) {
            Some(g) => with_glyph(fb, x, y, g, fg, bg),
            None => fb,
        };
        with_str(next, x + CHAR_ADVANCE, y, text.drop_first(), fg, bg)
    }
}

/// The x coordinate after `draw_str(x, _, text, ..)`.
pub open spec fn str_end(x: int, text: Seq<u8>) -> int
    decreases text.len(),
{
    if text.len() == 0 || x + 5 >= SCREEN_W {
        x
    } else {
        str_end(x + CHAR_ADVANCE, text.drop_first())
    }
}

/// The decimal digits of `n`, most significant first, without leading zeros
/// (`0` has the one digit `0`).
pub open spec fn decimal_digits(n: nat) -> Seq<int>
    decreases n,
{
    if n < 10 {
        seq![n as int]
    } else {
        decimal_digits(n / 10).push((n % 10) as int)
    }
}

/// A byte sequence read as glyph indices.
pub open spec fn as_glyphs(s: Seq<u8>) -> Seq<int> {
    s.map_values(|g: u8| g as int)
}

/// The glyphs of a number in decimal notation: a `'-'` when `negative`, the
/// digits of `int_part`, then, when there are fractional digits, a `'.'`
/// followed by them.
pub open spec fn decimal_glyphs(negative: bool, int_part: nat, frac_digits: Seq<u8>) -> Seq<int> {
    (if negative {
        seq![GLYPH_MINUS as int]
    } else {
        Seq::empty()
    }) + decimal_digits(int_part) + (if frac_digits.len() > 0 {
        seq![GLYPH_DOT as int] + as_glyphs(frac_digits)
    } else {
        Seq::empty()
    })
}

/// `10^e`.
pub open spec fn pow10(e: nat) -> nat
    decreases e,
{
    if e == 0 {
        1
    } else {
        10 * pow10((e - 1) as nat)
    }
}

/// Drawing two runs of glyphs is drawing their concatenation.
pub proof fn lemma_with_glyphs_concat(
    fb: Seq<u16>,
    x: int,
    y: int,
    a: Seq<int>,
    b: Seq<int>,
    fg: u16,
    bg: u16,
)
    ensures
        with_glyphs(fb, x, y, a + b, fg, bg) == with_glyphs(
            with_glyphs(fb, x, y, a, fg, bg),
            x + CHAR_ADVANCE * a.len(),
            y,
            b,
            fg,
            bg,
        ),
    decreases a.len(),
{
    if a.len() == 0 {
        assert(a + b =~= b);
    } else {
        assert((a + b).drop_first() =~= a.drop_first() + b);
        lemma_with_glyphs_concat(
            with_glyph(fb, x, y, a[0], fg, bg),
            x + CHAR_ADVANCE,
            y,
            a.drop_first(),
            b,
            fg,
            bg,
        );
    }
}

impl<'a> SpriteEngine<'a> {
    /// Draws the glyphs `glyphs[from..]` one after the other from `(x, y)`.
    /// Returns the x coordinate after the last one.
    fn draw_glyph_run(&mut self, x: i16, y: i16, glyphs: &[u8], from: usize, fg: Color, bg: Color) -> (next_x: i16)
        requires
            from <= glyphs@.len(),
            forall|k: int| from <= k < glyphs@.len() ==> glyphs@[k] < GLYPH_COUNT,
            x + CHAR_ADVANCE * (glyphs@.len() - from) <= i16::MAX,
        ensures
            final(self)@ == with_glyphs(old(self)@, x as int, y as int, as_glyphs(glyphs@.skip(from as int)), fg.0, bg.0),
            next_x == x + CHAR_ADVANCE * (glyphs@.len() - from),
    {
        let ghost target = with_glyphs(self@, x as int, y as int, as_glyphs(glyphs@.skip(from as int)), fg.0, bg.0);
        let mut k = from;
        let mut cx = x;
        while k < glyphs.len()
            invariant
                from <= k <= glyphs@.len(),
                forall|j: int| from <= j < glyphs@.len() ==> glyphs@[j] < GLYPH_COUNT,
                cx == x + CHAR_ADVANCE * (k - from),
                x + CHAR_ADVANCE * (glyphs@.len() - from) <= i16::MAX,
                target == with_glyphs(self@, cx as int, y as int, as_glyphs(glyphs@.skip(k as int)), fg.0, bg.0),
            decreases glyphs@.len() - k,
        {
            proof {
                assert(as_glyphs(glyphs@.skip(k as int)).drop_first() =~= as_glyphs(glyphs@.skip(k + 1)));
                assert(as_glyphs(glyphs@.skip(k as int))[0] == glyphs@[k as int]);
            }
            cx = self.draw_char(cx, y, glyphs[k] as usize, fg, bg);
            k = k + 1;
        }
        proof {
            assert(as_glyphs(glyphs@.skip(k as int)) =~= Seq::empty());
        }
        cx
    }

    /// Draws the ASCII text `text` (and the extended symbol codes `0x80` to
    /// `0x8C`) from `(x, y)`, six pixels per character. A byte without a glyph
    /// leaves a blank; drawing stops before the first character that would
    /// start at `SCREEN_W - 5` or further right. Returns the x coordinate after
    /// the last character.
    pub fn draw_str(&mut self, x: i16, y: i16, text: &[u8], fg: Color, bg: Color) -> (end_x: i16)
        ensures
            final(self)@ == with_str(old(self)@, x as int, y as int, text@, fg.0, bg.0),
            end_x == str_end(x as int, text@),
    {
        let ghost target = with_str(self@, x as int, y as int, text@, fg.0, bg.0);
        let mut i: usize = 0;
        let mut cx = x;
        assert(text@.skip(0) =~= text@);
        while i < text.len() && (cx as i32) + 5 < SCREEN_W as i32
            invariant
                i <= text@.len(),
                target == with_str(self@, cx as int, y as int, text@.skip(i as int), fg.0, bg.0),
                str_end(x as int, text@) == str_end(cx as int, text@.skip(i as int)),
            decreases text@.len() - i,
        {
            proof {
                assert(text@.skip(i as int).drop_first() =~= text@.skip(i + 1));
                assert(text@.skip(i as int)[0] == text@[i as int]);
            }
            match char_to_glyph(text[i]) {
                Some(g) => {
                    cx = self.draw_char(cx, y, g, fg, bg);
                },
                None => {
                    cx = cx + CHAR_ADVANCE;
                },
            }
            i = i + 1;
        }
        cx
    }

    /// Draws the unsigned integer `val` in decimal from `(x, y)`. Returns the
    /// x coordinate after the last digit.
    pub fn draw_u32(&mut self, x: i16, y: i16, val: u32, fg: Color, bg: Color) -> (end_x: i16)
        requires
            x + CHAR_ADVANCE * decimal_digits(val as nat).len() <= i16::MAX,
        ensures
            final(self)@ == with_glyphs(old(self)@, x as int, y as int, decimal_digits(val as nat), fg.0, bg.0),
            end_x == x + CHAR_ADVANCE * decimal_digits(val as nat).len(),
    {
        let mut digits = [0u8; 10];
        let mut n = val;
        let mut count: usize = 0;
        let mut done = false;
        proof {
            reveal_with_fuel(pow10, 11);
        }
        while !done
            invariant
                count <= 10,
                !done ==> n < pow10((10 - count) as nat),
                !done && count > 0 ==> n > 0,
                !done ==> decimal_digits(val as nat) == decimal_digits(n as nat) + as_glyphs(
                    digits@.subrange(10 - count, 10),
                ),
                done ==> decimal_digits(val as nat) == as_glyphs(digits@.subrange(10 - count, 10)),
                forall|k: int| 10 - count <= k < 10 ==> digits@[k] < 10,
            decreases (if done { 0 } else { n + 1 }),
        {
            assert(count < 10) by {
                if count == 10 {
                    assert(pow10(0) == 1);
                }
            }
            assert(pow10((10 - count) as nat) == 10 * pow10((9 - count) as nat));
            let ghost prev = digits@.subrange(10 - count, 10);
            digits[9 - count] = (n % 10) as u8;
            proof {
                assert(digits@.subrange(9 - count, 10) =~= seq![(n % 10) as u8] + prev);
                assert(as_glyphs(seq![(n % 10) as u8] + prev) =~= seq![(n % 10) as int] + as_glyphs(prev));
            }
            if n < 10 {
                assert(decimal_digits(n as nat) == seq![n as int]);
            } else {
                assert(decimal_digits(n as nat) == decimal_digits((n / 10) as nat).push((n % 10) as int));
                assert(decimal_digits((n / 10) as nat) + seq![(n % 10) as int] + as_glyphs(prev)
                    =~= decimal_digits((n / 10) as nat).push((n % 10) as int) + as_glyphs(prev));
            }
            n = n / 10;
            count = count + 1;
            done = n == 0;
        }
        let start = 10 - count;
        assert(as_glyphs(digits@.skip(start as int)) =~= as_glyphs(digits@.subrange(start as int, 10)));
        self.draw_glyph_run(x, y, &digits, start, fg, bg)
    }

    /// Draws a number in decimal notation from `(x, y)`: a `'-'` when
    /// `negative`, the digits of `int_part`, then, when `frac_digits` is not
    /// empty, a `'.'` and the fractional digits `frac_digits` (each drawn
    /// with the glyph of that index, which for `0` to `9` is the digit).
    /// Returns the x coordinate after the last glyph.
    pub fn draw_decimal(
        &mut self,
        x: i16,
        y: i16,
        negative: bool,
        int_part: u32,
        frac_digits: &[u8],
        fg: Color,
        bg: Color,
    ) -> (end_x: i16)
        requires
            forall|k: int| 0 <= k < frac_digits@.len() ==> frac_digits@[k] < GLYPH_COUNT,
            x + CHAR_ADVANCE * decimal_glyphs(negative, int_part as nat, frac_digits@).len() <= i16::MAX,
        ensures
            final(self)@ == with_glyphs(
                old(self)@,
                x as int,
                y as int,
                decimal_glyphs(negative, int_part as nat, frac_digits@),
                fg.0,
                bg.0,
            ),
            end_x == x + CHAR_ADVANCE * decimal_glyphs(negative, int_part as nat, frac_digits@).len(),
    {
        let ghost fb0 = self@;
        let ghost sign: Seq<int> = if negative { seq![GLYPH_MINUS as int] } else { Seq::empty() };
        let ghost digits = decimal_digits(int_part as nat);
        let ghost tail: Seq<int> = if frac_digits@.len() > 0 {
            seq![GLYPH_DOT as int] + as_glyphs(frac_digits@)
        } else {
            Seq::empty()
        };
        let mut cx = x;
        if negative {
            cx = self.draw_char(cx, y, GLYPH_MINUS, fg, bg);
        }
        proof {
            reveal_with_fuel(with_glyphs, 2);
            assert(self@ == with_glyphs(fb0, x as int, y as int, sign, fg.0, bg.0));
        }
        let ghost fb1 = self@;
        cx = self.draw_u32(cx, y, int_part, fg, bg);
        let ghost fb2 = self@;
        if frac_digits.len() > 0 {
            cx = self.draw_char(cx, y, GLYPH_DOT, fg, bg);
            let ghost fb3 = self@;
            cx = self.draw_glyph_run(cx, y, frac_digits, 0, fg, bg);
            proof {
                assert(frac_digits@.skip(0) =~= frac_digits@);
                reveal_with_fuel(with_glyphs, 2);
                assert(seq![GLYPH_DOT as int].drop_first() =~= Seq::<int>::empty());
                assert(fb3 == with_glyphs(fb2, (x + CHAR_ADVANCE * (sign.len() + digits.len())) as int, y as int, seq![GLYPH_DOT as int], fg.0, bg.0));
                lemma_with_glyphs_concat(fb2, x + CHAR_ADVANCE * (sign.len() + digits.len()), y as int, seq![GLYPH_DOT as int], as_glyphs(frac_digits@), fg.0, bg.0);
            }
        }
        proof {
            lemma_with_glyphs_concat(fb0, x as int, y as int, sign, digits, fg.0, bg.0);
            lemma_with_glyphs_concat(fb0, x as int, y as int, sign + digits, tail, fg.0, bg.0);
        }
        cx
    }
}

} // verus!
