//! The framebuffer model: a sequence of `FB_SIZE` RGB565 words in row-major
//! order, and the painting of a region by a per-pixel rule.
use vstd::prelude::*;

use crate::{FB_SIZE, SCREEN_H, SCREEN_W};

verus! {

/// Whether the point `(x, y)` lies on the screen.
pub open spec fn on_screen(x: int, y: int) -> bool {
    0 <= x < SCREEN_W && 0 <= y < SCREEN_H
}

/// Index in the framebuffer of the screen point `(x, y)`.
pub open spec fn pixel_index(x: int, y: int) -> int {
    y * SCREEN_W + x
}

/// Screen column of framebuffer index `i`.
pub open spec fn col_of(i: int) -> int {
    i % SCREEN_W as int
}

/// Screen row of framebuffer index `i`.
pub open spec fn row_of(i: int) -> int {
    i / SCREEN_W as int
}

/// The framebuffer `fb` where every pixel for which `rule` gives a colour
/// takes that colour, and every other pixel keeps its value.
pub open spec fn paint(fb: Seq<u16>, rule: spec_fn(int, int) -> Option<u16>) -> Seq<u16> {
    Seq::new(
        fb.len(),
        |i: int|
            match rule(col_of(i), row_of(i)) {
                Some(v) => v,
                None => fb[i],
            },
    )
}

/// `rule` restricted to the points of columns `xa..xb` that come before
/// `(x, y)` in row-major order, from row `ya` on.
pub open spec fn rule_before(
    rule: spec_fn(int, int) -> Option<u16>,
    xa: int,
    xb: int,
    ya: int,
    x: int,
    y: int,
) -> spec_fn(int, int) -> Option<u16> {
    |px: int, py: int|
        if xa <= px < xb && ya <= py && (py < y || (py == y && px < x)) {
            rule(px, py)
        } else {
            None
        }
}

/// The index of an on-screen point is in the framebuffer and gives the point back.
pub proof fn lemma_pixel_index(x: int, y: int)
    requires
        on_screen(x, y),
    ensures
        0 <= pixel_index(x, y) < FB_SIZE,
        col_of(pixel_index(x, y)) == x,
        row_of(pixel_index(x, y)) == y,
{
    assert(0 <= pixel_index(x, y) < FB_SIZE) by (nonlinear_arith)
        requires
            0 <= x < 240,
            0 <= y < 320,
    ;
    vstd::arithmetic::div_mod::lemma_fundamental_div_mod_converse(
        pixel_index(x, y),
        SCREEN_W as int,
        y,
        x,
    );
}

/// Every framebuffer index is the index of the on-screen point it names.
pub proof fn lemma_index_point(i: int)
    requires
        0 <= i < FB_SIZE,
    ensures
        on_screen(col_of(i), row_of(i)),
        pixel_index(col_of(i), row_of(i)) == i,
{
}

/// Painting with a rule that gives no colour changes nothing.
pub proof fn lemma_paint_nothing(fb: Seq<u16>, rule: spec_fn(int, int) -> Option<u16>)
    requires
        fb.len() == FB_SIZE,
        forall|x: int, y: int| on_screen(x, y) ==> #[trigger] rule(x, y) is None,
    ensures
        paint(fb, rule) == fb,
{
    assert forall|i: int| 0 <= i < FB_SIZE implies paint(fb, rule)[i] == fb[i] by {
        lemma_index_point(i);
    }
    assert(paint(fb, rule) =~= fb);
}

/// Before the first point of a region, nothing has been painted.
pub proof fn lemma_paint_start(
    fb: Seq<u16>,
    rule: spec_fn(int, int) -> Option<u16>,
    xa: int,
    xb: int,
    ya: int,
)
    ensures
        paint(fb, rule_before(rule, xa, xb, ya, xa, ya)) == fb,
{
    assert(paint(fb, rule_before(rule, xa, xb, ya, xa, ya)) =~= fb);
}

/// Going past one point of a region paints that point, and only it.
pub proof fn lemma_paint_step(
    fb: Seq<u16>,
    rule: spec_fn(int, int) -> Option<u16>,
    xa: int,
    xb: int,
    ya: int,
    x: int,
    y: int,
)
    requires
        fb.len() == FB_SIZE,
        on_screen(x, y),
        xa <= x < xb,
        ya <= y,
    ensures
        rule(x, y) is None ==> paint(fb, rule_before(rule, xa, xb, ya, x + 1, y)) == paint(
            fb,
            rule_before(rule, xa, xb, ya, x, y),
        ),
        rule(x, y) matches Some(v) ==> paint(fb, rule_before(rule, xa, xb, ya, x + 1, y)) == paint(
            fb,
            rule_before(rule, xa, xb, ya, x, y),
        ).update(pixel_index(x, y), v),
{
    lemma_pixel_index(x, y);
    let before = paint(fb, rule_before(rule, xa, xb, ya, x, y));
    let after = paint(fb, rule_before(rule, xa, xb, ya, x + 1, y));
    assert forall|i: int| 0 <= i < FB_SIZE && i != pixel_index(x, y) implies after[i] == before[i] by {
        lemma_index_point(i);
    }
    if rule(x, y) is None {
        assert(after =~= before);
    } else {
        assert(after =~= before.update(pixel_index(x, y), rule(x, y)->0));
    }
}

/// The end of one row of a region is the start of the next.
pub proof fn lemma_paint_next_row(
    fb: Seq<u16>,
    rule: spec_fn(int, int) -> Option<u16>,
    xa: int,
    xb: int,
    ya: int,
    y: int,
)
    requires
        ya <= y,
    ensures
        paint(fb, rule_before(rule, xa, xb, ya, xb, y)) == paint(
            fb,
            rule_before(rule, xa, xb, ya, xa, y + 1),
        ),
{
    assert(paint(fb, rule_before(rule, xa, xb, ya, xb, y)) =~= paint(
        fb,
        rule_before(rule, xa, xb, ya, xa, y + 1),
    ));
}

/// Once every row of a region is done, the whole rule is painted, provided that
/// the rule colours no on-screen point outside the region.
pub proof fn lemma_paint_done(
    fb: Seq<u16>,
    rule: spec_fn(int, int) -> Option<u16>,
    xa: int,
    xb: int,
    ya: int,
    yb: int,
)
    requires
        fb.len() == FB_SIZE,
        forall|x: int, y: int|
            on_screen(x, y) && #[trigger] rule(x, y) is Some ==> xa <= x < xb && ya <= y < yb,
    ensures
        paint(fb, rule_before(rule, xa, xb, ya, xa, yb)) == paint(fb, rule),
{
    assert forall|i: int| 0 <= i < FB_SIZE implies paint(fb, rule_before(rule, xa, xb, ya, xa, yb))[i]
        == paint(fb, rule)[i] by {
        lemma_index_point(i);
    }
    assert(paint(fb, rule_before(rule, xa, xb, ya, xa, yb)) =~= paint(fb, rule));
}

} // verus!
