//! Laws that relate the colour, ramp and overlay functions.
use vstd::prelude::*;
use crate::color::{blend, mix_channel, Color};
use crate::frac::Frac;
use crate::layout::glyph_color;
use crate::line::{below, pick, select, split_at, ColorOverlayMode, Line};

verus! {

proof fn lemma_mix_same(a: u8, num: int, den: int)
    requires
        0 < den,
        0 <= num,
    ensures
        mix_channel(a, a, num, den) == a,
{
    assert(a * (den - num) + a * num == a * den) by (nonlinear_arith);
    assert(a * den / den == a) by (nonlinear_arith)
        requires 0 < den;
}

proof fn lemma_mix_ends(a: u8, b: u8, den: int)
    requires
        0 < den,
    ensures
        mix_channel(a, b, 0, den) == a,
        mix_channel(a, b, den, den) == b,
{
    assert(a * (den - 0) + b * 0 == a * den) by (nonlinear_arith);
    assert(a * (den - den) + b * den == b * den) by (nonlinear_arith);
    assert(a * den / den == a) by (nonlinear_arith)
        requires 0 < den;
    assert(b * den / den == b) by (nonlinear_arith)
        requires 0 < den;
}

/// Fading a colour with itself gives that colour, whatever the factor.
pub proof fn law_fade_self(c: Color, f: Frac)
    requires
        f.wf(),
    ensures
        blend(c, c, f.num as int, f.den as int) == Ok::<Color, crate::color::ColorError>(c),
{
    lemma_mix_same(c.f.0, f.num as int, f.den as int);
    lemma_mix_same(c.f.1, f.num as int, f.den as int);
    lemma_mix_same(c.f.2, f.num as int, f.den as int);
    if let Some(x) = c.b {
        lemma_mix_same(x.0, f.num as int, f.den as int);
        lemma_mix_same(x.1, f.num as int, f.den as int);
        lemma_mix_same(x.2, f.num as int, f.den as int);
    }
}

/// With both backgrounds present or both absent, a factor of `0` gives the first
/// colour and a factor of `1` the second.
pub proof fn law_fade_ends(c1: Color, c2: Color, den: u32)
    requires
        den > 0,
        c1.b.is_some() == c2.b.is_some(),
    ensures
        blend(c1, c2, 0, den as int) == Ok::<Color, crate::color::ColorError>(c1),
        blend(c1, c2, den as int, den as int) == Ok::<Color, crate::color::ColorError>(c2),
{
    lemma_mix_ends(c1.f.0, c2.f.0, den as int);
    lemma_mix_ends(c1.f.1, c2.f.1, den as int);
    lemma_mix_ends(c1.f.2, c2.f.2, den as int);
    if let (Some(x), Some(y)) = (c1.b, c2.b) {
        lemma_mix_ends(x.0, y.0, den as int);
        lemma_mix_ends(x.1, y.1, den as int);
        lemma_mix_ends(x.2, y.2, den as int);
    }
}

/// `AlwaysLeft` and `AlwaysRight` do not depend on the progress.
pub proof fn law_always_ignores_progress(
    left: Seq<Color>,
    right: Seq<Color>,
    mode: ColorOverlayMode,
    first: Frac,
    second: Frac,
    x: Frac,
)
    requires
        mode == ColorOverlayMode::AlwaysLeft || mode == ColorOverlayMode::AlwaysRight,
    ensures
        select(left, right, mode, first, x) == select(left, right, mode, second, x),
{
}

/// `ChooseFromPos` samples the left ramp strictly below the progress and the right
/// ramp at or above it.
pub proof fn law_choose_is_step(left: Seq<Color>, right: Seq<Color>, p: Frac, x: Frac)
    ensures
        below(x, p) ==> select(left, right, ColorOverlayMode::ChooseFromPos, p, x) == pick(
            left,
            x.num as int,
            x.den as int,
        ),
        !below(x, p) ==> select(left, right, ColorOverlayMode::ChooseFromPos, p, x) == pick(
            right,
            x.num as int,
            x.den as int,
        ),
{
}

/// As the band width `d` shrinks, `ChooseFromPosFade(d)` becomes `ChooseFromPos`:
/// at any position `x` off the progress point `p`, every `d` with
/// `d * (1 - p) <= p - x` (below `p`) or `d * p <= x - p` (above `p`) gives the
/// hard split's colour.
pub proof fn law_band_narrows_to_split(left: Seq<Color>, right: Seq<Color>, p: Frac, x: Frac, d: Frac)
    requires
        p.wf(),
        x.is_unit(),
        d.wf(),
        (below(x, p) && d.num * x.den * (p.den - p.num) <= d.den * (p.num * x.den - x.num * p.den))
            || (below(p, x) && d.num * x.den * p.num <= d.den * (x.num * p.den - p.num * x.den)),
    ensures
        select(left, right, ColorOverlayMode::ChooseFromPosFade(d), p, x) == select(
            left,
            right,
            ColorOverlayMode::ChooseFromPos,
            p,
            x,
        ),
{
    let xn = x.num as int;
    let xd = x.den as int;
    let pn = p.num as int;
    let pd = p.den as int;
    let dn = d.num as int;
    let dd = d.den as int;
    let n = xn * pd * dd - pn * xd * (dd + dn) + dn * xd * pd;
    assert(n == dd * (xn * pd - pn * xd) + dn * xd * (pd - pn)) by (nonlinear_arith)
        requires n == xn * pd * dd - pn * xd * (dd + dn) + dn * xd * pd;
    assert(n - dn * xd * pd == dd * (xn * pd - pn * xd) - dn * xd * pn) by (nonlinear_arith)
        requires n == dd * (xn * pd - pn * xd) + dn * xd * (pd - pn);
    assert(dd * (xn * pd - pn * xd) == -(dd * (pn * xd - xn * pd))) by (nonlinear_arith);
    assert(dn * xd * (pd - pn) == d.num * x.den * (p.den - p.num));
    assert(dd * (pn * xd - xn * pd) == d.den * (p.num * x.den - x.num * p.den));
    assert(dd * (xn * pd - pn * xd) == d.den * (x.num * p.den - p.num * x.den));
    assert(dn * xd * pn == d.num * x.den * p.num);
    assert(n == crate::line::band_num(x, p, d));
    assert(dn * xd * pd == crate::line::band_den(x, p, d));
    let fade_mode = ColorOverlayMode::ChooseFromPosFade(d);
    if d.num == 0 {
        assert(select(left, right, fade_mode, p, x) == split_at(left, right, p, x));
    } else if below(x, p) {
        assert(n <= 0);
        assert(select(left, right, fade_mode, p, x) == pick(left, xn, xd));
    } else {
        assert(n >= dn * xd * pd);
        assert(n > 0) by (nonlinear_arith)
            requires n >= dn * xd * pd, dn > 0, xd > 0, pd > 0;
        assert(select(left, right, fade_mode, p, x) == pick(right, xn, xd));
    }
}

/// A ramp of one colour gives that colour at every position in `[0, 1]`.
pub proof fn law_single_entry_ramp(c: Color, x: Frac)
    requires
        x.is_unit(),
    ensures
        pick(seq![c], x.num as int, x.den as int) == Ok::<Color, crate::color::ColorError>(c),
{
    let n = x.num as int;
    let dn = x.den as int;
    assert(n * 0 / dn == 0) by (nonlinear_arith)
        requires dn > 0;
}

/// A line that always samples a one-colour left ramp shows that colour in every
/// glyph, at every width.
pub proof fn law_always_left_single_color(line: Line, c: Color, width: int, q: int)
    requires
        line.wf(),
        line.color_overlay_mode == ColorOverlayMode::AlwaysLeft,
        line.colors_left@ == seq![c],
        0 <= q < width,
        width <= u32::MAX,
    ensures
        glyph_color(line, width, q) == Ok::<Color, crate::color::ColorError>(c),
{
    reveal(glyph_color);
    let x = crate::layout::position_of(q, width);
    law_single_entry_ramp(c, x);
}

} // verus!
