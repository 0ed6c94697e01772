use vstd::prelude::*;
use crate::color::{blend, blend_by, Color, ColorError};
use crate::frac::Frac;

verus! {

/// How a line's two ramps combine across its width.
#[derive(Clone, Copy, Debug, PartialEq, Eq, Structural)]
pub enum ColorOverlayMode {
    /// Always sample the left ramp.
    AlwaysLeft,
    /// Always sample the right ramp.
    AlwaysRight,
    /// Left ramp below the progress point, right ramp at or above it.
    ChooseFromPos,
    /// As `ChooseFromPos`, with a linear cross-fade band of the given width.
    ChooseFromPosFade(Frac),
    /// Left ramp stretched over `[0, progress]`, right ramp over the rest.
    Stretch,
    /// The position itself is the fade factor from the left ramp to the right.
    Fade,
}

impl ColorOverlayMode {
    /// Any ratio the mode carries has a non-zero denominator.
    pub open spec fn wf(self) -> bool {
        match self {
            ColorOverlayMode::ChooseFromPosFade(d) => d.wf(),
            _ => true,
        }
    }
}

/// One bar: two colour ramps, how they overlay, where the bar's progress lies,
/// an optional short label drawn inside it and an optional trailer after it.
#[derive(Debug)]
pub struct Line {
    pub colors_left: Vec<Color>,
    pub colors_right: Vec<Color>,
    pub color_overlay_mode: ColorOverlayMode,
    pub progress: Frac,
    pub short: Option<Vec<String>>,
    pub underline: bool,
    pub long: Option<String>,
}

/// The ramp entry at `num / den`: index `floor(num / den * (len - 1))`.
pub open spec fn pick(ramp: Seq<Color>, num: int, den: int) -> Result<Color, ColorError> {
    if ramp.len() == 0 {
        Err(ColorError::EmptyRamp)
    } else {
        Ok(ramp[num * (ramp.len() - 1) / den])
    }
}

/// Fades the left sample towards the right one, once both exist.
pub open spec fn fade_picks(
    l: Result<Color, ColorError>,
    r: Result<Color, ColorError>,
    num: int,
    den: int,
) -> Result<Color, ColorError> {
    match l {
        Err(e) => Err(e),
        Ok(a) => match r {
            Err(e) => Err(e),
            Ok(b) => blend(a, b, num, den),
        },
    }
}

/// Numerator of the fade factor `(x - p * (1 + d) + d) / d` over the denominator
/// `band_den`, for `x = xn / xd`, `p = pn / pd`, `d = dn / dd`.
pub open spec fn band_num(x: Frac, p: Frac, d: Frac) -> int {
    x.num * p.den * d.den - p.num * x.den * (d.den + d.num) + d.num * x.den * p.den
}

/// Denominator of the fade factor in the cross-fade band.
pub open spec fn band_den(x: Frac, p: Frac, d: Frac) -> int {
    d.num * x.den * p.den
}

/// `x`, with a value above one taken as one.
pub open spec fn clamp_unit(x: Frac) -> Frac {
    if x.num > x.den {
        Frac { num: x.den, den: x.den }
    } else {
        x
    }
}

/// `x` lies strictly below `p`.
pub open spec fn below(x: Frac, p: Frac) -> bool {
    x.num * p.den < p.num * x.den
}

/// The hard split: left ramp below `p`, right ramp at or above it.
pub open spec fn split_at(left: Seq<Color>, right: Seq<Color>, p: Frac, x: Frac) -> Result<Color, ColorError> {
    if below(x, p) {
        pick(left, x.num as int, x.den as int)
    } else {
        pick(right, x.num as int, x.den as int)
    }
}

/// The colour at position `x` of a line with these ramps, mode and progress.
pub open spec fn select(
    left: Seq<Color>,
    right: Seq<Color>,
    mode: ColorOverlayMode,
    p: Frac,
    x: Frac,
) -> Result<Color, ColorError> {
    let xn = x.num as int;
    let xd = x.den as int;
    match mode {
        ColorOverlayMode::AlwaysLeft => pick(left, xn, xd),
        ColorOverlayMode::AlwaysRight => pick(right, xn, xd),
        ColorOverlayMode::ChooseFromPos => split_at(left, right, p, x),
        ColorOverlayMode::ChooseFromPosFade(d) => if d.num == 0 {
            split_at(left, right, p, x)
        } else if band_num(x, p, d) <= 0 {
            pick(left, xn, xd)
        } else if band_num(x, p, d) >= band_den(x, p, d) {
            pick(right, xn, xd)
        } else {
            fade_picks(pick(left, xn, xd), pick(right, xn, xd), band_num(x, p, d), band_den(x, p, d))
        },
        ColorOverlayMode::Stretch => if p.num == 0 {
            pick(right, xn, xd)
        } else if p.num >= p.den {
            pick(left, xn, xd)
        } else if xn * p.den <= p.num * xd {
            pick(left, xn * p.den, xd * p.num)
        } else {
            pick(right, xn * p.den - p.num * xd, xd * (p.den - p.num))
        },
        ColorOverlayMode::Fade => fade_picks(pick(left, xn, xd), pick(right, xn, xd), xn, xd),
    }
}

proof fn lemma_index_in_range(num: int, den: int, k: int)
    requires
        0 <= num <= den,
        0 < den,
        0 <= k,
    ensures
        0 <= num * k / den <= k,
{
    assert(num * k <= den * k) by (nonlinear_arith)
        requires 0 <= num <= den, 0 <= k;
    assert(num * k / den <= den * k / den) by (nonlinear_arith)
        requires num * k <= den * k, 0 < den, 0 <= num * k;
    assert(den * k / den == k) by (nonlinear_arith)
        requires 0 < den;
    assert(0 <= num * k / den) by (nonlinear_arith)
        requires 0 <= num, 0 <= k, 0 < den;
}

/// The entry of `ramp` at `num / den`.
fn sample(ramp: &Vec<Color>, num: u64, den: u64) -> (r: Result<Color, ColorError>)
    requires
        0 < den,
        num <= den,
    ensures
        r == pick(ramp@, num as int, den as int),
{
    let n = ramp.len();
    if n == 0 {
        return Err(ColorError::EmptyRamp);
    }
    proof {
        lemma_index_in_range(num as int, den as int, n - 1);
        assert((num as int) * (n - 1) < 0x1_0000_0000_0000_0000_0000_0000_0000_0000) by (nonlinear_arith)
            requires 0 <= num < 0x1_0000_0000_0000_0000, 0 <= n - 1 < 0x1_0000_0000_0000_0000;
    }
    let i: u128 = (num as u128) * ((n - 1) as u128) / (den as u128);
    Ok(ramp[i as usize])
}

fn fade_samples(
    l: Result<Color, ColorError>,
    r: Result<Color, ColorError>,
    num: u128,
    den: u128,
) -> (out: Result<Color, ColorError>)
    requires
        0 < den <= crate::color::MAX_BLEND_DEN,
        num <= den,
    ensures
        out == fade_picks(l, r, num as int, den as int),
{
    match l {
        Err(e) => Err(e),
        Ok(a) => match r {
            Err(e) => Err(e),
            Ok(b) => blend_by(a, b, num, den),
        },
    }
}

proof fn lemma_product_bounds(a: int, b: int, c: int)
    requires
        0 <= a < 0x1_0000_0000,
        0 <= b < 0x1_0000_0000,
        0 <= c < 0x2_0000_0000,
    ensures
        0 <= a * b < 0x1_0000_0000_0000_0000,
        0 <= a * b * c < 0x2_0000_0000_0000_0000_0000_0000,
{
    assert(0 <= a * b < 0x1_0000_0000_0000_0000) by (nonlinear_arith)
        requires 0 <= a < 0x1_0000_0000, 0 <= b < 0x1_0000_0000;
    assert(0 <= a * b * c < 0x2_0000_0000_0000_0000_0000_0000) by (nonlinear_arith)
        requires 0 <= a * b < 0x1_0000_0000_0000_0000, 0 <= c < 0x2_0000_0000;
}

impl Line {
    /// A blank line: one blue-grey left ramp, no label and no trailer.
    pub fn empty() -> (r: Line)
        ensures
            r.wf(),
            r.colors_left@ == seq![Color { f: (0u8, 100u8, 150u8), b: None }],
            r.colors_right@.len() == 0,
            r.color_overlay_mode == ColorOverlayMode::AlwaysLeft,
            r.progress == (Frac { num: 1, den: 2 }),
            r.short.is_none(),
            !r.underline,
            r.long.is_none(),
    {
        let left = vec![Color { f: (0u8, 100u8, 150u8), b: None }];
        proof {
            assert(left@ =~= seq![Color { f: (0u8, 100u8, 150u8), b: None }]);
        }
        Line {
            colors_left: left,
            colors_right: Vec::new(),
            color_overlay_mode: ColorOverlayMode::AlwaysLeft,
            progress: Frac { num: 1, den: 2 },
            short: None,
            underline: false,
            long: None,
        }
    }

    /// Ratios that the line carries have non-zero denominators.
    pub open spec fn wf(&self) -> bool {
        self.progress.wf() && self.color_overlay_mode.wf()
    }

    /// The colour of the glyph at horizontal fraction `split`; a fraction above
    /// one is taken as one.
    pub fn get_color(&self, split: Frac) -> (r: Result<Color, ColorError>)
        requires
            self.wf(),
            split.wf(),
        ensures
            r == select(
                self.colors_left@,
                self.colors_right@,
                self.color_overlay_mode,
                self.progress,
                clamp_unit(split),
            ),
    {
        let split = if split.num > split.den {
            Frac { num: split.den, den: split.den }
        } else {
            split
        };
        let xn = split.num as u64;
        let xd = split.den as u64;
        let pn = self.progress.num as u64;
        let pd = self.progress.den as u64;
        match self.color_overlay_mode {
            ColorOverlayMode::AlwaysLeft => sample(&self.colors_left, xn, xd),
            ColorOverlayMode::AlwaysRight => sample(&self.colors_right, xn, xd),
            ColorOverlayMode::ChooseFromPos => self.split_color(split),
            ColorOverlayMode::ChooseFromPosFade(d) => {
                if d.num == 0 {
                    return self.split_color(split);
                }
                let dn = d.num as i128;
                let dd = d.den as i128;
                proof {
                    lemma_product_bounds(xn as int, pd as int, dd as int);
                    lemma_product_bounds(pn as int, xd as int, (dd + dn) as int);
                    lemma_product_bounds(dn as int, xd as int, pd as int);
                    assert(band_den(split, self.progress, d) > 0) by (nonlinear_arith)
                        requires dn > 0, xd > 0, pd > 0, band_den(split, self.progress, d) == dn * xd * pd;
                }
                let num: i128 = (xn as i128) * (pd as i128) * dd - (pn as i128) * (xd as i128) * (dd + dn)
                    + dn * (xd as i128) * (pd as i128);
                let den: i128 = dn * (xd as i128) * (pd as i128);
                if num <= 0 {
                    sample(&self.colors_left, xn, xd)
                } else if num >= den {
                    sample(&self.colors_right, xn, xd)
                } else {
                    let l = sample(&self.colors_left, xn, xd);
                    let r = sample(&self.colors_right, xn, xd);
                    fade_samples(l, r, num as u128, den as u128)
                }
            },
            ColorOverlayMode::Stretch => {
                if pn == 0 {
                    sample(&self.colors_right, xn, xd)
                } else if pn >= pd {
                    sample(&self.colors_left, xn, xd)
                } else {
                    proof {
                        lemma_product_bounds(xn as int, pd as int, 1);
                        lemma_product_bounds(pn as int, xd as int, 1);
                        lemma_product_bounds(xd as int, (pd - pn) as int, 1);
                        assert(xn * pd <= xd * pd) by (nonlinear_arith)
                            requires xn <= xd, 0 <= pd;
                        assert(xd * (pd - pn) == xd * pd - pn * xd) by (nonlinear_arith);
                        assert(xd * pn > 0) by (nonlinear_arith)
                            requires xd > 0, pn > 0;
                        assert(xd * (pd - pn) > 0) by (nonlinear_arith)
                            requires xd > 0, pd - pn > 0;
                    }
                    if xn * pd <= pn * xd {
                        sample(&self.colors_left, xn * pd, xd * pn)
                    } else {
                        sample(&self.colors_right, xn * pd - pn * xd, xd * (pd - pn))
                    }
                }
            },
            ColorOverlayMode::Fade => {
                let l = sample(&self.colors_left, xn, xd);
                let r = sample(&self.colors_right, xn, xd);
                fade_samples(l, r, xn as u128, xd as u128)
            },
        }
    }

    fn split_color(&self, split: Frac) -> (r: Result<Color, ColorError>)
        requires
            self.wf(),
            split.is_unit(),
        ensures
            r == split_at(self.colors_left@, self.colors_right@, self.progress, split),
    {
        let xn = split.num as u64;
        let xd = split.den as u64;
        proof {
            lemma_product_bounds(xn as int, self.progress.den as int, 1);
            lemma_product_bounds(self.progress.num as int, xd as int, 1);
        }
        if xn * (self.progress.den as u64) < (self.progress.num as u64) * xd {
            sample(&self.colors_left, xn, xd)
        } else {
            sample(&self.colors_right, xn, xd)
        }
    }
}

} // verus!
