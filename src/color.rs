use vstd::prelude::*;
use crate::frac::Frac;

verus! {

/// An RGB triple of 8-bit channels.
pub type Rgb = (u8, u8, u8);

/// A foreground colour and an optional background colour.
#[derive(Clone, Copy, Debug, PartialEq, Eq)]
pub struct Color {
    pub f: Rgb,
    pub b: Option<Rgb>,
}

/// Why a colour could not be chosen.
#[derive(Clone, Copy, Debug, PartialEq, Eq, Structural)]
pub enum ColorError {
    /// A ramp that the overlay mode samples holds no colour.
    EmptyRamp,
    /// Two colours were faded where exactly one has a background.
    BackgroundMismatch,
}

/// Largest numerator or denominator that the channel blend accepts.
pub const MAX_BLEND_DEN: u128 = 0x0001_0000_0000_0000_0000_0000_0000_0000u128;

/// One channel of `a * (1 - t) + b * t` for `t = num / den`, truncated, and
/// saturated to `0..=255` where a factor above one extrapolates past the ends.
pub open spec fn mix_channel(a: u8, b: u8, num: int, den: int) -> int {
    let v = a * (den - num) + b * num;
    if v <= 0 {
        0
    } else if v / den > 255 {
        255
    } else {
        v / den
    }
}

/// The channel-wise blend of two RGB triples.
pub open spec fn mix_rgb(a: Rgb, b: Rgb, num: int, den: int) -> Rgb {
    (
        mix_channel(a.0, b.0, num, den) as u8,
        mix_channel(a.1, b.1, num, den) as u8,
        mix_channel(a.2, b.2, num, den) as u8,
    )
}

/// Fading `c1` towards `c2` by `num / den`: both backgrounds or neither must be present.
pub open spec fn blend(c1: Color, c2: Color, num: int, den: int) -> Result<Color, ColorError> {
    match (c1.b, c2.b) {
        (None, None) => Ok(Color { f: mix_rgb(c1.f, c2.f, num, den), b: None }),
        (Some(x), Some(y)) => Ok(
            Color { f: mix_rgb(c1.f, c2.f, num, den), b: Some(mix_rgb(x, y, num, den)) },
        ),
        _ => Err(ColorError::BackgroundMismatch),
    }
}

fn mix(a: u8, b: u8, num: u128, den: u128) -> (r: u8)
    requires
        0 < den <= MAX_BLEND_DEN,
        num <= MAX_BLEND_DEN,
    ensures
        r as int == mix_channel(a, b, num as int, den as int),
{
    proof {
        assert((a as int) * den <= 255 * MAX_BLEND_DEN) by (nonlinear_arith)
            requires a <= 255, den <= MAX_BLEND_DEN;
        assert((b as int) * num <= 255 * MAX_BLEND_DEN) by (nonlinear_arith)
            requires b <= 255, num <= MAX_BLEND_DEN;
        assert((a as int) * num <= 255 * MAX_BLEND_DEN) by (nonlinear_arith)
            requires a <= 255, num <= MAX_BLEND_DEN;
        assert(a * (den - num) + b * num == a * den + b * num - a * num) by (nonlinear_arith);
    }
    let gain: u128 = (a as u128) * den + (b as u128) * num;
    let loss: u128 = (a as u128) * num;
    if gain <= loss {
        0
    } else {
        let q = (gain - loss) / den;
        if q > 255 {
            255
        } else {
            q as u8
        }
    }
}

fn mix_triple(a: Rgb, b: Rgb, num: u128, den: u128) -> (r: Rgb)
    requires
        0 < den <= MAX_BLEND_DEN,
        num <= MAX_BLEND_DEN,
    ensures
        r == mix_rgb(a, b, num as int, den as int),
{
    (mix(a.0, b.0, num, den), mix(a.1, b.1, num, den), mix(a.2, b.2, num, den))
}

/// Fades `c1` towards `c2` by `num / den`.
pub(crate) fn blend_by(c1: Color, c2: Color, num: u128, den: u128) -> (r: Result<Color, ColorError>)
    requires
        0 < den <= MAX_BLEND_DEN,
        num <= MAX_BLEND_DEN,
    ensures
        r == blend(c1, c2, num as int, den as int),
{
    match (c1.b, c2.b) {
        (None, None) => Ok(Color { f: mix_triple(c1.f, c2.f, num, den), b: None }),
        (Some(x), Some(y)) => Ok(
            Color { f: mix_triple(c1.f, c2.f, num, den), b: Some(mix_triple(x, y, num, den)) },
        ),
        _ => Err(ColorError::BackgroundMismatch),
    }
}

#[verifier::external_type_specification]
#[verifier::external_body]
pub struct ExColoredString(colored::ColoredString);

/// The text `s` with the 24-bit foreground `c`.
pub uninterp spec fn truecolored(s: Seq<char>, c: Rgb) -> colored::ColoredString;

/// The styled text `s` with the 24-bit background `c` added.
pub uninterp spec fn on_truecolored(s: colored::ColoredString, c: Rgb) -> colored::ColoredString;

/// Relies on colored's `Colorize::truecolor` for `&str`: the text with a 24-bit foreground.
#[verifier::external_body]
fn truecolor(s: &str, c: Rgb) -> (r: colored::ColoredString)
    ensures
        r == truecolored(s@, c),
{
    colored::Colorize::truecolor(s, c.0, c.1, c.2)
}

/// Relies on colored's `Colorize::on_truecolor` for `ColoredString`: adds a 24-bit background.
#[verifier::external_body]
fn on_truecolor(s: colored::ColoredString, c: Rgb) -> (r: colored::ColoredString)
    ensures
        r == on_truecolored(s, c),
{
    colored::Colorize::on_truecolor(s, c.0, c.1, c.2)
}

impl Color {
    /// Styles the glyph `s` with the foreground and, when there is one, the background.
    pub fn apply(&self, s: &str) -> (r: colored::ColoredString)
        ensures
            self.b.is_none() ==> r == truecolored(s@, self.f),
            self.b.is_some() ==> r == on_truecolored(truecolored(s@, self.f), self.b.unwrap()),
    {
        match self.b {
            Some(bg) => on_truecolor(truecolor(s, self.f), bg),
            None => truecolor(s, self.f),
        }
    }

    /// Linear interpolation per channel, `c1 * (1 - f) + c2 * f`, truncated; a
    /// factor above one extrapolates, saturating at `0` and `255`.
    /// Fails when exactly one of the two colours has a background.
    pub fn fade(c1: Color, c2: Color, f: Frac) -> (r: Result<Color, ColorError>)
        requires
            f.wf(),
        ensures
            r == blend(c1, c2, f.num as int, f.den as int),
            r.is_err() <==> (c1.b.is_some() != c2.b.is_some()),
    {
        blend_by(c1, c2, f.num as u128, f.den as u128)
    }
}

} // verus!
