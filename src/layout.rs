use vstd::prelude::*;
use crate::color::{Color, ColorError};
use crate::frac::Frac;
use crate::line::{select, Line};

verus! {

/// Blank glyphs before a label of `label_len` glyphs centred in a bar `width` wide;
/// an odd remainder goes to the left.
pub open spec fn pad_of(label_len: int, width: int) -> int {
    if label_len >= width {
        0
    } else {
        (1 + width - label_len) / 2
    }
}

/// The label glyph at position `p`, if one stands there.
pub open spec fn slot_of(label_len: int, width: int, p: int) -> Option<int> {
    if p >= pad_of(label_len, width) && p - pad_of(label_len, width) < label_len {
        Some(p - pad_of(label_len, width))
    } else {
        None
    }
}

/// The horizontal fraction of glyph `p` in a bar `width` wide: `p / (width - 1)`,
/// and `0` in a bar one glyph wide.
pub open spec fn position_of(p: int, width: int) -> Frac {
    if width <= 1 {
        Frac { num: 0, den: 1 }
    } else {
        Frac { num: p as u32, den: (width - 1) as u32 }
    }
}

/// Leading pad of a centred label.
pub fn label_pad(label_len: usize, width: usize) -> (r: usize)
    ensures
        r as int == pad_of(label_len as int, width as int),
{
    if label_len >= width {
        0
    } else {
        let k = width - label_len;
        k / 2 + k % 2
    }
}

/// Index into the label of the glyph drawn at position `p`, or `None` for a blank.
pub fn label_slot(label_len: usize, width: usize, p: usize) -> (r: Option<usize>)
    ensures
        r.is_some() == slot_of(label_len as int, width as int, p as int).is_some(),
        r.is_some() ==> r.unwrap() as int == slot_of(label_len as int, width as int, p as int).unwrap(),
{
    let pad = label_pad(label_len, width);
    if p >= pad && p - pad < label_len {
        Some(p - pad)
    } else {
        None
    }
}

/// The horizontal fraction of glyph `p` in a bar `width` wide.
pub fn position(p: u32, width: u32) -> (r: Frac)
    requires
        p < width,
    ensures
        r == position_of(p as int, width as int),
        r.is_unit(),
{
    if width <= 1 {
        Frac { num: 0, den: 1 }
    } else {
        Frac { num: p, den: width - 1 }
    }
}

/// The colour of glyph `p` of a line drawn `width` glyphs wide.
#[verifier::opaque]
pub open spec fn glyph_color(line: Line, width: int, p: int) -> Result<Color, ColorError> {
    select(line.colors_left@, line.colors_right@, line.color_overlay_mode, line.progress, position_of(p, width))
}

impl Line {
    /// The colours of the glyphs of the bar drawn `width` wide, left to right;
    /// the error of the leftmost glyph whose colour cannot be chosen otherwise.
    pub fn glyph_colors(&self, width: u32) -> (r: Result<Vec<Color>, ColorError>)
        requires
            self.wf(),
        ensures
            r.is_ok() <==> forall|p: int| 0 <= p < width ==> glyph_color(*self, width as int, p).is_ok(),
            r.is_ok() ==> r.unwrap()@.len() == width,
            r.is_ok() ==> forall|p: int|
                0 <= p < width ==> glyph_color(*self, width as int, p) == Ok::<Color, ColorError>(
                    #[trigger] r.unwrap()@[p],
                ),
            r.is_err() ==> exists|p: int|
                0 <= p < width && glyph_color(*self, width as int, p) == Err::<Color, ColorError>(r.unwrap_err())
                    && forall|q: int| 0 <= q < p ==> #[trigger] glyph_color(*self, width as int, q).is_ok(),
    {
        let mut out: Vec<Color> = Vec::new();
        let mut p: u32 = 0;
        while p < width
            invariant
                self.wf(),
                p <= width,
                out@.len() == p,
                forall|q: int| 0 <= q < p ==> glyph_color(*self, width as int, q) == Ok::<Color, ColorError>(
                    #[trigger] out@[q],
                ),
            decreases width - p,
        {
            let x = position(p, width);
            let got = self.get_color(x);
            proof {
                reveal(glyph_color);
                assert(crate::line::clamp_unit(x) == x);
                assert(got == glyph_color(*self, width as int, p as int));
            }
            match got {
                Ok(c) => out.push(c),
                Err(e) => {
                    assert(forall|q: int| 0 <= q < p ==> #[trigger] glyph_color(*self, width as int, q).is_ok()) by {
                        assert forall|q: int| 0 <= q < p implies #[trigger] glyph_color(*self, width as int, q).is_ok() by {
                            assert(glyph_color(*self, width as int, q) == Ok::<Color, ColorError>(out@[q]));
                        }
                    }
                    return Err(e);
                },
            }
            p = p + 1;
        }
        assert forall|q: int| 0 <= q < width implies #[trigger] glyph_color(*self, width as int, q).is_ok() by {
            assert(glyph_color(*self, width as int, q) == Ok::<Color, ColorError>(out@[q]));
        }
        Ok(out)
    }
}

} // verus!
