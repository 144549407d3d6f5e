use vstd::prelude::*;

verus! {

/// One coverage sample of a rasterised glyph: a pixel of the glyph's own
/// bitmap, the offset of that bitmap's bounding box, and how much of the
/// pixel the outline covers, as a fraction of `UNIT`.
#[derive(Debug, Clone, Copy, PartialEq, Eq, Structural)]
pub struct GlyphSample {
    pub x: u32,
    pub y: u32,
    pub min_x: i32,
    pub min_y: i32,
    pub coverage: u16,
}

/// How layout space lies on the pixel buffer. It is a property of the
/// display: a panel mounted a quarter turn round needs `Rotated`, a sink
/// that shows the buffer as it is needs `Upright`.
#[derive(Debug, Clone, Copy, PartialEq, Eq, Structural)]
pub enum Orientation {
    Upright,
    Rotated,
}

impl Orientation {
    /// The layout-space point that a sample lands on. On a rotated panel
    /// the horizontal axis runs backwards from the buffer's height.
    pub open spec fn spec_place(self, s: GlyphSample, buffer_height: u32) -> (int, int) {
        match self {
            Orientation::Upright => (s.x + s.min_x, s.y + s.min_y),
            Orientation::Rotated => (buffer_height - (s.x + s.min_x), s.y + s.min_y),
        }
    }

    /// The buffer cell (column, row) that shows the layout-space point
    /// `(x, y)`. On a rotated panel the two axes change places.
    pub open spec fn spec_cell(self, x: int, y: int) -> (int, int) {
        match self {
            Orientation::Upright => (x, y),
            Orientation::Rotated => (y, x),
        }
    }

    pub fn place(self, s: &GlyphSample, buffer_height: u32) -> (p: (i64, i64))
        ensures
            (p.0 as int, p.1 as int) == self.spec_place(*s, buffer_height),
    {
        let gx: i64 = s.x as i64 + s.min_x as i64;
        let gy: i64 = s.y as i64 + s.min_y as i64;
        match self {
            Orientation::Upright => (gx, gy),
            Orientation::Rotated => (buffer_height as i64 - gx, gy),
        }
    }

    pub fn cell(self, x: i64, y: i64) -> (c: (i64, i64))
        ensures
            (c.0 as int, c.1 as int) == self.spec_cell(x as int, y as int),
    {
        match self {
            Orientation::Upright => (x, y),
            Orientation::Rotated => (y, x),
        }
    }
}

} // verus!
