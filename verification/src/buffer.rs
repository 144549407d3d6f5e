use vstd::prelude::*;
use crate::color::{lemma_blend_ends, PixelType, Rgb, UNIT};
use crate::gadget::RenderRect;
use crate::glyph::{GlyphSample, Orientation};

verus! {

/// A grid of pixels in one encoding, row by row from the top left.
pub struct Buffer<P: PixelType> {
    width: u32,
    height: u32,
    data: Vec<P>,
}

/// The index of cell `(x, y)` in a row-major grid `width` cells wide.
pub open spec fn spec_index(width: u32, x: int, y: int) -> int {
    y * width + x
}

/// Whether the cell at index `i` of a grid shows a layout-space point of
/// `rect`.
pub open spec fn spec_shows(width: u32, i: int, rect: RenderRect, orientation: Orientation)
    -> bool {
    width > 0 && match orientation {
        Orientation::Upright => rect.spec_contains(i % width as int, i / width as int),
        Orientation::Rotated => rect.spec_contains(i / width as int, i % width as int),
    }
}

/// The grid with every cell that shows a point of `rect` set to black.
pub open spec fn spec_clear_rect<P: PixelType>(
    pixels: Seq<P>,
    width: u32,
    rect: RenderRect,
    orientation: Orientation,
) -> Seq<P> {
    Seq::new(
        pixels.len(),
        |i: int|
            if spec_shows(width, i, rect, orientation) {
                P::spec_black()
            } else {
                pixels[i]
            },
    )
}

/// The index of the cell on which a sample is composited, or `None` for a
/// sample that lands outside `clip` or outside the grid.
pub open spec fn spec_lands(
    width: u32,
    height: u32,
    s: GlyphSample,
    clip: RenderRect,
    orientation: Orientation,
) -> Option<int> {
    let at = orientation.spec_place(s, height);
    let cell = orientation.spec_cell(at.0, at.1);
    if clip.spec_contains(at.0, at.1) && 0 <= cell.0 < width && 0 <= cell.1 < height {
        Some(spec_index(width, cell.0, cell.1))
    } else {
        None
    }
}

/// Whether one of the first `n` samples is composited on the cell at
/// index `i`.
pub open spec fn spec_hit(
    width: u32,
    height: u32,
    samples: Seq<GlyphSample>,
    n: int,
    clip: RenderRect,
    orientation: Orientation,
    i: int,
) -> bool {
    exists|k: int|
        0 <= k < n && spec_lands(width, height, #[trigger] samples[k], clip, orientation) == Some(
            i,
        )
}

/// The grid after one sample is composited over it: the sample's cell takes
/// the blend of `color` over what the cell held, unless the sample lands
/// outside `clip` or outside the grid, in which case nothing changes.
pub open spec fn spec_draw_sample<P: PixelType>(
    pixels: Seq<P>,
    width: u32,
    height: u32,
    s: GlyphSample,
    color: Rgb,
    clip: RenderRect,
    orientation: Orientation,
) -> Seq<P> {
    match spec_lands(width, height, s, clip, orientation) {
        Some(i) => pixels.update(
            i,
            P::spec_encode(color.spec_blend(pixels[i].spec_decode(), s.coverage)),
        ),
        None => pixels,
    }
}

/// The grid after the first `n` samples are composited over it, in order.
pub open spec fn spec_draw_samples<P: PixelType>(
    pixels: Seq<P>,
    width: u32,
    height: u32,
    samples: Seq<GlyphSample>,
    n: int,
    color: Rgb,
    clip: RenderRect,
    orientation: Orientation,
) -> Seq<P>
    decreases n,
{
    if n <= 0 {
        pixels
    } else {
        spec_draw_sample(
            spec_draw_samples(pixels, width, height, samples, n - 1, color, clip, orientation),
            width,
            height,
            samples[n - 1],
            color,
            clip,
            orientation,
        )
    }
}

/// The grid after a text run is painted into `rect`: the region is cleared
/// to black, then the samples are composited over it, clipped to the region.
pub open spec fn spec_paint<P: PixelType>(
    pixels: Seq<P>,
    width: u32,
    height: u32,
    rect: RenderRect,
    samples: Seq<GlyphSample>,
    color: Rgb,
    orientation: Orientation,
) -> Seq<P> {
    spec_draw_samples(
        spec_clear_rect(pixels, width, rect, orientation),
        width,
        height,
        samples,
        samples.len() as int,
        color,
        rect,
        orientation,
    )
}

/// The layout-space region that covers a whole grid.
pub open spec fn spec_whole(width: u32, height: u32, orientation: Orientation) -> RenderRect {
    match orientation {
        Orientation::Upright => RenderRect { x: 0, y: 0, width, height },
        Orientation::Rotated => RenderRect { x: 0, y: 0, width: height, height: width },
    }
}

/// Cell `(x, y)` of a grid lies in row `y` and column `x` of its index.
pub proof fn lemma_index_cell(width: u32, height: u32, x: int, y: int)
    requires
        0 <= x < width,
        0 <= y < height,
    ensures
        0 <= spec_index(width, x, y) < width * height,
        spec_index(width, x, y) % width as int == x,
        spec_index(width, x, y) / width as int == y,
{
    let w = width as int;
    assert(0 <= y * w && y * w + w <= height * w) by (nonlinear_arith)
        requires
            0 <= y < height,
            0 < w,
    ;
    assert((y * w + x) % w == x && (y * w + x) / w == y) by (nonlinear_arith)
        requires
            0 <= x < w,
            0 <= y,
    ;
}

impl<P: PixelType> Buffer<P> {
    pub closed spec fn spec_width(&self) -> u32 {
        self.width
    }

    pub closed spec fn spec_height(&self) -> u32 {
        self.height
    }

    /// The pixels, row by row.
    pub closed spec fn view(&self) -> Seq<P> {
        self.data@
    }

    /// The buffer holds one pixel for each cell of its grid.
    pub closed spec fn wf(&self) -> bool {
        self.data@.len() == self.width * self.height
    }

    /// Whether `(x, y)` is a cell of the grid.
    pub open spec fn spec_in_bounds(&self, x: int, y: int) -> bool {
        0 <= x < self.spec_width() && 0 <= y < self.spec_height()
    }

    /// A well-formed buffer holds `width * height` pixels.
    pub proof fn lemma_len(&self)
        requires
            self.wf(),
        ensures
            self@.len() == self.spec_width() * self.spec_height(),
    {
    }

    /// The place of cell `(x, y)` among the pixels.
    fn index(&self, x: u32, y: u32) -> (i: usize)
        requires
            self.wf(),
            self.spec_in_bounds(x as int, y as int),
        ensures
            i == spec_index(self.spec_width(), x as int, y as int),
            i < self@.len(),
            i as int % self.spec_width() as int == x,
            i as int / self.spec_width() as int == y,
    {
        let n: usize = self.data.len();
        proof {
            lemma_index_cell(self.width, self.height, x as int, y as int);
            assert(0 <= y * self.width <= spec_index(self.width, x as int, y as int) < n);
        }
        y as usize * self.width as usize + x as usize
    }

    /// A buffer of the given size, every pixel black.
    pub fn new(width: u32, height: u32) -> (buffer: Buffer<P>)
        requires
            width * height <= u32::MAX,
        ensures
            buffer.wf(),
            buffer.spec_width() == width,
            buffer.spec_height() == height,
            buffer@ == Seq::new((width * height) as nat, |i: int| P::spec_black()),
    {
        let area: u32 = width * height;
        let mut data: Vec<P> = Vec::new();
        let mut i: u32 = 0;
        while i < area
            invariant
                i <= area,
                data@.len() == i,
                forall|j: int| 0 <= j < i ==> data@[j] == P::spec_black(),
            decreases area - i,
        {
            data.push(P::black());
            i += 1;
        }
        assert(data@ =~= Seq::new((width * height) as nat, |i: int| P::spec_black()));
        Buffer { width, height, data }
    }

    pub fn width(&self) -> (w: u32)
        ensures
            w == self.spec_width(),
    {
        self.width
    }

    pub fn height(&self) -> (h: u32)
        ensures
            h == self.spec_height(),
    {
        self.height
    }

    /// Resets every pixel to black.
    pub fn clear(&mut self)
        ensures
            final(self).spec_width() == old(self).spec_width(),
            final(self).spec_height() == old(self).spec_height(),
            final(self).wf() == old(self).wf(),
            final(self)@ == Seq::new(old(self)@.len(), |i: int| P::spec_black()),
    {
        let n: usize = self.data.len();
        let mut i: usize = 0;
        while i < n
            invariant
                i <= n,
                self.data@.len() == n,
                self.width == old(self).width,
                self.height == old(self).height,
                forall|j: int| 0 <= j < i ==> self.data@[j] == P::spec_black(),
            decreases n - i,
        {
            self.data[i] = P::black();
            i += 1;
        }
        assert(self.data@ =~= Seq::new(old(self)@.len(), |i: int| P::spec_black()));
    }

    /// Stores `rgb` at `(x, y)`; does nothing outside the grid.
    pub fn set_pixel(&mut self, x: u32, y: u32, rgb: Rgb)
        requires
            old(self).wf(),
        ensures
            final(self).wf(),
            final(self).spec_width() == old(self).spec_width(),
            final(self).spec_height() == old(self).spec_height(),
            old(self).spec_in_bounds(x as int, y as int) ==> final(self)@ == old(self)@.update(
                spec_index(old(self).spec_width(), x as int, y as int),
                P::spec_encode(rgb),
            ),
            !old(self).spec_in_bounds(x as int, y as int) ==> final(self)@ == old(self)@,
    {
        if x >= self.width {
            return ;
        }
        if y >= self.height {
            return ;
        }
        let i: usize = self.index(x, y);
        let mut p: P = self.data[i];
        p.set(rgb);
        self.data[i] = p;
    }

    /// Resets the pixel at `(x, y)` to black; does nothing outside the grid.
    pub fn clear_pixel(&mut self, x: u32, y: u32)
        requires
            old(self).wf(),
        ensures
            final(self).wf(),
            final(self).spec_width() == old(self).spec_width(),
            final(self).spec_height() == old(self).spec_height(),
            old(self).spec_in_bounds(x as int, y as int) ==> final(self)@ == old(self)@.update(
                spec_index(old(self).spec_width(), x as int, y as int),
                P::spec_black(),
            ),
            !old(self).spec_in_bounds(x as int, y as int) ==> final(self)@ == old(self)@,
    {
        if x >= self.width {
            return ;
        }
        if y >= self.height {
            return ;
        }
        let i: usize = self.index(x, y);
        self.data[i] = P::black();
    }

    /// The colour at `(x, y)`, or `None` outside the grid.
    pub fn get_pixel(&self, x: u32, y: u32) -> (rgb: Option<Rgb>)
        requires
            self.wf(),
        ensures
            self.spec_in_bounds(x as int, y as int) ==> rgb == Some(
                self@[spec_index(self.spec_width(), x as int, y as int)].spec_decode(),
            ),
            !self.spec_in_bounds(x as int, y as int) ==> rgb.is_none(),
    {
        if x >= self.width {
            return None;
        }
        if y >= self.height {
            return None;
        }
        let i: usize = self.index(x, y);
        Some(self.data[i].get())
    }

    /// Every pixel with its cell, row by row from the top left.
    pub fn pixels(&self) -> (all: Vec<(u32, u32, P)>)
        requires
            self.wf(),
        ensures
            all@.len() == self@.len(),
            forall|i: int|
                0 <= i < all@.len() ==> {
                    &&& (#[trigger] all@[i]).0 == i % self.spec_width() as int
                    &&& all@[i].1 == i / self.spec_width() as int
                    &&& all@[i].2 == self@[i]
                    &&& self.spec_in_bounds(all@[i].0 as int, all@[i].1 as int)
                },
    {
        let n: usize = self.data.len();
        let mut all: Vec<(u32, u32, P)> = Vec::new();
        let mut i: usize = 0;
        while i < n
            invariant
                i <= n,
                n == self.data@.len(),
                self.wf(),
                all@.len() == i,
                forall|j: int|
                    0 <= j < i ==> {
                        &&& (#[trigger] all@[j]).0 == j % self.width as int
                        &&& all@[j].1 == j / self.width as int
                        &&& all@[j].2 == self.data@[j]
                        &&& all@[j].0 < self.width
                        &&& all@[j].1 < self.height
                    },
            decreases n - i,
        {
            proof {
                lemma_cell_of_index(self.width, self.height, i as int);
            }
            let w: usize = self.width as usize;
            let x: usize = i % w;
            let y: usize = i / w;
            all.push((x as u32, y as u32, self.data[i]));
            i += 1;
        }
        all
    }

    /// Resets to black every cell that shows a point of `rect`.
    pub fn clear_rect(&mut self, rect: RenderRect, orientation: Orientation)
        requires
            old(self).wf(),
        ensures
            final(self).wf(),
            final(self).spec_width() == old(self).spec_width(),
            final(self).spec_height() == old(self).spec_height(),
            final(self)@ == spec_clear_rect(old(self)@, old(self).spec_width(), rect, orientation),
    {
        let n: usize = self.data.len();
        let mut i: usize = 0;
        while i < n
            invariant
                i <= n,
                self.data@.len() == n,
                self.wf(),
                self.width == old(self).width,
                self.height == old(self).height,
                forall|j: int|
                    0 <= j < n ==> #[trigger] self.data@[j] == if j < i && spec_shows(
                        self.width,
                        j,
                        rect,
                        orientation,
                    ) {
                        P::spec_black()
                    } else {
                        old(self).data@[j]
                    },
            decreases n - i,
        {
            proof {
                lemma_cell_of_index(self.width, self.height, i as int);
            }
            let w: usize = self.width as usize;
            let x: i64 = (i % w) as i64;
            let y: i64 = (i / w) as i64;
            let inside: bool = match orientation {
                Orientation::Upright => rect.contains(x, y),
                Orientation::Rotated => rect.contains(y, x),
            };
            if inside {
                self.data[i] = P::black();
            }
            i += 1;
        }
        assert(self.data@ =~= spec_clear_rect(old(self)@, old(self).spec_width(), rect, orientation));
    }

    /// Composites the samples over the buffer, in order. Each sample is
    /// blended over what its cell holds at that moment; one that lands
    /// outside `clip` or outside the grid is dropped.
    pub fn draw_samples(
        &mut self,
        samples: &Vec<GlyphSample>,
        color: Rgb,
        clip: RenderRect,
        orientation: Orientation,
    )
        requires
            old(self).wf(),
        ensures
            final(self).wf(),
            final(self).spec_width() == old(self).spec_width(),
            final(self).spec_height() == old(self).spec_height(),
            final(self)@ == spec_draw_samples(
                old(self)@,
                old(self).spec_width(),
                old(self).spec_height(),
                samples@,
                samples@.len() as int,
                color,
                clip,
                orientation,
            ),
    {
        let n: usize = samples.len();
        let mut k: usize = 0;
        while k < n
            invariant
                k <= n,
                n == samples@.len(),
                self.wf(),
                self.width == old(self).width,
                self.height == old(self).height,
                self.data@ == spec_draw_samples(
                    old(self).data@,
                    self.width,
                    self.height,
                    samples@,
                    k as int,
                    color,
                    clip,
                    orientation,
                ),
            decreases n - k,
        {
            let s: GlyphSample = samples[k];
            let at: (i64, i64) = orientation.place(&s, self.height);
            let cell: (i64, i64) = orientation.cell(at.0, at.1);
            if clip.contains(at.0, at.1) && 0 <= cell.0 && cell.0 < self.width as i64 && 0
                <= cell.1 && cell.1 < self.height as i64 {
                let i: usize = self.index(cell.0 as u32, cell.1 as u32);
                let background: Rgb = self.data[i].get();
                let mut p: P = self.data[i];
                p.set(color.blend(background, s.coverage));
                self.data[i] = p;
            }
            k += 1;
        }
    }

    /// Composites rasterised text over the whole buffer.
    pub fn draw_text(&mut self, samples: &Vec<GlyphSample>, color: Rgb, orientation: Orientation)
        requires
            old(self).wf(),
        ensures
            final(self).wf(),
            final(self).spec_width() == old(self).spec_width(),
            final(self).spec_height() == old(self).spec_height(),
            final(self)@ == spec_draw_samples(
                old(self)@,
                old(self).spec_width(),
                old(self).spec_height(),
                samples@,
                samples@.len() as int,
                color,
                spec_whole(old(self).spec_width(), old(self).spec_height(), orientation),
                orientation,
            ),
    {
        let whole = match orientation {
            Orientation::Upright => RenderRect { x: 0, y: 0, width: self.width, height: self.height },
            Orientation::Rotated => RenderRect { x: 0, y: 0, width: self.height, height: self.width },
        };
        self.draw_samples(samples, color, whole, orientation);
    }
}

/// The cell that index `i` of a grid stands for lies inside the grid.
pub proof fn lemma_cell_of_index(width: u32, height: u32, i: int)
    requires
        0 <= i < width * height,
    ensures
        width > 0,
        0 <= (i % (width as int)) < width,
        0 <= (i / (width as int)) < height,
        spec_index(width, i % width as int, i / width as int) == i,
{
    let w = width as int;
    assert(w > 0) by (nonlinear_arith)
        requires
            0 <= i < w * height,
            w >= 0,
            height >= 0,
    ;
    assert(0 <= i % w < w && 0 <= i / w && (i / w) * w + i % w == i) by (nonlinear_arith)
        requires
            0 <= i,
            0 < w,
    ;
    assert(i / w < height) by (nonlinear_arith)
        requires
            (i / w) * w + i % w == i,
            0 <= i % w,
            i < w * height,
            0 < w,
    ;
}

/// Compositing keeps the size of the grid and changes no cell but those
/// that show a point of the clip region.
pub proof fn lemma_draw_stays_inside<P: PixelType>(
    pixels: Seq<P>,
    width: u32,
    height: u32,
    samples: Seq<GlyphSample>,
    n: int,
    color: Rgb,
    clip: RenderRect,
    orientation: Orientation,
)
    requires
        pixels.len() == width * height,
        0 <= n <= samples.len(),
    ensures
        spec_draw_samples(pixels, width, height, samples, n, color, clip, orientation).len()
            == pixels.len(),
        forall|i: int|
            0 <= i < pixels.len() && !spec_shows(width, i, clip, orientation) ==> spec_draw_samples(
                pixels,
                width,
                height,
                samples,
                n,
                color,
                clip,
                orientation,
            )[i] == pixels[i],
    decreases n,
{
    if n > 0 {
        lemma_draw_stays_inside(pixels, width, height, samples, n - 1, color, clip, orientation);
        let at = orientation.spec_place(samples[n - 1], height);
        let cell = orientation.spec_cell(at.0, at.1);
        if clip.spec_contains(at.0, at.1) && 0 <= cell.0 < width && 0 <= cell.1 < height {
            lemma_index_cell(width, height, cell.0, cell.1);
            assert(spec_shows(width, spec_index(width, cell.0, cell.1), clip, orientation));
        }
    }
}

/// Painting a run a second time from the same samples changes no pixel.
pub proof fn lemma_paint_twice<P: PixelType>(
    pixels: Seq<P>,
    width: u32,
    height: u32,
    rect: RenderRect,
    samples: Seq<GlyphSample>,
    color: Rgb,
    orientation: Orientation,
)
    requires
        pixels.len() == width * height,
    ensures
        spec_paint(
            spec_paint(pixels, width, height, rect, samples, color, orientation),
            width,
            height,
            rect,
            samples,
            color,
            orientation,
        ) == spec_paint(pixels, width, height, rect, samples, color, orientation),
{
    let cleared = spec_clear_rect(pixels, width, rect, orientation);
    let once = spec_paint(pixels, width, height, rect, samples, color, orientation);
    lemma_draw_stays_inside(
        cleared,
        width,
        height,
        samples,
        samples.len() as int,
        color,
        rect,
        orientation,
    );
    assert(spec_clear_rect(once, width, rect, orientation) =~= cleared);
}

/// Painting a run changes no cell outside its region.
pub proof fn lemma_paint_stays_inside<P: PixelType>(
    pixels: Seq<P>,
    width: u32,
    height: u32,
    rect: RenderRect,
    samples: Seq<GlyphSample>,
    color: Rgb,
    orientation: Orientation,
    i: int,
)
    requires
        pixels.len() == width * height,
        0 <= i < pixels.len(),
        !spec_shows(width, i, rect, orientation),
    ensures
        spec_paint(pixels, width, height, rect, samples, color, orientation)[i] == pixels[i],
{
    let cleared = spec_clear_rect(pixels, width, rect, orientation);
    lemma_draw_stays_inside(
        cleared,
        width,
        height,
        samples,
        samples.len() as int,
        color,
        rect,
        orientation,
    );
    assert(cleared[i] == pixels[i]);
    assert(spec_draw_samples(
        cleared,
        width,
        height,
        samples,
        samples.len() as int,
        color,
        rect,
        orientation,
    )[i] == cleared[i]);
}

/// A sample without coverage changes nothing: the cell it lands on is read
/// and stored again as the pixel it was.
pub proof fn lemma_zero_coverage<P: PixelType>(
    pixels: Seq<P>,
    width: u32,
    height: u32,
    s: GlyphSample,
    color: Rgb,
    clip: RenderRect,
    orientation: Orientation,
)
    requires
        pixels.len() == width * height,
        s.coverage == 0,
    ensures
        spec_draw_sample(pixels, width, height, s, color, clip, orientation) == pixels,
{
    match spec_lands(width, height, s, clip, orientation) {
        Some(i) => {
            let at = orientation.spec_place(s, height);
            let cell = orientation.spec_cell(at.0, at.1);
            lemma_index_cell(width, height, cell.0, cell.1);
            lemma_blend_ends(color, pixels[i].spec_decode());
            P::lemma_stored(pixels[i]);
            assert(spec_draw_sample(pixels, width, height, s, color, clip, orientation)
                =~= pixels);
        },
        None => {},
    }
}

/// Samples of full coverage replace what they land on: after the first `n`
/// of them, every cell that one of them was composited on holds `color` as
/// the encoding stores it, and every other cell is as it was.
pub proof fn lemma_full_coverage<P: PixelType>(
    pixels: Seq<P>,
    width: u32,
    height: u32,
    samples: Seq<GlyphSample>,
    n: int,
    color: Rgb,
    clip: RenderRect,
    orientation: Orientation,
)
    requires
        pixels.len() == width * height,
        0 <= n <= samples.len(),
        forall|k: int| 0 <= k < n ==> (#[trigger] samples[k]).coverage == UNIT,
    ensures
        spec_draw_samples(pixels, width, height, samples, n, color, clip, orientation).len()
            == pixels.len(),
        forall|i: int|
            0 <= i < pixels.len() ==> #[trigger] spec_draw_samples(
                pixels,
                width,
                height,
                samples,
                n,
                color,
                clip,
                orientation,
            )[i] == if spec_hit(width, height, samples, n, clip, orientation, i) {
                P::spec_encode(color)
            } else {
                pixels[i]
            },
    decreases n,
{
    if n > 0 {
        lemma_full_coverage(pixels, width, height, samples, n - 1, color, clip, orientation);
        let before = spec_draw_samples(
            pixels,
            width,
            height,
            samples,
            n - 1,
            color,
            clip,
            orientation,
        );
        let after = spec_draw_samples(pixels, width, height, samples, n, color, clip, orientation);
        let s = samples[n - 1];
        let landed = spec_lands(width, height, s, clip, orientation);
        assert(s.coverage == UNIT);
        if landed is Some {
            let at = orientation.spec_place(s, height);
            let cell = orientation.spec_cell(at.0, at.1);
            lemma_index_cell(width, height, cell.0, cell.1);
            lemma_blend_ends(color, before[landed->Some_0].spec_decode());
        }
        assert forall|i: int| 0 <= i < pixels.len() implies #[trigger] after[i] == if spec_hit(
            width,
            height,
            samples,
            n,
            clip,
            orientation,
            i,
        ) {
            P::spec_encode(color)
        } else {
            pixels[i]
        } by {
            let earlier = spec_hit(width, height, samples, n - 1, clip, orientation, i);
            if landed == Some(i) {
                assert(spec_lands(width, height, samples[n - 1], clip, orientation) == Some(i));
            } else {
                assert(after[i] == before[i]);
                if earlier {
                    let k = choose|k: int|
                        0 <= k < n - 1 && spec_lands(
                            width,
                            height,
                            #[trigger] samples[k],
                            clip,
                            orientation,
                        ) == Some(i);
                    assert(spec_lands(width, height, samples[k], clip, orientation) == Some(i));
                } else {
                    assert forall|k: int| 0 <= k < n implies spec_lands(
                        width,
                        height,
                        #[trigger] samples[k],
                        clip,
                        orientation,
                    ) != Some(i) by {
                        if k < n - 1 {
                            assert(!spec_hit(width, height, samples, n - 1, clip, orientation, i));
                        }
                    }
                }
            }
        }
    }
}

/// A run whose samples cover its whole region at full coverage is painted
/// solid: every cell that shows a point of the region holds the run's
/// colour as the encoding stores it, and every other cell is as it was.
pub proof fn lemma_solid_paint<P: PixelType>(
    pixels: Seq<P>,
    width: u32,
    height: u32,
    rect: RenderRect,
    samples: Seq<GlyphSample>,
    color: Rgb,
    orientation: Orientation,
)
    requires
        pixels.len() == width * height,
        forall|k: int| 0 <= k < samples.len() ==> (#[trigger] samples[k]).coverage == UNIT,
        forall|i: int|
            0 <= i < pixels.len() && spec_shows(width, i, rect, orientation) ==> spec_hit(
                width,
                height,
                samples,
                samples.len() as int,
                rect,
                orientation,
                i,
            ),
    ensures
        spec_paint(pixels, width, height, rect, samples, color, orientation).len() == pixels.len(),
        forall|i: int|
            0 <= i < pixels.len() ==> #[trigger] spec_paint(
                pixels,
                width,
                height,
                rect,
                samples,
                color,
                orientation,
            )[i] == if spec_shows(width, i, rect, orientation) {
                P::spec_encode(color)
            } else {
                pixels[i]
            },
{
    let cleared = spec_clear_rect(pixels, width, rect, orientation);
    let n = samples.len() as int;
    lemma_full_coverage(cleared, width, height, samples, n, color, rect, orientation);
    lemma_draw_stays_inside(cleared, width, height, samples, n, color, rect, orientation);
    let painted = spec_paint(pixels, width, height, rect, samples, color, orientation);
    assert forall|i: int| 0 <= i < pixels.len() implies #[trigger] painted[i] == if spec_shows(
        width,
        i,
        rect,
        orientation,
    ) {
        P::spec_encode(color)
    } else {
        pixels[i]
    } by {
        if spec_shows(width, i, rect, orientation) {
            assert(spec_hit(width, height, samples, n, rect, orientation, i));
        } else {
            assert(cleared[i] == pixels[i]);
            assert(spec_draw_samples(cleared, width, height, samples, n, color, rect, orientation)[i]
                == cleared[i]);
        }
    }
}

/// A white run whose samples cover its whole region at full coverage reads
/// back white at every cell of the region, whatever the encoding and
/// whatever the buffer held.
pub proof fn lemma_solid_white_reads_white<P: PixelType>(
    pixels: Seq<P>,
    width: u32,
    height: u32,
    rect: RenderRect,
    samples: Seq<GlyphSample>,
    orientation: Orientation,
    i: int,
)
    requires
        pixels.len() == width * height,
        forall|k: int| 0 <= k < samples.len() ==> (#[trigger] samples[k]).coverage == UNIT,
        forall|j: int|
            0 <= j < pixels.len() && spec_shows(width, j, rect, orientation) ==> spec_hit(
                width,
                height,
                samples,
                samples.len() as int,
                rect,
                orientation,
                j,
            ),
        0 <= i < pixels.len(),
        spec_shows(width, i, rect, orientation),
    ensures
        spec_paint(pixels, width, height, rect, samples, Rgb::spec_white(), orientation)[i]
            .spec_decode() == Rgb::spec_white(),
{
    lemma_solid_paint(pixels, width, height, rect, samples, Rgb::spec_white(), orientation);
    P::lemma_white();
    assert(spec_paint(pixels, width, height, rect, samples, Rgb::spec_white(), orientation)[i]
        == P::spec_encode(Rgb::spec_white()));
}

/// A run without samples, such as one of an empty text, leaves every cell
/// of its region black, whatever the encoding and whatever the buffer held.
pub proof fn lemma_empty_paint_reads_black<P: PixelType>(
    pixels: Seq<P>,
    width: u32,
    height: u32,
    rect: RenderRect,
    color: Rgb,
    orientation: Orientation,
    i: int,
)
    requires
        pixels.len() == width * height,
        0 <= i < pixels.len(),
        spec_shows(width, i, rect, orientation),
    ensures
        spec_paint(
            pixels,
            width,
            height,
            rect,
            Seq::<GlyphSample>::empty(),
            color,
            orientation,
        )[i].spec_decode() == Rgb::spec_black(),
{
    P::lemma_black();
}

} // verus!
