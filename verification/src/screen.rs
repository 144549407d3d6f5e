use vstd::prelude::*;
use crate::color::{quantize, spec_quantize};
use crate::glyph::GlyphSample;
use crate::hardware::pi::ScreenInfo;
use crate::hardware::HwError;
use crate::screen::fb::FramebufferScreen;

pub mod fb;

verus! {

/// One write of a native-depth colour to a cell of a screen.
#[derive(Debug, Clone, Copy)]
pub struct PixelWrite {
    pub x: u32,
    pub y: u32,
    pub rgb: [u8; 3],
}

/// The write that one coverage sample makes on a screen that draws text
/// straight to the sink: the sample's coverage rescaled to each channel's
/// maximum, at the sample's place. A sample whose own coordinate lies
/// beyond the resolution, or that lands off the screen, makes none.
pub open spec fn spec_text_write(s: GlyphSample, xres: u32, yres: u32, max: [u8; 3]) -> Option<
    PixelWrite,
> {
    let x = s.x + s.min_x;
    let y = s.y + s.min_y;
    if s.x <= xres && s.y <= yres && 0 <= x < xres && 0 <= y < yres {
        Some(
            PixelWrite {
                x: x as u32,
                y: y as u32,
                rgb: [
                    spec_quantize(s.coverage, max[0] as u16) as u8,
                    spec_quantize(s.coverage, max[1] as u16) as u8,
                    spec_quantize(s.coverage, max[2] as u16) as u8,
                ],
            },
        )
    } else {
        None
    }
}

/// The writes that the first `n` samples make, in order.
pub open spec fn spec_text_writes(
    samples: Seq<GlyphSample>,
    n: int,
    xres: u32,
    yres: u32,
    max: [u8; 3],
) -> Seq<PixelWrite>
    decreases n,
{
    if n <= 0 {
        Seq::empty()
    } else {
        let before = spec_text_writes(samples, n - 1, xres, yres, max);
        match spec_text_write(samples[n - 1], xres, yres, max) {
            Some(w) => before.push(w),
            None => before,
        }
    }
}

/// Computes the write of one sample.
pub fn text_write(s: &GlyphSample, xres: u32, yres: u32, max: [u8; 3]) -> (w: Option<PixelWrite>)
    ensures
        w == spec_text_write(*s, xres, yres, max),
{
    let x: i64 = s.x as i64 + s.min_x as i64;
    let y: i64 = s.y as i64 + s.min_y as i64;
    if s.x <= xres && s.y <= yres && 0 <= x && x < xres as i64 && 0 <= y && y < yres as i64 {
        let r: u8 = quantize(s.coverage, max[0] as u16) as u8;
        let g: u8 = quantize(s.coverage, max[1] as u16) as u8;
        let b: u8 = quantize(s.coverage, max[2] as u16) as u8;
        let w = PixelWrite { x: x as u32, y: y as u32, rgb: [r, g, b] };
        proof {
            let v = spec_text_write(*s, xres, yres, max)->Some_0;
            assert(w.rgb@ =~= v.rgb@);
        }
        Some(w)
    } else {
        None
    }
}

/// Computes the writes of a whole text, in the order of its samples.
pub fn text_writes(samples: &Vec<GlyphSample>, xres: u32, yres: u32, max: [u8; 3]) -> (writes: Vec<
    PixelWrite,
>)
    ensures
        writes@ == spec_text_writes(samples@, samples@.len() as int, xres, yres, max),
{
    let n: usize = samples.len();
    let mut writes: Vec<PixelWrite> = Vec::new();
    let mut k: usize = 0;
    while k < n
        invariant
            k <= n,
            n == samples@.len(),
            writes@ == spec_text_writes(samples@, k as int, xres, yres, max),
        decreases n - k,
    {
        match text_write(&samples[k], xres, yres, max) {
            Some(w) => {
                writes.push(w);
            },
            None => {},
        }
        k += 1;
    }
    writes
}

/// A sink that is drawn on pixel by pixel at its native depth.
pub trait Screen {
    spec fn spec_xres(&self) -> u32;

    spec fn spec_yres(&self) -> u32;

    /// The sink's largest value of each channel.
    spec fn spec_max(&self) -> [u8; 3];

    /// The frame being composed, as it will be sent.
    spec fn spec_frame(&self) -> Seq<u8>;

    /// The frame after `rgb` is written to cell `(x, y)`.
    spec fn spec_frame_with(&self, frame: Seq<u8>, x: u32, y: u32, rgb: [u8; 3]) -> Seq<u8>;

    /// Whether the screen's own state is consistent.
    spec fn spec_wf(&self) -> bool;

    /// Writing a pixel depends on the display's fixed properties only.
    proof fn lemma_frame_with(&self, other: &Self, frame: Seq<u8>, x: u32, y: u32, rgb: [u8; 3])
        requires
            self.spec_same_display(other),
        ensures
            self.spec_frame_with(frame, x, y, rgb) == other.spec_frame_with(frame, x, y, rgb),
    ;

    /// Whether two states are states of one display.
    spec fn spec_same_display(&self, other: &Self) -> bool;

    /// Every state is a state of its own display, and being states of one
    /// display carries over.
    proof fn lemma_same_display(&self, middle: &Self, other: &Self)
        ensures
            self.spec_same_display(self),
            self.spec_same_display(middle) && middle.spec_same_display(other)
                ==> self.spec_same_display(other),
    ;

    fn xres(&self) -> (x: u32)
        ensures
            x == self.spec_xres(),
    ;

    fn yres(&self) -> (y: u32)
        ensures
            y == self.spec_yres(),
    ;

    fn max(&self) -> (m: [u8; 3])
        ensures
            m == self.spec_max(),
    ;

    /// Writes `rgb` to cell `(x, y)`; does nothing off the screen.
    fn set_pixel(&mut self, x: u32, y: u32, rgb: [u8; 3])
        requires
            old(self).spec_wf(),
        ensures
            final(self).spec_wf(),
            old(self).spec_same_display(final(self)),
            final(self).spec_xres() == old(self).spec_xres(),
            final(self).spec_yres() == old(self).spec_yres(),
            final(self).spec_max() == old(self).spec_max(),
            final(self).spec_frame() == old(self).spec_frame_with(old(self).spec_frame(), x, y, rgb),
    ;

    /// Hands out the composed frame and starts the next one from black.
    fn flip(&mut self) -> (frame: Vec<u8>)
        requires
            old(self).spec_wf(),
        ensures
            final(self).spec_wf(),
            old(self).spec_same_display(final(self)),
            final(self).spec_xres() == old(self).spec_xres(),
            final(self).spec_yres() == old(self).spec_yres(),
            final(self).spec_max() == old(self).spec_max(),
            frame@ == old(self).spec_frame(),
            final(self).spec_frame() == Seq::new(old(self).spec_frame().len(), |i: int| 0u8),
    ;
}

/// The frame of `screen` after the first `n` of `writes` are made, in order.
pub open spec fn spec_frame_after<S: Screen>(screen: &S, writes: Seq<PixelWrite>, n: int) -> Seq<u8>
    decreases n,
{
    if n <= 0 {
        screen.spec_frame()
    } else {
        let w = writes[n - 1];
        screen.spec_frame_with(spec_frame_after(screen, writes, n - 1), w.x, w.y, w.rgb)
    }
}

/// Draws rasterised text straight onto a screen: every sample becomes at
/// most one pixel write, made in the order of the samples.
pub fn draw_text<S: Screen>(screen: &mut S, samples: &Vec<GlyphSample>)
    requires
        old(screen).spec_wf(),
    ensures
        final(screen).spec_wf(),
        old(screen).spec_same_display(final(screen)),
        final(screen).spec_xres() == old(screen).spec_xres(),
        final(screen).spec_yres() == old(screen).spec_yres(),
        final(screen).spec_max() == old(screen).spec_max(),
        ({
            let writes = spec_text_writes(
                samples@,
                samples@.len() as int,
                old(screen).spec_xres(),
                old(screen).spec_yres(),
                old(screen).spec_max(),
            );
            final(screen).spec_frame() == spec_frame_after(old(screen), writes, writes.len() as int)
        }),
{
    let writes: Vec<PixelWrite> = text_writes(samples, screen.xres(), screen.yres(), screen.max());
    let n: usize = writes.len();
    let mut k: usize = 0;
    proof {
        screen.lemma_same_display(screen, screen);
    }
    while k < n
        invariant
            k <= n,
            n == writes@.len(),
            screen.spec_wf(),
            old(screen).spec_same_display(screen),
            screen.spec_xres() == old(screen).spec_xres(),
            screen.spec_yres() == old(screen).spec_yres(),
            screen.spec_max() == old(screen).spec_max(),
            screen.spec_frame() == spec_frame_after(old(screen), writes@, k as int),
        decreases n - k,
    {
        let ghost start = *screen;
        let w: PixelWrite = writes[k];
        screen.set_pixel(w.x, w.y, w.rgb);
        proof {
            old(screen).lemma_frame_with(&start, start.spec_frame(), w.x, w.y, w.rgb);
            old(screen).lemma_same_display(&start, screen);
        }
        k += 1;
    }
}

/// Opens the framebuffer screen described by `info`, or refuses a device
/// that it cannot drive.
pub fn create_screen(info: ScreenInfo) -> (screen: Result<FramebufferScreen, HwError>)
    ensures
        info.spec_supported() ==> screen.is_ok() && screen->Ok_0.spec_opened(info),
        !info.spec_supported() ==> screen == Err::<FramebufferScreen, HwError>(HwError::Unsupported),
{
    if info.supported() {
        Ok(FramebufferScreen::open(info))
    } else {
        Err(HwError::Unsupported)
    }
}

} // verus!
