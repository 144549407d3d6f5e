use vstd::prelude::*;
use crate::buffer::lemma_index_cell;
use crate::hardware::pi::{
    channel_max, spec_channel_max, spec_high_byte, spec_low_byte, ScreenInfo,
};
use crate::screen::Screen;

verus! {

/// A framebuffer device of two bytes a pixel that is drawn on directly.
pub struct FramebufferScreen {
    vinf: ScreenInfo,
    max: [u8; 3],
    buffer: Vec<u8>,
}

/// The native pixel of a colour at the sink's depth: each channel masked
/// with the sink's maximum and shifted to its place.
pub open spec fn spec_masked(rgb: [u8; 3], max: [u8; 3], info: ScreenInfo) -> u32 {
    (((rgb[0] & max[0]) as u32) << info.red.offset) | (((rgb[1] & max[1]) as u32)
        << info.green.offset) | (((rgb[2] & max[2]) as u32) << info.blue.offset)
}

impl FramebufferScreen {
    pub closed spec fn spec_info(&self) -> ScreenInfo {
        self.vinf
    }

    pub closed spec fn wf(&self) -> bool {
        &&& self.vinf.spec_supported()
        &&& self.buffer@.len() == 2 * self.vinf.yres * self.vinf.xres
    }

    /// What a screen is right after it was opened on `info`: a frame of
    /// zeros, each channel's maximum as wide as its bit field.
    pub open spec fn spec_opened(&self, info: ScreenInfo) -> bool {
        &&& self.wf()
        &&& self.spec_info() == info
        &&& self.spec_xres() == info.xres
        &&& self.spec_yres() == info.yres
        &&& self.spec_max()@ == seq![
            spec_channel_max(info.red.length) as u8,
            spec_channel_max(info.green.length) as u8,
            spec_channel_max(info.blue.length) as u8,
        ]
        &&& self.spec_frame() == Seq::new((2 * info.yres * info.xres) as nat, |i: int| 0u8)
    }

    /// Opens the screen described by `info`.
    pub fn open(info: ScreenInfo) -> (screen: FramebufferScreen)
        requires
            info.spec_supported(),
        ensures
            screen.spec_opened(info),
    {
        let max: [u8; 3] = [
            channel_max(info.red.length),
            channel_max(info.green.length),
            channel_max(info.blue.length),
        ];
        proof {
            assert(2 * info.yres * info.xres == 2 * (info.yres * info.xres)) by (nonlinear_arith);
            assert(0 <= info.yres * info.xres) by (nonlinear_arith);
        }
        let n: u32 = 2 * (info.yres * info.xres);
        let buffer: Vec<u8> = zeros(n as usize);
        FramebufferScreen { vinf: info, max, buffer }
    }
}

/// A vector of `n` zero bytes.
pub fn zeros(n: usize) -> (bytes: Vec<u8>)
    ensures
        bytes@ == Seq::new(n as nat, |i: int| 0u8),
{
    let mut bytes: Vec<u8> = Vec::new();
    let mut i: usize = 0;
    while i < n
        invariant
            i <= n,
            bytes@.len() == i,
            forall|j: int| 0 <= j < i ==> bytes@[j] == 0u8,
        decreases n - i,
    {
        bytes.push(0);
        i += 1;
    }
    assert(bytes@ =~= Seq::new(n as nat, |i: int| 0u8));
    bytes
}

impl Screen for FramebufferScreen {
    closed spec fn spec_xres(&self) -> u32 {
        self.vinf.xres
    }

    closed spec fn spec_yres(&self) -> u32 {
        self.vinf.yres
    }

    closed spec fn spec_max(&self) -> [u8; 3] {
        self.max
    }

    closed spec fn spec_frame(&self) -> Seq<u8> {
        self.buffer@
    }

    /// Cell `(x, y)` is bytes `2 * (y * xres + x)` and the next: bits 8 to
    /// 15 of the native pixel, then bits 0 to 7.
    open spec fn spec_frame_with(&self, frame: Seq<u8>, x: u32, y: u32, rgb: [u8; 3]) -> Seq<u8> {
        if x < self.spec_xres() && y < self.spec_yres() {
            frame.update(
                2 * (y * self.spec_xres() + x),
                spec_high_byte(spec_masked(rgb, self.spec_max(), self.spec_info())),
            ).update(
                2 * (y * self.spec_xres() + x) + 1,
                spec_low_byte(spec_masked(rgb, self.spec_max(), self.spec_info())),
            )
        } else {
            frame
        }
    }

    open spec fn spec_wf(&self) -> bool {
        self.wf()
    }

    open spec fn spec_same_display(&self, other: &Self) -> bool {
        &&& self.spec_info() == other.spec_info()
        &&& self.spec_xres() == other.spec_xres()
        &&& self.spec_yres() == other.spec_yres()
        &&& self.spec_max() == other.spec_max()
    }

    proof fn lemma_frame_with(&self, other: &Self, frame: Seq<u8>, x: u32, y: u32, rgb: [u8; 3]) {
    }

    proof fn lemma_same_display(&self, middle: &Self, other: &Self) {
    }

    fn xres(&self) -> (x: u32) {
        self.vinf.xres
    }

    fn yres(&self) -> (y: u32) {
        self.vinf.yres
    }

    fn max(&self) -> (m: [u8; 3]) {
        self.max
    }

    fn set_pixel(&mut self, x: u32, y: u32, rgb: [u8; 3]) {
        if x >= self.vinf.xres || y >= self.vinf.yres {
            return ;
        }
        let r: u32 = (rgb[0] & self.max[0]) as u32;
        let g: u32 = (rgb[1] & self.max[1]) as u32;
        let b: u32 = (rgb[2] & self.max[2]) as u32;
        let c: u32 = (r << self.vinf.red.offset) | (g << self.vinf.green.offset) | (b
            << self.vinf.blue.offset);
        let fst: u32 = (c & 0xFF00) >> 8;
        let snd: u32 = c & 0x00FF;
        assert(fst <= 0xFF && snd <= 0xFF) by (bit_vector)
            requires
                fst == (c & 0xFF00) >> 8,
                snd == c & 0x00FF,
        ;
        proof {
            lemma_index_cell(self.vinf.xres, self.vinf.yres, x as int, y as int);
            assert(self.vinf.xres * self.vinf.yres == self.vinf.yres * self.vinf.xres)
                by (nonlinear_arith);
            assert(2 * self.vinf.yres * self.vinf.xres == 2 * (self.vinf.yres * self.vinf.xres))
                by (nonlinear_arith);
            assert(0 <= y * self.vinf.xres <= y * self.vinf.xres + x);
        }
        let pos: usize = 2 * (y as usize * self.vinf.xres as usize + x as usize);
        self.buffer[pos] = fst as u8;
        self.buffer[pos + 1] = snd as u8;
    }

    fn flip(&mut self) -> (frame: Vec<u8>) {
        let mut frame: Vec<u8> = zeros(self.buffer.len());
        std::mem::swap(&mut self.buffer, &mut frame);
        frame
    }
}

} // verus!
