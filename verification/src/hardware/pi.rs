use vstd::prelude::*;
use crate::buffer::{lemma_cell_of_index, Buffer};
use crate::color::{lemma_quantize_bound, quantize, spec_quantize, PixelType, Rgb};
use crate::glyph::Orientation;
use crate::hardware::{Hardware, HwError, HwEvent};

verus! {

/// Where one colour channel lies in a native pixel.
#[derive(Debug, Clone, Copy, PartialEq, Eq, Structural)]
pub struct Bitfield {
    pub offset: u32,
    pub length: u32,
}

/// What the backend reads of a framebuffer device's variable screen
/// information.
#[derive(Debug, Clone, Copy, PartialEq, Eq, Structural)]
pub struct ScreenInfo {
    pub xres: u32,
    pub yres: u32,
    pub red: Bitfield,
    pub green: Bitfield,
    pub blue: Bitfield,
}

/// The largest value of a channel that is `length` bits wide.
pub open spec fn spec_channel_max(length: u32) -> u32 {
    ((1u32 << length) - 1) as u32
}

/// The native pixel of a normalised colour: each channel rescaled to the
/// sink's maximum and shifted to its place.
pub open spec fn spec_native(rgb: Rgb, max: [u8; 3], info: ScreenInfo) -> u32 {
    ((spec_quantize(rgb.r, max[0] as u16) as u32) << info.red.offset) | ((spec_quantize(
        rgb.g,
        max[1] as u16,
    ) as u32) << info.green.offset) | ((spec_quantize(rgb.b, max[2] as u16) as u32)
        << info.blue.offset)
}

/// The first byte that a native pixel is sent as: bits 8 to 15.
pub open spec fn spec_high_byte(c: u32) -> u8 {
    ((c & 0xFF00) >> 8) as u8
}

/// The second byte that a native pixel is sent as: bits 0 to 7.
pub open spec fn spec_low_byte(c: u32) -> u8 {
    (c & 0x00FF) as u8
}

impl Bitfield {
    pub open spec fn spec_supported(&self) -> bool {
        self.length <= 8 && self.offset < 32
    }
}

impl ScreenInfo {
    /// The layouts and sizes that the backend can drive: channels of at
    /// most eight bits, and a frame of two bytes a pixel whose length a
    /// `u32` can hold.
    pub open spec fn spec_supported(&self) -> bool {
        &&& self.red.spec_supported()
        &&& self.green.spec_supported()
        &&& self.blue.spec_supported()
        &&& 2 * self.yres * self.xres <= u32::MAX
    }

    pub fn supported(&self) -> (ok: bool)
        ensures
            ok == self.spec_supported(),
    {
        let layout: bool = self.red.length <= 8 && self.red.offset < 32 && self.green.length <= 8
            && self.green.offset < 32 && self.blue.length <= 8 && self.blue.offset < 32;
        proof {
            assert(0 <= self.yres * self.xres <= 0xFFFF_FFFF * 0xFFFF_FFFF) by (nonlinear_arith)
                requires
                    0 <= self.yres <= 0xFFFF_FFFF,
                    0 <= self.xres <= 0xFFFF_FFFF,
            ;
            assert(2 * self.yres * self.xres == 2 * (self.yres * self.xres)) by (nonlinear_arith);
        }
        let area: u64 = self.yres as u64 * self.xres as u64;
        layout && area <= 0x7FFF_FFFF
    }
}

/// A framebuffer display of two bytes a pixel, with its input queue.
pub struct PiHardware {
    vinf: ScreenInfo,
    max: [u8; 3],
    buffer: Vec<u8>,
    events: Vec<HwEvent>,
    poisoned: bool,
}

/// The largest value of a channel that is `length` bits wide.
pub fn channel_max(length: u32) -> (m: u8)
    requires
        length <= 8,
    ensures
        m == spec_channel_max(length),
{
    assert(1 <= (1u32 << length) <= 256) by (bit_vector)
        requires
            length <= 8,
    ;
    ((1u32 << length) - 1) as u8
}

impl PiHardware {
    /// The frame as it is sent to the device: two bytes a pixel, row by row.
    pub closed spec fn spec_frame(&self) -> Seq<u8> {
        self.buffer@
    }

    pub closed spec fn spec_info(&self) -> ScreenInfo {
        self.vinf
    }

    pub closed spec fn spec_poisoned(&self) -> bool {
        self.poisoned
    }

    pub closed spec fn wf(&self) -> bool {
        &&& self.vinf.spec_supported()
        &&& self.buffer@.len() == 2 * self.vinf.yres * self.vinf.xres
        &&& self.max@ == seq![
            spec_channel_max(self.vinf.red.length) as u8,
            spec_channel_max(self.vinf.green.length) as u8,
            spec_channel_max(self.vinf.blue.length) as u8,
        ]
    }

    /// What a display is right after it was opened on `info`: a frame of
    /// zeros, no event, each channel's maximum as wide as its bit field.
    pub open spec fn spec_opened(&self, info: ScreenInfo) -> bool {
        &&& self.wf()
        &&& self.spec_info() == info
        &&& self.spec_xres() == info.xres
        &&& self.spec_yres() == info.yres
        &&& self.spec_max()@ == seq![
            spec_channel_max(info.red.length) as u8,
            spec_channel_max(info.green.length) as u8,
            spec_channel_max(info.blue.length) as u8,
        ]
        &&& self.spec_frame() == Seq::new((2 * info.yres * info.xres) as nat, |i: int| 0u8)
        &&& self.spec_pending() == Seq::<HwEvent>::empty()
        &&& !self.spec_poisoned()
    }

    /// Opens the display described by `info`.
    pub fn open(info: ScreenInfo) -> (hw: PiHardware)
        requires
            info.spec_supported(),
        ensures
            hw.spec_opened(info),
    {
        let max: [u8; 3] = [
            channel_max(info.red.length),
            channel_max(info.green.length),
            channel_max(info.blue.length),
        ];
        proof {
            assert(2 * info.yres * info.xres == 2 * (info.yres * info.xres)) by (nonlinear_arith);
            assert(0 <= info.yres * info.xres) by (nonlinear_arith);
        }
        let n: u32 = 2 * (info.yres * info.xres);
        let mut buffer: Vec<u8> = Vec::new();
        let mut i: u32 = 0;
        while i < n
            invariant
                i <= n,
                buffer@.len() == i,
                forall|j: int| 0 <= j < i ==> buffer@[j] == 0u8,
            decreases n - i,
        {
            buffer.push(0);
            i += 1;
        }
        assert(buffer@ =~= Seq::new((2 * info.yres * info.xres) as nat, |i: int| 0u8));
        PiHardware { vinf: info, max, buffer, events: Vec::new(), poisoned: false }
    }

    /// The frame to send to the device.
    pub fn frame(&self) -> (bytes: &Vec<u8>)
        ensures
            bytes@ == self.spec_frame(),
    {
        &self.buffer
    }

    /// Takes in an event from the input collaborator.
    pub fn push_event(&mut self, event: HwEvent)
        ensures
            final(self).wf() == old(self).wf(),
            final(self).spec_info() == old(self).spec_info(),
            final(self).spec_frame() == old(self).spec_frame(),
            final(self).spec_poisoned() == old(self).spec_poisoned(),
            final(self).spec_xres() == old(self).spec_xres(),
            final(self).spec_yres() == old(self).spec_yres(),
            final(self).spec_max() == old(self).spec_max(),
            final(self).spec_pending() == old(self).spec_pending().push(event),
    {
        self.events.push(event);
    }

    /// Records that the lock round the event queue was found poisoned.
    pub fn poison(&mut self)
        ensures
            final(self).wf() == old(self).wf(),
            final(self).spec_info() == old(self).spec_info(),
            final(self).spec_frame() == old(self).spec_frame(),
            final(self).spec_poisoned(),
            final(self).spec_xres() == old(self).spec_xres(),
            final(self).spec_yres() == old(self).spec_yres(),
            final(self).spec_max() == old(self).spec_max(),
            final(self).spec_pending() == old(self).spec_pending(),
    {
        self.poisoned = true;
    }

    /// Writes the native form of `rgb` into the frame at cell `(x, y)`.
    pub fn set_pixel(&mut self, x: u32, y: u32, rgb: Rgb)
        requires
            old(self).wf(),
            x < old(self).spec_xres(),
            y < old(self).spec_yres(),
        ensures
            final(self).wf(),
            final(self).spec_info() == old(self).spec_info(),
            final(self).spec_poisoned() == old(self).spec_poisoned(),
            final(self).spec_xres() == old(self).spec_xres(),
            final(self).spec_yres() == old(self).spec_yres(),
            final(self).spec_max() == old(self).spec_max(),
            final(self).spec_pending() == old(self).spec_pending(),
            final(self).spec_frame() == old(self).spec_frame().update(
                2 * (y * old(self).spec_xres() + x),
                spec_high_byte(spec_native(rgb, old(self).spec_max(), old(self).spec_info())),
            ).update(
                2 * (y * old(self).spec_xres() + x) + 1,
                spec_low_byte(spec_native(rgb, old(self).spec_max(), old(self).spec_info())),
            ),
    {
        let r: u32 = quantize(rgb.r, self.max[0] as u16) as u32;
        let g: u32 = quantize(rgb.g, self.max[1] as u16) as u32;
        let b: u32 = quantize(rgb.b, self.max[2] as u16) as u32;
        let c: u32 = (r << self.vinf.red.offset) | (g << self.vinf.green.offset) | (b
            << self.vinf.blue.offset);
        let fst: u32 = (c & 0xFF00) >> 8;
        let snd: u32 = c & 0x00FF;
        assert(fst <= 0xFF && snd <= 0xFF) by (bit_vector)
            requires
                fst == (c & 0xFF00) >> 8,
                snd == c & 0x00FF,
        ;
        proof {
            crate::buffer::lemma_index_cell(self.vinf.xres, self.vinf.yres, x as int, y as int);
            assert(self.vinf.xres * self.vinf.yres == self.vinf.yres * self.vinf.xres)
                by (nonlinear_arith);
            assert(2 * self.vinf.yres * self.vinf.xres == 2 * (self.vinf.yres * self.vinf.xres))
                by (nonlinear_arith);
            assert(0 <= y * self.vinf.xres <= y * self.vinf.xres + x);
        }
        let pos: usize = 2 * (y as usize * self.vinf.xres as usize + x as usize);
        self.buffer[pos] = fst as u8;
        self.buffer[pos + 1] = snd as u8;
    }
}

impl Hardware for PiHardware {
    closed spec fn spec_xres(&self) -> u32 {
        self.vinf.xres
    }

    closed spec fn spec_yres(&self) -> u32 {
        self.vinf.yres
    }

    closed spec fn spec_max(&self) -> [u8; 3] {
        self.max
    }

    closed spec fn spec_pending(&self) -> Seq<HwEvent> {
        self.events@
    }

    open spec fn spec_blocked(&self) -> Option<HwError> {
        if self.spec_poisoned() {
            Some(HwError::PoisonedLock)
        } else {
            None
        }
    }

    open spec fn spec_orientation(&self) -> Orientation {
        Orientation::Rotated
    }

    open spec fn spec_wf(&self) -> bool {
        self.wf()
    }

    fn xres(&self) -> (x: u32) {
        self.vinf.xres
    }

    fn yres(&self) -> (y: u32) {
        self.vinf.yres
    }

    fn max(&self) -> (m: [u8; 3]) {
        self.max
    }

    /// The panel is mounted a quarter turn round.
    fn orientation(&self) -> (o: Orientation) {
        Orientation::Rotated
    }

    fn poll_events(&mut self) -> (events: Result<Vec<HwEvent>, HwError>)
        ensures
            final(self).spec_info() == old(self).spec_info(),
            final(self).spec_frame() == old(self).spec_frame(),
            final(self).spec_poisoned() == old(self).spec_poisoned(),
            events.is_err() ==> final(self).spec_pending() == old(self).spec_pending(),
    {
        if self.poisoned {
            return Err(HwError::PoisonedLock);
        }
        let mut fresh_events: Vec<HwEvent> = Vec::new();
        std::mem::swap(&mut self.events, &mut fresh_events);
        Ok(fresh_events)
    }

    /// Fills the frame with the native form of every pixel of `buffer`:
    /// pixel `i` of the buffer becomes bytes `2 * i` and `2 * i + 1`.
    fn flip<P: PixelType>(&mut self, buffer: &Buffer<P>) -> (done: Result<(), HwError>)
        ensures
            final(self).spec_info() == old(self).spec_info(),
            final(self).spec_poisoned() == old(self).spec_poisoned(),
            done.is_err() ==> final(self).spec_frame() == old(self).spec_frame(),
            done.is_ok() ==> final(self).spec_frame().len() == 2 * buffer@.len() && forall|i: int|
                0 <= i < buffer@.len() ==> {
                    &&& #[trigger] final(self).spec_frame()[2 * i] == spec_high_byte(
                        spec_native(
                            buffer@[i].spec_decode(),
                            old(self).spec_max(),
                            old(self).spec_info(),
                        ),
                    )
                    &&& final(self).spec_frame()[2 * i + 1] == spec_low_byte(
                        spec_native(
                            buffer@[i].spec_decode(),
                            old(self).spec_max(),
                            old(self).spec_info(),
                        ),
                    )
                },
    {
        if buffer.width() != self.vinf.xres || buffer.height() != self.vinf.yres {
            return Err(HwError::SizeMismatch);
        }
        let all: Vec<(u32, u32, P)> = buffer.pixels();
        let n: usize = all.len();
        proof {
            buffer.lemma_len();
            assert(self.vinf.xres * self.vinf.yres == self.vinf.yres * self.vinf.xres)
                by (nonlinear_arith);
            assert(2 * self.vinf.yres * self.vinf.xres == 2 * (self.vinf.yres * self.vinf.xres))
                by (nonlinear_arith);
        }
        let mut k: usize = 0;
        while k < n
            invariant
                k <= n,
                n == all@.len(),
                n == buffer@.len(),
                n == self.vinf.xres * self.vinf.yres,
                buffer.wf(),
                buffer.spec_width() == self.vinf.xres,
                buffer.spec_height() == self.vinf.yres,
                self.wf(),
                self.vinf == old(self).vinf,
                self.max == old(self).max,
                self.events@ == old(self).events@,
                self.poisoned == old(self).poisoned,
                self.buffer@.len() == 2 * n,
                forall|i: int|
                    0 <= i < all@.len() ==> {
                        &&& (#[trigger] all@[i]).0 == i % buffer.spec_width() as int
                        &&& all@[i].1 == i / buffer.spec_width() as int
                        &&& all@[i].2 == buffer@[i]
                        &&& buffer.spec_in_bounds(all@[i].0 as int, all@[i].1 as int)
                    },
                forall|i: int|
                    0 <= i < k ==> {
                        &&& #[trigger] self.buffer@[2 * i] == spec_high_byte(
                            spec_native(buffer@[i].spec_decode(), self.max, self.vinf),
                        )
                        &&& self.buffer@[2 * i + 1] == spec_low_byte(
                            spec_native(buffer@[i].spec_decode(), self.max, self.vinf),
                        )
                    },
            decreases n - k,
        {
            let cell: (u32, u32, P) = all[k];
            proof {
                lemma_cell_of_index(self.vinf.xres, self.vinf.yres, k as int);
                assert(all@[k as int].0 == k as int % buffer.spec_width() as int);
            }
            self.set_pixel(cell.0, cell.1, cell.2.get());
            k += 1;
        }
        Ok(())
    }
}

} // verus!
