use vstd::prelude::*;
use crate::buffer::Buffer;
use crate::color::PixelType;
use crate::glyph::Orientation;
use crate::hardware::{Hardware, HwError, HwEvent};

verus! {

/// What the simulator reads of a window event.
#[derive(Debug, Clone, Copy, PartialEq, Eq, Structural)]
pub enum SdlInput {
    /// The window was closed.
    Quit,
    /// The escape key went down.
    Escape,
    /// The up key went down.
    Up,
    /// The down key went down.
    Down,
    /// Anything else.
    Other,
}

/// One point to draw on the simulator's canvas.
#[derive(Debug, Clone, Copy)]
pub struct DrawPoint {
    pub x: i64,
    pub y: i64,
    pub color: [u8; 3],
}

/// A window that stands in for the panel, with the key presses it has seen.
pub struct SdlHardware {
    xres: u32,
    yres: u32,
    inputs: Vec<SdlInput>,
    frame: Vec<DrawPoint>,
}

impl SdlInput {
    /// Whether the input asks the simulator to close.
    pub open spec fn spec_quits(self) -> bool {
        self == SdlInput::Quit || self == SdlInput::Escape
    }
}

/// The scroll events that the first `n` inputs stand for, in order: one
/// step forward for each press of the up key, one step back for each press
/// of the down key.
pub open spec fn spec_scrolls(inputs: Seq<SdlInput>, n: int) -> Seq<HwEvent>
    decreases n,
{
    if n <= 0 {
        Seq::empty()
    } else {
        let before = spec_scrolls(inputs, n - 1);
        match inputs[n - 1] {
            SdlInput::Up => before.push(HwEvent::Scroll(1isize)),
            SdlInput::Down => before.push(HwEvent::Scroll(-1isize)),
            _ => before,
        }
    }
}

/// The canvas point that shows pixel `i` of a buffer `width` cells wide on
/// a display `yres` high: the buffer turned a quarter turn, its rows
/// running down from the right edge.
pub open spec fn spec_point<P: PixelType>(pixels: Seq<P>, width: u32, yres: u32, i: int)
    -> DrawPoint {
    DrawPoint {
        x: (yres - i / width as int) as i64,
        y: (i % width as int) as i64,
        color: <[u8; 3] as PixelType>::spec_encode(pixels[i].spec_decode()),
    }
}

impl SdlHardware {
    /// The key presses seen since the last poll, oldest first.
    pub closed spec fn spec_inputs(&self) -> Seq<SdlInput> {
        self.inputs@
    }

    /// The points of the last frame, in the order in which they are drawn.
    pub closed spec fn spec_frame(&self) -> Seq<DrawPoint> {
        self.frame@
    }

    /// Opens the simulator on a window whose canvas is `output_size.0`
    /// wide and `output_size.1` high. The panel it stands for is turned a
    /// quarter turn, so the two change places.
    pub fn open(output_size: (u32, u32)) -> (hw: SdlHardware)
        ensures
            hw.spec_xres() == output_size.1,
            hw.spec_yres() == output_size.0,
            hw.spec_inputs() == Seq::<SdlInput>::empty(),
            hw.spec_frame() == Seq::<DrawPoint>::empty(),
            hw.spec_pending() == Seq::<HwEvent>::empty(),
            hw.spec_blocked().is_none(),
    {
        SdlHardware {
            xres: output_size.1,
            yres: output_size.0,
            inputs: Vec::new(),
            frame: Vec::new(),
        }
    }

    /// Takes in a window event from the event pump.
    pub fn push_input(&mut self, input: SdlInput)
        ensures
            final(self).spec_inputs() == old(self).spec_inputs().push(input),
            final(self).spec_frame() == old(self).spec_frame(),
            final(self).spec_xres() == old(self).spec_xres(),
            final(self).spec_yres() == old(self).spec_yres(),
    {
        self.inputs.push(input);
    }

    /// The points to draw on the canvas.
    pub fn frame(&self) -> (points: &Vec<DrawPoint>)
        ensures
            points@ == self.spec_frame(),
    {
        &self.frame
    }
}

impl Hardware for SdlHardware {
    closed spec fn spec_xres(&self) -> u32 {
        self.xres
    }

    closed spec fn spec_yres(&self) -> u32 {
        self.yres
    }

    open spec fn spec_max(&self) -> [u8; 3] {
        [0xFFu8, 0xFFu8, 0xFFu8]
    }

    open spec fn spec_pending(&self) -> Seq<HwEvent> {
        spec_scrolls(self.spec_inputs(), self.spec_inputs().len() as int)
    }

    open spec fn spec_blocked(&self) -> Option<HwError> {
        if exists|i: int|
            0 <= i < self.spec_inputs().len() && (#[trigger] self.spec_inputs()[i]).spec_quits() {
            Some(HwError::Quit)
        } else {
            None
        }
    }

    open spec fn spec_orientation(&self) -> Orientation {
        Orientation::Rotated
    }

    open spec fn spec_wf(&self) -> bool {
        true
    }

    fn xres(&self) -> (x: u32) {
        self.xres
    }

    fn yres(&self) -> (y: u32) {
        self.yres
    }

    fn max(&self) -> (m: [u8; 3]) {
        [0xFFu8, 0xFFu8, 0xFFu8]
    }

    /// The simulated panel is mounted as the real one is.
    fn orientation(&self) -> (o: Orientation) {
        Orientation::Rotated
    }

    /// Turns the key presses into scroll events. A request to close wins
    /// over everything else in the batch.
    fn poll_events(&mut self) -> (events: Result<Vec<HwEvent>, HwError>)
        ensures
            final(self).spec_frame() == old(self).spec_frame(),
            events.is_ok() ==> final(self).spec_inputs() == Seq::<SdlInput>::empty(),
            events.is_err() ==> final(self).spec_inputs() == old(self).spec_inputs(),
    {
        let n: usize = self.inputs.len();
        let mut events: Vec<HwEvent> = Vec::new();
        let mut i: usize = 0;
        while i < n
            invariant
                i <= n,
                n == self.inputs@.len(),
                self.inputs@ == old(self).inputs@,
                self.frame@ == old(self).frame@,
                self.xres == old(self).xres,
                self.yres == old(self).yres,
                events@ == spec_scrolls(self.inputs@, i as int),
                forall|j: int| 0 <= j < i ==> !(#[trigger] self.inputs@[j]).spec_quits(),
            decreases n - i,
        {
            match self.inputs[i] {
                SdlInput::Quit | SdlInput::Escape => {
                    assert(self.spec_inputs()[i as int].spec_quits());
                    return Err(HwError::Quit);
                },
                SdlInput::Up => {
                    events.push(HwEvent::Scroll(1));
                },
                SdlInput::Down => {
                    events.push(HwEvent::Scroll(-1));
                },
                SdlInput::Other => {},
            }
            i += 1;
        }
        self.inputs = Vec::new();
        Ok(events)
    }

    /// Lays the buffer out as canvas points, one for each pixel in buffer
    /// order, each with the pixel's colour as three bytes.
    fn flip<P: PixelType>(&mut self, buffer: &Buffer<P>) -> (done: Result<(), HwError>)
        ensures
            final(self).spec_inputs() == old(self).spec_inputs(),
            done.is_err() ==> final(self).spec_frame() == old(self).spec_frame(),
            done.is_ok() ==> final(self).spec_frame().len() == buffer@.len() && forall|i: int|
                0 <= i < buffer@.len() ==> #[trigger] final(self).spec_frame()[i] == spec_point(
                    buffer@,
                    buffer.spec_width(),
                    old(self).spec_yres(),
                    i,
                ),
    {
        if buffer.width() != self.xres || buffer.height() != self.yres {
            return Err(HwError::SizeMismatch);
        }
        let all: Vec<(u32, u32, P)> = buffer.pixels();
        let n: usize = all.len();
        let mut frame: Vec<DrawPoint> = Vec::new();
        let mut k: usize = 0;
        while k < n
            invariant
                k <= n,
                n == all@.len(),
                n == buffer@.len(),
                buffer.spec_width() == self.xres,
                buffer.spec_height() == self.yres,
                frame@.len() == k,
                forall|i: int|
                    0 <= i < all@.len() ==> {
                        &&& (#[trigger] all@[i]).0 == i % buffer.spec_width() as int
                        &&& all@[i].1 == i / buffer.spec_width() as int
                        &&& all@[i].2 == buffer@[i]
                        &&& buffer.spec_in_bounds(all@[i].0 as int, all@[i].1 as int)
                    },
                forall|i: int|
                    0 <= i < k ==> #[trigger] frame@[i] == spec_point(
                        buffer@,
                        buffer.spec_width(),
                        self.yres,
                        i,
                    ),
            decreases n - k,
        {
            let cell: (u32, u32, P) = all[k];
            let mut color: [u8; 3] = [0u8, 0u8, 0u8];
            PixelType::set(&mut color, cell.2.get());
            frame.push(DrawPoint { x: self.yres as i64 - cell.1 as i64, y: cell.0 as i64, color });
            k += 1;
        }
        self.frame = frame;
        Ok(())
    }
}

} // verus!
