use vstd::prelude::*;
use crate::buffer::Buffer;
use crate::color::PixelType;
use crate::glyph::Orientation;
use crate::hardware::pi::{PiHardware, ScreenInfo};

pub mod gpio;
pub mod pi;
pub mod sdl;

verus! {

/// A discrete input event.
#[derive(Debug, Clone, Copy, PartialEq, Eq, Structural)]
pub enum HwEvent {
    Scroll(isize),
}

/// Why a display backend refused an operation.
#[derive(Debug, Clone, Copy, PartialEq, Eq, Structural)]
pub enum HwError {
    /// The device's pixel layout or size is one the backend cannot drive.
    Unsupported,
    /// The buffer handed to `flip` is not of the display's resolution.
    SizeMismatch,
    /// The lock round the event queue was poisoned.
    PoisonedLock,
    /// The user asked the simulator to close.
    Quit,
}

impl HwError {
    /// A short description for the process boundary.
    pub fn message(&self) -> (text: String)
        ensures
            text@ == self.spec_message(),
    {
        match self {
            HwError::Unsupported => "Unsupported Device".to_string(),
            HwError::SizeMismatch => "Size Mismatch".to_string(),
            HwError::PoisonedLock => "Poisoned Lock".to_string(),
            HwError::Quit => "Quit".to_string(),
        }
    }

    pub open spec fn spec_message(&self) -> Seq<char> {
        match self {
            HwError::Unsupported => "Unsupported Device"@,
            HwError::SizeMismatch => "Size Mismatch"@,
            HwError::PoisonedLock => "Poisoned Lock"@,
            HwError::Quit => "Quit"@,
        }
    }
}

/// A display backend: a sink for whole frames and a source of input events.
pub trait Hardware {
    spec fn spec_xres(&self) -> u32;

    spec fn spec_yres(&self) -> u32;

    /// The sink's largest value of each channel.
    spec fn spec_max(&self) -> [u8; 3];

    /// How the panel is mounted.
    spec fn spec_orientation(&self) -> Orientation;

    /// The events that have accumulated since the last poll, oldest first.
    spec fn spec_pending(&self) -> Seq<HwEvent>;

    /// Whether a poll fails instead of handing out events.
    spec fn spec_blocked(&self) -> Option<HwError>;

    /// Whether the backend's own state is consistent.
    spec fn spec_wf(&self) -> bool;

    fn xres(&self) -> (x: u32)
        ensures
            x == self.spec_xres(),
    ;

    fn yres(&self) -> (y: u32)
        ensures
            y == self.spec_yres(),
    ;

    fn max(&self) -> (m: [u8; 3])
        ensures
            m == self.spec_max(),
    ;

    /// How layout space lies on the buffer that this display shows.
    fn orientation(&self) -> (o: Orientation)
        ensures
            o == self.spec_orientation(),
    ;

    /// Hands out the accumulated events in the order in which they came
    /// and leaves none behind; never waits for more.
    fn poll_events(&mut self) -> (events: Result<Vec<HwEvent>, HwError>)
        requires
            old(self).spec_wf(),
        ensures
            final(self).spec_wf(),
            final(self).spec_xres() == old(self).spec_xres(),
            final(self).spec_yres() == old(self).spec_yres(),
            final(self).spec_max() == old(self).spec_max(),
            match old(self).spec_blocked() {
                Some(e) => events == Err::<Vec<HwEvent>, HwError>(e),
                None => events.is_ok() && events->Ok_0@ == old(self).spec_pending()
                    && final(self).spec_pending() == Seq::<HwEvent>::empty(),
            },
    ;

    /// Pushes the whole buffer to the sink. A buffer of another size than
    /// the display's resolution is refused.
    fn flip<P: PixelType>(&mut self, buffer: &Buffer<P>) -> (done: Result<(), HwError>)
        requires
            old(self).spec_wf(),
            buffer.wf(),
        ensures
            final(self).spec_wf(),
            final(self).spec_xres() == old(self).spec_xres(),
            final(self).spec_yres() == old(self).spec_yres(),
            final(self).spec_max() == old(self).spec_max(),
            final(self).spec_pending() == old(self).spec_pending(),
            done.is_ok() <==> (buffer.spec_width() == old(self).spec_xres() && buffer.spec_height()
                == old(self).spec_yres()),
            done.is_err() ==> done == Err::<(), HwError>(HwError::SizeMismatch),
    ;
}

/// Opens the framebuffer display described by `info`, or refuses a device
/// that the backend cannot drive.
pub fn create_hardware(info: ScreenInfo) -> (hw: Result<PiHardware, HwError>)
    ensures
        info.spec_supported() ==> hw.is_ok() && hw->Ok_0.spec_opened(info),
        !info.spec_supported() ==> hw == Err::<PiHardware, HwError>(HwError::Unsupported),
{
    if info.supported() {
        Ok(PiHardware::open(info))
    } else {
        Err(HwError::Unsupported)
    }
}

} // verus!
