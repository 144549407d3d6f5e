use vstd::prelude::*;
use crate::hardware::HwEvent;

verus! {

/// How many polls lie between two changes of the status lights.
pub const LIGHT_PERIOD: u64 = 50;

/// What is remembered of a rotary encoder between two polls: the level
/// last seen on each of its two pins, and the steps counted since the last
/// poll, forward steps positive.
#[derive(Debug, Clone, Copy, PartialEq, Eq, Structural)]
pub struct GpioState {
    pub pin1: bool,
    pub pin2: bool,
    pub counter: i32,
}

impl GpioState {
    /// The state after an edge on pin `pin_no`, with the two pins read as
    /// `val1` and `val2`. An edge that changes neither level is noise.
    /// One that leaves both pins high is a step: forward when it came on
    /// the second pin, back otherwise. The count stops at the ends of its
    /// range.
    pub open spec fn spec_on_edge(self, pin_no: u8, val1: bool, val2: bool) -> GpioState {
        if val1 == self.pin1 && val2 == self.pin2 {
            self
        } else if val1 && val2 {
            GpioState {
                pin1: val1,
                pin2: val2,
                counter: if pin_no == 2 {
                    if self.counter < i32::MAX {
                        (self.counter + 1) as i32
                    } else {
                        self.counter
                    }
                } else {
                    if self.counter > i32::MIN {
                        (self.counter - 1) as i32
                    } else {
                        self.counter
                    }
                },
            }
        } else {
            GpioState { pin1: val1, pin2: val2, counter: self.counter }
        }
    }

    /// The event that a poll hands on: one step in the direction of the
    /// count, or none when the count is zero.
    pub open spec fn spec_event(self) -> Option<HwEvent> {
        if self.counter > 0 {
            Some(HwEvent::Scroll(1isize))
        } else if self.counter < 0 {
            Some(HwEvent::Scroll(-1isize))
        } else {
            None
        }
    }

    /// Both pins low, nothing counted.
    pub fn new() -> (state: GpioState)
        ensures
            state == (GpioState { pin1: false, pin2: false, counter: 0 }),
    {
        GpioState { pin1: false, pin2: false, counter: 0 }
    }

    /// Takes in one edge.
    pub fn on_edge(&mut self, pin_no: u8, val1: bool, val2: bool)
        ensures
            *final(self) == old(self).spec_on_edge(pin_no, val1, val2),
    {
        if val1 == self.pin1 && val2 == self.pin2 {
            return ;
        }
        self.pin1 = val1;
        self.pin2 = val2;
        if val1 && val2 {
            if pin_no == 2 {
                if self.counter < i32::MAX {
                    self.counter += 1;
                }
            } else {
                if self.counter > i32::MIN {
                    self.counter -= 1;
                }
            }
        }
    }

    /// Takes the count out and says which event it stands for.
    pub fn poll(&mut self) -> (event: Option<HwEvent>)
        ensures
            event == old(self).spec_event(),
            *final(self) == (GpioState { counter: 0, ..*old(self) }),
    {
        let update: i32 = self.counter;
        self.counter = 0;
        if update > 0 {
            Some(HwEvent::Scroll(1))
        } else if update < 0 {
            Some(HwEvent::Scroll(-1))
        } else {
            None
        }
    }
}

/// Whether the status lights change on poll number `tick`.
pub fn lights_change(tick: u64) -> (change: bool)
    ensures
        change == (tick % LIGHT_PERIOD == 0),
{
    tick % LIGHT_PERIOD == 0
}

} // verus!
