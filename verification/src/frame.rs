use vstd::prelude::*;
use crate::gadget::ScrollGadget;
use crate::hardware::HwEvent;

verus! {

/// The height of the strip above the list, in pixels.
pub const TOP_MARGIN: u32 = 40;

/// The height of one line of the list, in pixels.
pub const LINE_HEIGHT: u32 = 32;

/// How long an idle frame sleeps, in milliseconds: a sixtieth of a second.
pub const IDLE_MILLIS: u64 = 16;

/// What the frame loop does next.
#[derive(Debug, Clone, Copy, PartialEq, Eq, Structural)]
pub enum FrameAction {
    /// Render the tree and flip the buffer.
    Render,
    /// Nothing changed: sleep for so many milliseconds.
    Sleep(u64),
}

/// The number of whole lines that fit below the top margin of a display
/// `xres` pixels long.
pub open spec fn spec_lines_per_page(xres: u32) -> u32 {
    if xres < TOP_MARGIN {
        0
    } else {
        ((xres - TOP_MARGIN) / LINE_HEIGHT as int) as u32
    }
}

/// The last scroll position at which a full page of `lines` lines shows.
pub open spec fn spec_max_scroll(lines: usize, per_page: u32) -> usize {
    if lines <= per_page {
        0
    } else {
        (lines - per_page) as usize
    }
}

/// The position `delta` steps on from `position`, held to `0..=limit`.
pub open spec fn spec_scrolled(position: usize, delta: isize, limit: usize) -> usize {
    if position + delta < 0 {
        0
    } else if position + delta > limit {
        limit
    } else {
        (position + delta) as usize
    }
}

/// The position after the first `n` events are applied in order.
pub open spec fn spec_scrolled_all(position: usize, events: Seq<HwEvent>, n: int, limit: usize)
    -> usize
    decreases n,
{
    if n <= 0 {
        position
    } else {
        match events[n - 1] {
            HwEvent::Scroll(delta) => spec_scrolled(
                spec_scrolled_all(position, events, n - 1, limit),
                delta,
                limit,
            ),
        }
    }
}

pub fn lines_per_page(xres: u32) -> (lines: u32)
    ensures
        lines == spec_lines_per_page(xres),
{
    if xres < TOP_MARGIN {
        0
    } else {
        (xres - TOP_MARGIN) / LINE_HEIGHT
    }
}

pub fn max_scroll(lines: usize, per_page: u32) -> (limit: usize)
    ensures
        limit == spec_max_scroll(lines, per_page),
{
    if lines <= per_page as usize {
        0
    } else {
        lines - per_page as usize
    }
}

/// Moves a scroll position by one event's delta, never past either end.
pub fn scrolled(position: usize, delta: isize, limit: usize) -> (next: usize)
    ensures
        next == spec_scrolled(position, delta, limit),
{
    if delta >= 0 {
        let step: usize = delta as usize;
        if position > limit || step > limit - position {
            limit
        } else {
            position + step
        }
    } else {
        let back: usize = (-(delta + 1)) as usize;
        if back >= position {
            0
        } else if position - back - 1 > limit {
            limit
        } else {
            position - back - 1
        }
    }
}

/// Applies a batch of events to a scrolling list, in order. Every event
/// marks the list dirty, also one that leaves the position where it was.
pub fn apply_events(list: &mut ScrollGadget, events: &Vec<HwEvent>, limit: usize)
    ensures
        final(list).scroll == spec_scrolled_all(
            old(list).scroll,
            events@,
            events@.len() as int,
            limit,
        ),
        final(list).dirty == (old(list).dirty || events@.len() > 0),
        final(list).width == old(list).width,
        final(list).height == old(list).height,
        final(list).children == old(list).children,
{
    let n: usize = events.len();
    let mut i: usize = 0;
    while i < n
        invariant
            i <= n,
            n == events@.len(),
            list.scroll == spec_scrolled_all(old(list).scroll, events@, i as int, limit),
            list.dirty == (old(list).dirty || i > 0),
            list.width == old(list).width,
            list.height == old(list).height,
            list.children == old(list).children,
        decreases n - i,
    {
        match events[i] {
            HwEvent::Scroll(delta) => {
                let next: usize = scrolled(list.scroll, delta, limit);
                list.scroll(next);
            },
        }
        i += 1;
    }
}

/// A dirty tree is rendered and flipped; a clean one lets the loop sleep.
pub fn next_action(dirty: bool) -> (action: FrameAction)
    ensures
        action == if dirty {
            FrameAction::Render
        } else {
            FrameAction::Sleep(IDLE_MILLIS)
        },
{
    if dirty {
        FrameAction::Render
    } else {
        FrameAction::Sleep(IDLE_MILLIS)
    }
}

} // verus!
