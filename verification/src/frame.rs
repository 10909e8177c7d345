//! The frame emitter: collects the vertical colored segments of one frame
//! into the primitive list handed to the host's drawing surface.

use vstd::prelude::*;
use crate::terrain::Rgb;

verus! {

/// One vertical colored sliver of terrain: screen column, top and bottom
/// screen rows, and the sampled color.
#[derive(Clone, Copy, PartialEq, Eq, Structural, Debug)]
pub struct Segment {
    pub column: u32,
    pub y_top: u32,
    pub y_bottom: u32,
    pub color: Rgb,
}

/// A plain buffer of the segments emitted so far in the current frame.
pub struct FrameEmitter {
    segments: Vec<Segment>,
}

impl View for FrameEmitter {
    type V = Seq<Segment>;

    closed spec fn view(&self) -> Seq<Segment> {
        self.segments@
    }
}

impl FrameEmitter {
    /// Starts a frame with no segments.
    pub fn begin_frame() -> (e: FrameEmitter)
        ensures
            e@ == Seq::<Segment>::empty(),
    {
        FrameEmitter { segments: Vec::new() }
    }

    /// Appends one segment.
    pub fn push_segment(&mut self, x: u32, y_top: u32, y_bottom: u32, color: Rgb)
        ensures
            final(self)@ == old(self)@.push(
                Segment { column: x, y_top, y_bottom, color },
            ),
    {
        self.segments.push(Segment { column: x, y_top, y_bottom, color });
    }

    /// Hands out the finished primitive list.
    pub fn finish_frame(self) -> (v: Vec<Segment>)
        ensures
            v@ == self@,
    {
        self.segments
    }
}

} // verus!
