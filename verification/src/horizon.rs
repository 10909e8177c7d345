//! The horizon buffer: one "highest drawn screen row so far" value per screen
//! column, the sole occlusion mechanism of the renderer.

use vstd::prelude::*;

verus! {

/// Per-column occlusion state. An entry is the screen Y of the topmost
/// terrain drawn so far in that column; a candidate sample is visible only
/// strictly above it. Valid because a frame sweeps columns in strictly
/// increasing distance order, so nearer terrain is always considered first.
pub struct HorizonBuffer {
    entries: Vec<u32>,
}

impl View for HorizonBuffer {
    type V = Seq<u32>;

    closed spec fn view(&self) -> Seq<u32> {
        self.entries@
    }
}

impl HorizonBuffer {
    /// A buffer of one entry per screen column, every entry at the bottom of
    /// the screen ("nothing drawn yet").
    pub fn new(screen_width: usize, screen_height: u32) -> (b: HorizonBuffer)
        ensures
            b@.len() == screen_width,
            forall|i: int| 0 <= i < screen_width ==> b@[i] == screen_height,
    {
        let mut entries: Vec<u32> = Vec::new();
        let mut i: usize = 0;
        while i < screen_width
            invariant
                0 <= i <= screen_width,
                entries@.len() == i,
                forall|j: int| 0 <= j < i ==> entries@[j] == screen_height,
            decreases screen_width - i,
        {
            entries.push(screen_height);
            i = i + 1;
        }
        HorizonBuffer { entries }
    }

    /// How many columns the buffer covers.
    pub fn width(&self) -> (n: usize)
        ensures
            n == self@.len(),
    {
        self.entries.len()
    }

    /// The current horizon of one column.
    pub fn get(&self, column: usize) -> (y: u32)
        requires
            column < self@.len(),
        ensures
            y == self@[column as int],
    {
        self.entries[column]
    }

    /// Resets every column to the bottom of the screen, keeping the width;
    /// done at the start of every frame.
    pub fn reset(&mut self, screen_height: u32)
        ensures
            final(self)@.len() == old(self)@.len(),
            forall|i: int| 0 <= i < old(self)@.len() ==> final(self)@[i] == screen_height,
    {
        let n = self.entries.len();
        let mut i: usize = 0;
        while i < n
            invariant
                0 <= i <= n,
                self.entries@.len() == n,
                forall|j: int| 0 <= j < i ==> self.entries@[j] == screen_height,
            decreases n - i,
        {
            self.entries.set(i, screen_height);
            i = i + 1;
        }
    }

    /// The occlusion test. Returns true — the candidate is visible — exactly
    /// when `candidate_y` lies strictly above the column's horizon; only then
    /// does it move that one entry up to `candidate_y`. On a false return the
    /// buffer is unchanged. Either way no entry ever increases.
    pub fn test_and_update(&mut self, column: usize, candidate_y: u32) -> (visible: bool)
        requires
            column < old(self)@.len(),
        ensures
            visible == (candidate_y < old(self)@[column as int]),
            visible ==> final(self)@ == old(self)@.update(column as int, candidate_y),
            !visible ==> final(self)@ == old(self)@,
            forall|i: int| 0 <= i < old(self)@.len() ==> final(self)@[i] <= old(self)@[i],
    {
        if candidate_y < self.entries[column] {
            self.entries.set(column, candidate_y);
            true
        } else {
            false
        }
    }
}

} // verus!
