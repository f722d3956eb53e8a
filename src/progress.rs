use vstd::prelude::*;

verus! {

/// What a progress step reports: the step's index, counted from zero, and
/// whether it lies beyond the declared total (a warning, not a failure).
#[derive(Clone, Copy, Debug, PartialEq, Eq, Structural)]
pub struct ProgressStep {
    pub index: u32,
    pub out_of_bounds: bool,
}

/// The step counter of a long computation that reports its progress.
#[derive(Clone, Copy, Debug, PartialEq, Eq, Structural)]
pub struct ProgressCallback {
    pub current_progress: u32,
    pub max_progress: u32,
}

impl ProgressCallback {
    /// A counter for a computation of `max_progress` steps, none taken yet.
    pub fn new(max_progress: u32) -> (r: ProgressCallback)
        ensures
            r.current_progress == 0,
            r.max_progress == max_progress,
    {
        ProgressCallback { current_progress: 0, max_progress }
    }

    /// Announces the start of a step: reports its index and whether the
    /// declared total is already used up, then counts it (the count stops at
    /// the largest `u32`).
    pub fn step(&mut self) -> (r: ProgressStep)
        ensures
            r.index == old(self).current_progress,
            r.out_of_bounds == (old(self).current_progress >= old(self).max_progress),
            final(self).max_progress == old(self).max_progress,
            final(self).current_progress == (if old(self).current_progress < u32::MAX {
                old(self).current_progress + 1
            } else {
                old(self).current_progress as int
            }),
    {
        let r = ProgressStep {
            index: self.current_progress,
            out_of_bounds: self.current_progress >= self.max_progress,
        };
        if self.current_progress < u32::MAX {
            self.current_progress = self.current_progress + 1;
        }
        r
    }
}

} // verus!
