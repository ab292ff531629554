//! The playback driver's decisions: which frame index to show next,
//! how far the progress bar stands, and how long to wait after a
//! frame. The caller runs the loop around these: it loads and paints
//! each frame the driver hands out and performs the wait.

use vstd::prelude::*;

verus! {

use crate::bar::{percent_of, ProgressBar};
use vstd::arithmetic::div_mod::lemma_div_multiples_vanish;

/// The timing budget of one frame, in nanoseconds: the second divided
/// by the frame rate.
pub fn frame_budget_nanos(fps: u32) -> (r: u64)
    requires
        1 <= fps,
    ensures
        r == 1_000_000_000u64 / (fps as u64),
{
    1_000_000_000u64 / (fps as u64)
}

/// How long to keep waiting after a frame: the unused part of the
/// budget, or nothing once the frame's own work has consumed it. The
/// wait only ever shrinks toward zero; playback is never sped up.
pub fn remaining_wait_nanos(budget: u64, elapsed: u64) -> (r: u64)
    ensures
        elapsed < budget ==> r == budget - elapsed,
        elapsed >= budget ==> r == 0,
{
    if elapsed < budget {
        budget - elapsed
    } else {
        0
    }
}

/// The playback state: the next frame to show, the last frame there
/// is, and the progress bar, which advances by one frame's worth per
/// displayed frame.
pub struct Player {
    pub next_id: usize,
    pub max_id: usize,
    pub bar: ProgressBar,
}

impl Player {
    /// A well-formed player: its bar's maximum is the frame count and
    /// its bar stands exactly at the number of frames already handed
    /// out.
    pub open spec fn wf(&self) -> bool {
        &&& self.bar.wf()
        &&& self.bar.pmax == self.max_id as u64
        &&& self.max_id < usize::MAX
        &&& 1 <= self.next_id <= self.max_id + 1
        &&& self.bar.progress == self.next_id - 1
    }

    /// A player at the first frame, with a fresh bar of the given
    /// width and glyphs.
    pub fn new(max_id: usize, cmax: usize, emptyc: char, fillc: char) -> (r: Self)
        requires
            1 <= max_id,
            max_id < usize::MAX,
            max_id * cmax <= u64::MAX,
            max_id * 100 <= u64::MAX,
        ensures
            r.wf(),
            r.max_id == max_id,
            r.next_id == 1,
            r.bar.cmax == cmax,
            r.bar.emptyc == emptyc,
            r.bar.fillc == fillc,
    {
        let bar = ProgressBar::new(max_id as u64, cmax, emptyc, fillc);
        Player { next_id: 1, max_id, bar }
    }

    /// Hands out the next frame index, in strictly ascending order
    /// from one to the last frame, and advances the bar by one; once
    /// every frame has been handed out it returns nothing and changes
    /// nothing.
    pub fn advance(&mut self) -> (r: Option<usize>)
        requires
            old(self).wf(),
        ensures
            final(self).wf(),
            final(self).max_id == old(self).max_id,
            final(self).bar.cmax == old(self).bar.cmax,
            final(self).bar.fillc == old(self).bar.fillc,
            final(self).bar.emptyc == old(self).bar.emptyc,
            old(self).next_id <= old(self).max_id ==> r == Some(old(self).next_id)
                && final(self).next_id == old(self).next_id + 1,
            old(self).next_id > old(self).max_id ==> r is None && *final(self) == *old(self),
    {
        if self.next_id <= self.max_id {
            let id = self.next_id;
            self.next_id = id + 1;
            self.bar.update_bar(1);
            Some(id)
        } else {
            None
        }
    }
}

/// A finished playback stands at one hundred percent: when the player
/// has handed out every frame, its bar's progress equals the maximum
/// and the displayed percentage is exactly one hundred.
pub proof fn lemma_playback_complete(p: Player)
    requires
        p.wf(),
        p.next_id == p.max_id + 1,
    ensures
        p.bar.progress == p.bar.pmax,
        percent_of(p.bar.progress, p.bar.pmax) == 100,
{
    lemma_div_multiples_vanish(100, p.bar.pmax as int);
}

} // verus!
