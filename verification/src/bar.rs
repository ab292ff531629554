//! The progress indicator: a value accumulating toward a maximum,
//! clamped there, and rendered as a fixed-width bar of fill and empty
//! glyphs followed by an integer percentage.

use vstd::prelude::*;

verus! {

use crate::text::{dec_str, push_char, u64_to_string};
use vstd::arithmetic::div_mod::lemma_div_multiples_vanish;

/// One clamped advance of a progress value toward the maximum.
pub open spec fn bar_step(progress: u64, inc: u64, pmax: u64) -> u64 {
    if progress + inc >= pmax {
        pmax
    } else {
        (progress + inc) as u64
    }
}

/// The progress value left after a whole sequence of advances.
pub open spec fn bar_run(progress: u64, incs: Seq<u64>, pmax: u64) -> u64
    decreases incs.len(),
{
    if incs.len() == 0 {
        progress
    } else {
        bar_run(bar_step(progress, incs[0], pmax), incs.drop_first(), pmax)
    }
}

/// The sum of a sequence of advances.
pub open spec fn sum_incs(incs: Seq<u64>) -> int
    decreases incs.len(),
{
    if incs.len() == 0 {
        0
    } else {
        incs[0] + sum_incs(incs.drop_first())
    }
}

/// The number of fill glyphs shown for a progress value: its share of
/// the bar width, rounded down.
pub open spec fn fill_width(progress: u64, pmax: u64, cmax: usize) -> int {
    progress * cmax / (pmax as int)
}

/// The percentage shown for a progress value, rounded down.
pub open spec fn percent_of(progress: u64, pmax: u64) -> int {
    progress * 100 / (pmax as int)
}

/// The bar as displayed: the fill glyphs then the empty glyphs between
/// brackets, a space, and the percentage.
pub open spec fn render_spec(b: ProgressBar) -> Seq<char> {
    seq!['['] + Seq::new(fill_width(b.progress, b.pmax, b.cmax) as nat, |i: int| b.fillc)
        + Seq::new((b.cmax - fill_width(b.progress, b.pmax, b.cmax)) as nat, |i: int| b.emptyc)
        + seq![']', ' '] + dec_str(percent_of(b.progress, b.pmax) as nat) + seq!['%']
}

/// The displayed share stays within the bar: the fill count is at most
/// the width, the percentage at most one hundred, and both are exact
/// at the maximum.
pub proof fn lemma_fill_within(progress: u64, pmax: u64, cmax: usize)
    requires
        1 <= pmax,
        progress <= pmax,
    ensures
        0 <= fill_width(progress, pmax, cmax) <= cmax,
        0 <= percent_of(progress, pmax) <= 100,
        progress == pmax ==> fill_width(progress, pmax, cmax) == cmax,
        progress == pmax ==> percent_of(progress, pmax) == 100,
{
    assert(progress * cmax <= pmax * cmax) by (nonlinear_arith)
        requires
            progress <= pmax,
            0 <= cmax,
    ;
    assert(progress * 100 <= pmax * 100) by (nonlinear_arith)
        requires
            progress <= pmax,
    ;
    assert(0 <= progress * cmax) by (nonlinear_arith)
        requires
            0 <= progress,
            0 <= cmax,
    ;
    lemma_div_multiples_vanish(cmax as int, pmax as int);
    lemma_div_multiples_vanish(100, pmax as int);
    vstd::arithmetic::div_mod::lemma_div_is_ordered(
        progress * cmax,
        pmax * cmax,
        pmax as int,
    );
    vstd::arithmetic::div_mod::lemma_div_is_ordered(progress * 100, pmax * 100, pmax as int);
    vstd::arithmetic::div_mod::lemma_div_pos_is_pos(progress * cmax, pmax as int);
    vstd::arithmetic::div_mod::lemma_div_pos_is_pos(progress * 100, pmax as int);
}

/// The state of the progress indicator.
pub struct ProgressBar {
    pub progress: u64,
    pub fillc: char,
    pub emptyc: char,
    pub cmax: usize,
    pub pmax: u64,
}

impl ProgressBar {
    /// A well-formed bar: a positive maximum that the progress never
    /// exceeds, small enough that the display arithmetic stays within
    /// the machine word.
    pub open spec fn wf(&self) -> bool {
        &&& 1 <= self.pmax
        &&& self.progress <= self.pmax
        &&& self.pmax * self.cmax <= u64::MAX
        &&& self.pmax * 100 <= u64::MAX
    }

    /// A fresh bar at zero progress.
    pub fn new(pmax: u64, cmax: usize, emptyc: char, fillc: char) -> (r: Self)
        requires
            1 <= pmax,
            pmax * cmax <= u64::MAX,
            pmax * 100 <= u64::MAX,
        ensures
            r.wf(),
            r.progress == 0,
            r.pmax == pmax,
            r.cmax == cmax,
            r.emptyc == emptyc,
            r.fillc == fillc,
    {
        Self { pmax, cmax, emptyc, fillc, progress: 0 }
    }

    /// Advances the progress by a delta, clamping at the maximum;
    /// advances past the maximum are no-ops, not errors.
    pub fn update_bar(&mut self, inc: u64)
        requires
            old(self).wf(),
        ensures
            final(self).wf(),
            final(self).pmax == old(self).pmax,
            final(self).cmax == old(self).cmax,
            final(self).fillc == old(self).fillc,
            final(self).emptyc == old(self).emptyc,
            final(self).progress == bar_step(old(self).progress, inc, old(self).pmax),
    {
        if inc >= self.pmax - self.progress {
            self.progress = self.pmax;
            return;
        }
        self.progress = self.progress + inc;
    }

    /// The bar as text: its width in fill and empty glyphs between
    /// brackets, then the percentage.
    pub fn render(&self) -> (r: String)
        requires
            self.wf(),
        ensures
            r@ == render_spec(*self),
    {
        proof {
            lemma_fill_within(self.progress, self.pmax, self.cmax);
            assert(self.progress * (self.cmax as u64) <= u64::MAX) by (nonlinear_arith)
                requires
                    self.progress <= self.pmax,
                    self.pmax * self.cmax <= u64::MAX,
                    0 <= self.cmax,
            ;
            assert(self.progress * 100 <= u64::MAX) by (nonlinear_arith)
                requires
                    self.progress <= self.pmax,
                    self.pmax * 100 <= u64::MAX,
            ;
        }
        let fill: usize = ((self.progress * (self.cmax as u64)) / self.pmax) as usize;
        let empty: usize = self.cmax - fill;
        let ghost fills = Seq::new(fill as nat, |i: int| self.fillc);
        let ghost empties = Seq::new(empty as nat, |i: int| self.emptyc);
        let mut out = String::new();
        push_char(&mut out, '[');
        proof {
            assert(out@ =~= seq!['['] + fills.take(0));
        }
        let mut k: usize = 0;
        while k < fill
            invariant
                k <= fill,
                fills == Seq::new(fill as nat, |i: int| self.fillc),
                out@ == seq!['['] + fills.take(k as int),
            decreases fill - k,
        {
            push_char(&mut out, self.fillc);
            proof {
                assert(out@ =~= seq!['['] + fills.take(k as int + 1));
            }
            k += 1;
        }
        proof {
            assert(fills.take(fill as int) =~= fills);
        }
        let mut k2: usize = 0;
        while k2 < empty
            invariant
                k2 <= empty,
                fills == Seq::new(fill as nat, |i: int| self.fillc),
                empties == Seq::new(empty as nat, |i: int| self.emptyc),
                out@ == seq!['['] + fills + empties.take(k2 as int),
            decreases empty - k2,
        {
            push_char(&mut out, self.emptyc);
            proof {
                assert(out@ =~= seq!['['] + fills + empties.take(k2 as int + 1));
            }
            k2 += 1;
        }
        proof {
            assert(empties.take(empty as int) =~= empties);
        }
        push_char(&mut out, ']');
        push_char(&mut out, ' ');
        let pct: u64 = self.progress * 100 / self.pmax;
        let pstr = u64_to_string(pct);
        out.append(pstr.as_str());
        push_char(&mut out, '%');
        proof {
            assert(out@ =~= render_spec(*self));
        }
        out
    }
}

/// The sum of advances is never negative.
pub proof fn lemma_sum_incs_nonneg(incs: Seq<u64>)
    ensures
        0 <= sum_incs(incs),
    decreases incs.len(),
{
    if incs.len() > 0 {
        lemma_sum_incs_nonneg(incs.drop_first());
    }
}

/// Advancing clamps and never overflows: after any sequence of
/// advances the progress stands at the smaller of the starting value
/// plus their sum and the maximum. In particular, once the deltas sum
/// past the maximum, the progress stands exactly at the maximum, and
/// the fill and empty glyph counts of the display still sum to the
/// configured width.
pub proof fn lemma_updates_clamp(start: u64, incs: Seq<u64>, pmax: u64, cmax: usize)
    requires
        start <= pmax,
        1 <= pmax,
    ensures
        bar_run(start, incs, pmax) == if start + sum_incs(incs) >= pmax {
            pmax as int
        } else {
            start + sum_incs(incs)
        },
        start + sum_incs(incs) >= pmax ==> bar_run(start, incs, pmax) == pmax,
        fill_width(bar_run(start, incs, pmax), pmax, cmax) + (cmax - fill_width(
            bar_run(start, incs, pmax),
            pmax,
            cmax,
        )) == cmax,
        0 <= fill_width(bar_run(start, incs, pmax), pmax, cmax) <= cmax,
        start + sum_incs(incs) >= pmax ==> fill_width(bar_run(start, incs, pmax), pmax, cmax)
            == cmax,
    decreases incs.len(),
{
    if incs.len() == 0 {
    } else {
        lemma_sum_incs_nonneg(incs.drop_first());
        lemma_updates_clamp(bar_step(start, incs[0], pmax), incs.drop_first(), pmax, cmax);
    }
    lemma_fill_within(bar_run(start, incs, pmax), pmax, cmax);
}

} // verus!
