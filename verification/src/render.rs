//! The indicator state for the 4x4 LED grid: one on/off flag per position,
//! updated from a cycle's project list and flushed to the hardware in one
//! batched write by the caller.

use vstd::prelude::*;
use vstd::pervasive::VecAdditionalExecFns;

use crate::grid::{col, row, spec_led_index, Col, Row};
use crate::project::ProjectDiff;

verus! {

/// The on/off state of all 16 indicators, indexed linearly.
pub struct IndicatorGrid {
    /// `leds[i]` is the intended state of the indicator at linear index `i`.
    pub leds: Vec<bool>,
}

impl IndicatorGrid {
    /// A well-formed grid holds exactly one flag per position.
    pub open spec fn wf(&self) -> bool {
        self.leds@.len() == 16
    }

    /// A grid with every indicator off.
    pub fn new() -> (g: IndicatorGrid)
        ensures
            g.wf(),
            forall|i: int| 0 <= i < 16 ==> g.leds@[i] == false,
    {
        let mut leds: Vec<bool> = Vec::new();
        let mut i: usize = 0;
        while i < 16
            invariant
                i <= 16,
                leds@.len() == i,
                forall|j: int| 0 <= j < i ==> leds@[j] == false,
            decreases 16 - i,
        {
            leds.push(false);
            i = i + 1;
        }
        IndicatorGrid { leds }
    }

    /// Sets the indicator at `(col, row)` to `on`, leaving every other
    /// indicator as it was.
    pub fn set_indicator(&mut self, col: Col, row: Row, on: bool)
        requires
            old(self).wf(),
        ensures
            final(self).wf(),
            final(self).leds@ == old(self).leds@.update(spec_led_index(col, row), on),
    {
        let ix = crate::grid::led_index(col, row);
        self.leds.set(ix, on);
    }
}

/// Drives the grid state from one cycle's project list: for each entry at
/// index `i` the indicator at `i`'s position turns on exactly when the
/// project's coverage change is negative, and indicators beyond the list
/// keep their prior state.
pub fn render_indicators(diffs: &Vec<ProjectDiff>, grid: &mut IndicatorGrid)
    requires
        diffs@.len() <= 16,
        old(grid).wf(),
    ensures
        final(grid).wf(),
        forall|i: int| 0 <= i < diffs@.len()
            ==> final(grid).leds@[i] == (diffs@[i].covered < 0),
        forall|i: int| diffs@.len() <= i < 16 ==> final(grid).leds@[i] == old(grid).leds@[i],
{
    let mut i: usize = 0;
    while i < diffs.len()
        invariant
            diffs@.len() <= 16,
            i <= diffs@.len(),
            grid.wf(),
            forall|j: int| 0 <= j < i ==> grid.leds@[j] == (diffs@[j].covered < 0),
            forall|j: int| i <= j < 16 ==> grid.leds@[j] == old(grid).leds@[j],
        decreases diffs@.len() - i,
    {
        let c = col(i);
        let r = row(i);
        proof {
            assert(spec_led_index(c, r) == (i / 4) * 4 + i % 4);
            assert((i / 4) * 4 + i % 4 == i as int) by {
                vstd::arithmetic::div_mod::lemma_fundamental_div_mod(i as int, 4);
            }
        }
        let on = diffs[i].covered < 0;
        grid.set_indicator(c, r, on);
        i = i + 1;
    }
}

} // verus!
