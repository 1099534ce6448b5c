//! The time-bounded interaction loop's per-tick decision: which text a
//! button press puts on the two display rows, and whether the refresh
//! window has expired so the loop must return to the poller.

use vstd::prelude::*;

use crate::grid::{led_index, spec_led_index, Col, Row};
use crate::project::{display_coverage, spec_coverage_line, ProjectDiff};

verus! {

/// How long one interaction window lasts before the next poll, in seconds.
pub const REFRESH_SECONDS: u64 = 5 * 60;

/// A pressed position on the button grid, as the hardware reports it.
#[derive(Clone, Copy, PartialEq, Eq, Structural, Debug)]
pub struct ButtonPress {
    /// Column of the pressed button.
    pub col: Col,
    /// Row of the pressed button.
    pub row: Row,
}

/// The two-row text update a tick asks the character display to show.
pub struct DisplayWrite {
    /// Text for the display's first row.
    pub row0: String,
    /// Text for the display's second row.
    pub row1: String,
}

/// What one tick of the interaction loop decides.
pub struct TickOutcome {
    /// The display update the tick calls for, if any button was pressed.
    pub display: Option<DisplayWrite>,
    /// Whether the refresh window has expired, so the loop must return.
    pub expired: bool,
}

/// The text shown when a pressed position maps to no project.
pub open spec fn spec_no_project() -> Seq<char> {
    "no project"@
}

/// Decides one tick of the interaction loop against the cycle's snapshot.
///
/// Only the first pressed position of the event is acted on. If its linear
/// index lies within the snapshot, the display shows the project's name and
/// its signed coverage delta; otherwise a fixed placeholder and an empty
/// second row. The expiry decision depends on the elapsed time alone: once
/// `elapsed_millis` reaches `window_millis` the tick reports expiry, whatever
/// the event carried.
pub fn handle_tick(
    snapshot: &Vec<ProjectDiff>,
    pressed: &Vec<ButtonPress>,
    elapsed_millis: u64,
    window_millis: u64,
) -> (r: TickOutcome)
    ensures
        r.expired == (elapsed_millis >= window_millis),
        pressed@.len() == 0 ==> r.display is None,
        pressed@.len() > 0 ==> ({
            let ix = spec_led_index(pressed@[0].col, pressed@[0].row);
            if ix < snapshot@.len() {
                r.display matches Some(w) && w.row0@ == snapshot@[ix].project_name@
                    && w.row1@ == spec_coverage_line(snapshot@[ix].covered as int)
            } else {
                r.display matches Some(w) && w.row0@ == spec_no_project()
                    && w.row1@ == Seq::<char>::empty()
            }
        }),
{
    let display: Option<DisplayWrite>;
    if pressed.len() > 0 {
        let first = pressed[0];
        let ix = led_index(first.col, first.row);
        if ix < snapshot.len() {
            let name = snapshot[ix].project_name.clone();
            let delta = display_coverage(&snapshot[ix]);
            display = Some(DisplayWrite { row0: name, row1: delta });
        } else {
            display = Some(DisplayWrite { row0: no_project_text(), row1: String::new() });
        }
    } else {
        display = None;
    }
    let expired = elapsed_millis >= window_millis;
    TickOutcome { display, expired }
}

/// The placeholder shown for a press outside the snapshot's bounds.
pub fn no_project_text() -> (r: String)
    ensures
        r@ == spec_no_project(),
{
    let mut s = String::new();
    s.append("no project");
    s
}

} // verus!
