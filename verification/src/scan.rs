//! The scan task's cooperative control decision. The task itself
//! lives outside the library (it awaits the radio); at each
//! checkpoint it asks this function what to do next, so the pause and
//! shutdown semantics are pinned here.

use vstd::prelude::*;

verus! {

/// What the scan task does at its next checkpoint.
#[derive(Clone, Copy, PartialEq, Eq, Structural, Debug)]
pub enum ScanDirective {
    /// Stop the underlying scan and terminate cleanly.
    Finish,
    /// Stop the underlying scan and sleep a short increment.
    Pause,
    /// Keep the underlying scan running and await the next event.
    Listen,
}

/// The edge-triggered shutdown notice always wins over the
/// level-triggered pause flag.
pub fn scan_step(shutdown_requested: bool, paused: bool) -> (r: ScanDirective)
    ensures
        r == if shutdown_requested {
            ScanDirective::Finish
        } else if paused {
            ScanDirective::Pause
        } else {
            ScanDirective::Listen
        },
{
    if shutdown_requested {
        ScanDirective::Finish
    } else if paused {
        ScanDirective::Pause
    } else {
        ScanDirective::Listen
    }
}

} // verus!
