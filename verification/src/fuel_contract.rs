//! Published fuel semantics selected by a Racing catalog.

use vstd::prelude::*;

verus! {

/// What the simulator does when a competitor would run out of fuel.
#[derive(Clone, Copy, Debug, PartialEq, Eq, Structural)]
pub enum RacingFuelDepletionBehavior {
    /// The run is rejected.
    Reject,
}

impl RacingFuelDepletionBehavior {
    /// The serialized name.
    pub fn wire_name(&self) -> (out: &'static str)
        ensures
            out@ == "reject"@,
    {
        "reject"
    }
}

} // verus!
