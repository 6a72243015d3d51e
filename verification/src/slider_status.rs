//! Moved status for the virtual sliders of a control surface.
//!
//! Tracking whether a slider actually moved lets a controller suppress
//! events that would change nothing.

use vstd::prelude::*;

verus! {

/// Whether a virtual slider has moved since it was last observed.
#[derive(Copy, Clone, Debug, Eq, PartialEq, Structural)]
pub enum SliderStatus {
    Moved,
    Unchanged,
}

impl Default for SliderStatus {
    /// A slider starts out unmoved.
    fn default() -> (r: Self)
        ensures
            r == SliderStatus::Unchanged,
    {
        SliderStatus::Unchanged
    }
}

impl SliderStatus {
    /// Record that the slider moved.
    pub fn moved(&mut self)
        ensures
            *final(self) == SliderStatus::Moved,
    {
        *self = SliderStatus::Moved;
    }

    /// Whether the slider was moved.
    pub fn was_moved(self) -> (r: bool)
        ensures
            r == (self == SliderStatus::Moved),
    {
        matches!(self, SliderStatus::Moved)
    }

    /// Sets the slider as moved.
    pub fn set_moved(&mut self)
        ensures
            *final(self) == SliderStatus::Moved,
    {
        *self = SliderStatus::Moved;
    }
}

} // verus!
