//! Fan control modes.
use vstd::prelude::*;

verus! {

/// Who sets the fan's duty cycle: the device itself, or its user.
#[derive(Debug, PartialEq, Eq, Clone, Copy, Structural)]
pub enum FanMode {
    Auto,
    Manual,
}

} // verus!
