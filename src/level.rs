//! The range of backlight levels.
use vstd::prelude::*;

verus! {

/// The lowest level that is ever written.
pub const MIN_BRIGHTNESS: u16 = 1;

/// The highest level that the hardware takes.
pub const MAX_BRIGHTNESS: u16 = 7500;

} // verus!
