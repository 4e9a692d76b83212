//! Mouse cursor shapes of the simulation window.
use vstd::prelude::*;

verus! {

/// Icon image to choose for a cursor.
#[derive(Clone, Copy, Debug, PartialEq, Eq, Structural)]
pub enum CursorShape {
    /// Default pointer.
    Default,
    /// Rotation cursor.
    Rotate,
    /// 2D movement cursor.
    Pan,
    /// 2D rotation cursor.
    Orbit,
}

} // verus!
