//! # View
//!
//! Predefined views of the simulation.
use vstd::prelude::*;
use vstd::view::View as _;

verus! {

/// Possible predefined views that can be switched between in the simulation.
#[derive(Copy, Clone, Debug, PartialEq, Eq, Structural)]
pub enum View {
    /// Simulate all three axes, from **isometric view**.
    Isometric,
    /// Simulate `X` & `Y` axes, from **top view**.
    Top,
    /// Simulate `X` & `Z` axes, from the **front**.
    Front,
    /// Simulate `Y` & `Z` axes, from the **right**.
    Right,
}

/// The displayed name of a view.
pub open spec fn view_name(v: View) -> Seq<char> {
    match v {
        View::Isometric => "ISOMETRIC"@,
        View::Top => "TOP"@,
        View::Front => "FRONT"@,
        View::Right => "RIGHT"@,
    }
}

impl View {
    /// The name of the view, as it is displayed.
    pub fn label(&self) -> (r: &'static str)
        ensures
            r@ == view_name(*self),
    {
        match self {
            View::Isometric => "ISOMETRIC",
            View::Top => "TOP",
            View::Front => "FRONT",
            View::Right => "RIGHT",
        }
    }
}

impl Default for View {
    fn default() -> (r: Self)
        ensures
            r == View::Isometric,
    {
        View::Isometric
    }
}

} // verus!
