//! # Geometry
//!
//! Configuration of the static objects drawn in the simulation, and the predefined views.
//!
//! Static objects can be toggled by [`StaticConfig`]:
//! - Machine boundary box
//! - XY plane grid
//! - Axis pointers, rooted at the origin.
use vstd::prelude::*;

pub mod view;

verus! {

/// Whether the machine boundary box is shown at start.
pub const BOUNDARY: bool = false;
/// Whether the XY plane grid is shown at start.
pub const GRID: bool = true;
/// Whether the axis indicators at the origin are shown at start.
pub const ORIGIN: bool = true;
/// Whether the tool is shown at start.
pub const TOOL: bool = true;

/// Configuration of fixed line instances that can be toggled.
#[derive(Clone, Copy, Debug, PartialEq, Eq, Structural)]
pub struct StaticConfig {
    /// Whether to render machine travels boundary box.
    machine_boundary: bool,
    /// Whether to render the reference grid on the XY plane.
    grid: bool,
    /// Whether to render X, Y, and Z axis indicators, rooted at origin.
    origin: bool,
}

impl StaticConfig {
    pub closed spec fn spec_machine_boundary(&self) -> bool {
        self.machine_boundary
    }

    pub closed spec fn spec_grid(&self) -> bool {
        self.grid
    }

    pub closed spec fn spec_origin(&self) -> bool {
        self.origin
    }

    /// Sets machine travel boundary box on or off.
    pub fn set_machine_boundary(&mut self, boundary: bool)
        ensures
            final(self).spec_machine_boundary() == boundary,
            final(self).spec_grid() == old(self).spec_grid(),
            final(self).spec_origin() == old(self).spec_origin(),
    {
        self.machine_boundary = boundary
    }

    /// Sets the XY plane reference grid on or off.
    pub fn set_grid(&mut self, grid: bool)
        ensures
            final(self).spec_grid() == grid,
            final(self).spec_machine_boundary() == old(self).spec_machine_boundary(),
            final(self).spec_origin() == old(self).spec_origin(),
    {
        self.grid = grid
    }

    /// Sets all axis indicators on or off.
    pub fn set_origin(&mut self, origin: bool)
        ensures
            final(self).spec_origin() == origin,
            final(self).spec_machine_boundary() == old(self).spec_machine_boundary(),
            final(self).spec_grid() == old(self).spec_grid(),
    {
        self.origin = origin
    }

    /// Whether the machine boundary box is rendered.
    pub fn machine_boundary(&self) -> (r: bool)
        ensures
            r == self.spec_machine_boundary(),
    {
        self.machine_boundary
    }

    /// Whether the XY plane grid is rendered.
    pub fn grid(&self) -> (r: bool)
        ensures
            r == self.spec_grid(),
    {
        self.grid
    }

    /// Whether the axis indicators are rendered.
    pub fn origin(&self) -> (r: bool)
        ensures
            r == self.spec_origin(),
    {
        self.origin
    }
}

impl Default for StaticConfig {
    /// The configuration at start: grid and origin on, machine boundary off.
    fn default() -> (r: Self)
        ensures
            r.spec_machine_boundary() == BOUNDARY,
            r.spec_grid() == GRID,
            r.spec_origin() == ORIGIN,
    {
        StaticConfig { machine_boundary: BOUNDARY, grid: GRID, origin: ORIGIN }
    }
}

} // verus!
