//! # Signal
//!
//! State changes caused by user input, to be reflected in the text interface.
use vstd::prelude::*;
use crate::geometry::view::View;
use crate::speed::Speed;

verus! {

/// State changes in the simulation window as a result of **user input**.
#[derive(Debug, Clone, Copy)]
pub enum UserSignal {
    /// Simulation view has changed: `Some` resets to a predefined [`View`],
    /// `None` means free orbiting.
    SetView(Option<View>),
    /// Simulation view fit has changed.
    SetFit(bool),
    /// Single block execution setting changed.
    SetSingle(bool),
    /// Tool visibility changed.
    SetToolVisibility(bool),
    /// Toolpath visibility changed.
    SetToolpathVisibility(bool),
    /// Stock visibility changed.
    SetStockVisibility(bool),
    /// Simulation speed changed.
    SetSpeed(Speed),
}

/// The settings of the simulation window that the text interface shows, kept up to date by
/// the [`UserSignal`]s it receives.
#[derive(Debug, Clone, Copy)]
pub struct DisplaySettings {
    /// Selected predefined view; `None` while the view is moved freely.
    pub view: Option<View>,
    /// The view is fitted to the machine.
    pub fit: bool,
    /// Single block execution.
    pub single: bool,
    /// Tool visibility.
    pub tool: bool,
    /// Toolpath visibility.
    pub toolpath: bool,
    /// Stock visibility.
    pub stock: bool,
    /// Simulation speed.
    pub speed: Speed,
}

/// The settings after a signal.
pub open spec fn spec_apply(d: DisplaySettings, signal: UserSignal) -> DisplaySettings {
    match signal {
        UserSignal::SetView(v) => DisplaySettings { view: v, ..d },
        UserSignal::SetFit(f) => DisplaySettings { fit: f, ..d },
        UserSignal::SetSingle(s) => DisplaySettings { single: s, ..d },
        UserSignal::SetToolVisibility(t) => DisplaySettings { tool: t, ..d },
        UserSignal::SetToolpathVisibility(t) => DisplaySettings { toolpath: t, ..d },
        UserSignal::SetStockVisibility(t) => DisplaySettings { stock: t, ..d },
        UserSignal::SetSpeed(s) => DisplaySettings { speed: s, ..d },
    }
}

impl DisplaySettings {
    /// The settings at start: default view, fitted, and the default visibilities and speed.
    pub fn new() -> (r: Self)
        ensures
            r.view == Some(View::Isometric),
            r.fit,
            r.single == crate::controls::SINGLE,
            r.tool == crate::geometry::TOOL,
            r.toolpath == crate::controls::TOOLPATH,
            r.stock == crate::controls::STOCK,
            r.speed.frames() == crate::speed::DEFAULT,
    {
        DisplaySettings {
            view: Some(View::default()),
            fit: true,
            single: crate::controls::SINGLE,
            tool: crate::geometry::TOOL,
            toolpath: crate::controls::TOOLPATH,
            stock: crate::controls::STOCK,
            speed: Speed::default(),
        }
    }

    /// Takes over the change a signal reports.
    pub fn apply(&mut self, signal: UserSignal)
        ensures
            *final(self) == spec_apply(*old(self), signal),
    {
        match signal {
            UserSignal::SetView(v) => self.view = v,
            UserSignal::SetFit(f) => self.fit = f,
            UserSignal::SetSingle(s) => self.single = s,
            UserSignal::SetToolVisibility(t) => self.tool = t,
            UserSignal::SetToolpathVisibility(t) => self.toolpath = t,
            UserSignal::SetStockVisibility(t) => self.stock = t,
            UserSignal::SetSpeed(s) => self.speed = s,
        }
    }
}

} // verus!
