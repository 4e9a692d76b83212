//! # Controls
//!
//! Keyboard and mouse controls of the simulation window: which released key or mouse
//! motion changes which setting, what the window has to do in response, and which
//! [`UserSignal`] tells the text interface about the change; and the decisions of each
//! frame of the running simulation: whether to execute a block, render, and draw again.
use vstd::prelude::*;
use crate::geometry::view::View;
use crate::signal::{DisplaySettings, UserSignal, spec_apply};
use crate::speed::{Speed, lemma_speed_of, spec_dec, spec_inc, speed_of};
use crate::gcode::MCode;
use crate::state::Interrupt;

verus! {

/// Whether blocks are executed one at a time at start.
pub const SINGLE: bool = false;
/// Whether the toolpath is shown at start.
pub const TOOLPATH: bool = true;
/// Whether the stock is shown at start.
pub const STOCK: bool = true;

/// A key of the keyboard, as far as the simulation window tells keys apart.
#[derive(Clone, Copy, Debug, PartialEq, Eq, Structural)]
pub enum Key {
    Enter,
    Space,
    /// A key that types a character.
    Char(char),
    /// Any other key.
    Other,
}

/// Work the window has to do after a key.
#[derive(Clone, Copy, Debug, PartialEq, Eq, Structural)]
pub enum Action {
    /// Restart the program from its first block, clearing the drawn toolpath.
    Reload,
    /// Resume drawing the simulation.
    Redraw,
    /// Center the view and zoom in as far as the machine fits.
    FitView,
    /// Close the window.
    Exit,
    /// Switch to a predefined view.
    ShowView(View),
}

/// The answer to a key.
#[derive(Clone, Copy, Debug)]
pub struct Response {
    /// `None`: the key was not handled. `Some(true)`: handled, and a new frame has to be
    /// rendered. `Some(false)`: handled, no new frame needed.
    pub render: Option<bool>,
    /// Work for the window.
    pub action: Option<Action>,
    /// Change to report to the text interface.
    pub signal: Option<UserSignal>,
}

/// Settings of the simulation window that the keyboard changes.
#[derive(Clone, Copy, Debug)]
pub struct Controls {
    /// `None` while the program runs.
    pub interrupt: Option<Interrupt>,
    /// Single step through code blocks.
    pub single: bool,
    /// In single mode: the next block has been requested and is to be drawn.
    pub next_requested: bool,
    /// Simulation speed.
    pub speed: Speed,
    /// Selected predefined view; `None` after the user moved the view with the mouse.
    pub view: Option<View>,
    /// The view is centered and zoomed in as far as the machine fits.
    pub fit: bool,
    /// Toolpath visibility.
    pub toolpath: bool,
    /// Stock visibility.
    pub stock: bool,
    /// Tool visibility.
    pub tool: bool,
    /// The left mouse button is held: mouse motion pans the view.
    pub left_pressed: bool,
    /// The right mouse button is held: mouse motion turns the view around the Z axis.
    pub right_pressed: bool,
    /// The middle mouse button is held: mouse motion orbits the view around X and Y.
    pub middle_pressed: bool,
}

/// A mouse button.
#[derive(Clone, Copy, Debug, PartialEq, Eq, Structural)]
pub enum MouseButton {
    Left,
    Right,
    Middle,
    Other,
}

/// How mouse motion moves the view.
#[derive(Clone, Copy, Debug, PartialEq, Eq, Structural)]
pub enum Motion {
    /// Orbit around the X and Y axes.
    Orbit,
    /// Turn around the Z axis.
    Spin,
    /// Move sideways.
    Pan,
}

/// What a frame of the running simulation does after it was updated: whether the frame is
/// rendered, and whether another redraw is requested.
#[derive(Clone, Copy, Debug, PartialEq, Eq, Structural)]
pub struct FramePlan {
    pub render: bool,
    pub redraw: bool,
}

/// The response to a key that is not handled.
pub open spec fn unhandled() -> Response {
    Response { render: None, action: None, signal: None }
}

/// The view that the `v` key switches to: between isometric and top, and back to the
/// default view from any other.
pub open spec fn spec_toggled_view(v: Option<View>) -> View {
    match v {
        Some(View::Isometric) => View::Top,
        Some(View::Top) => View::Isometric,
        _ => View::Isometric,
    }
}

/// The settings after a key event, and the response to it. Only releases are handled.
pub open spec fn spec_key(c: Controls, key: Key, pressed: bool) -> (Controls, Response) {
    if pressed {
        (c, unhandled())
    } else {
        match key {
            Key::Enter => match c.interrupt {
                None => (c, unhandled()),
                Some(Interrupt::End) => (
                    Controls { interrupt: Some(Interrupt::Start), ..c },
                    Response { render: Some(false), action: Some(Action::Reload), signal: None },
                ),
                Some(_) => (
                    Controls { interrupt: None, ..c },
                    Response { render: Some(false), action: Some(Action::Redraw), signal: None },
                ),
            },
            Key::Space => {
                let single = !c.single;
                (
                    Controls { single, next_requested: false, ..c },
                    Response {
                        render: Some(false),
                        action: if single {
                            None
                        } else {
                            Some(Action::Redraw)
                        },
                        signal: Some(UserSignal::SetSingle(single)),
                    },
                )
            },
            Key::Char(ch) => if ch == 'f' && !c.fit {
                (
                    Controls { fit: true, ..c },
                    Response {
                        render: Some(true),
                        action: Some(Action::FitView),
                        signal: Some(UserSignal::SetFit(true)),
                    },
                )
            } else if ch == 'n' && c.single {
                (
                    Controls { next_requested: true, ..c },
                    Response { render: Some(true), action: Some(Action::Redraw), signal: None },
                )
            } else if ch == 'p' {
                (
                    Controls { toolpath: !c.toolpath, ..c },
                    Response {
                        render: Some(true),
                        action: None,
                        signal: Some(UserSignal::SetToolpathVisibility(!c.toolpath)),
                    },
                )
            } else if ch == 'q' {
                (c, Response { render: Some(false), action: Some(Action::Exit), signal: None })
            } else if ch == 's' {
                (
                    Controls { stock: !c.stock, ..c },
                    Response {
                        render: Some(true),
                        action: None,
                        signal: Some(UserSignal::SetStockVisibility(!c.stock)),
                    },
                )
            } else if ch == 't' {
                (
                    Controls { tool: !c.tool, ..c },
                    Response {
                        render: Some(true),
                        action: None,
                        signal: Some(UserSignal::SetToolVisibility(!c.tool)),
                    },
                )
            } else if ch == 'v' {
                let v = spec_toggled_view(c.view);
                (
                    Controls { view: Some(v), ..c },
                    Response {
                        render: Some(true),
                        action: Some(Action::ShowView(v)),
                        signal: Some(UserSignal::SetView(Some(v))),
                    },
                )
            } else if ch == '+' && spec_inc(c.speed.frames()).1 {
                let s = speed_of(spec_inc(c.speed.frames()).0);
                (
                    Controls { speed: s, ..c },
                    Response { render: Some(false), action: None, signal: Some(UserSignal::SetSpeed(s)) },
                )
            } else if ch == '-' && spec_dec(c.speed.frames()).1 {
                let s = speed_of(spec_dec(c.speed.frames()).0);
                (
                    Controls { speed: s, ..c },
                    Response { render: Some(false), action: None, signal: Some(UserSignal::SetSpeed(s)) },
                )
            } else {
                (c, unhandled())
            },
            Key::Other => (c, unhandled()),
        }
    }
}

/// The settings after a mouse button is pressed or released.
pub open spec fn spec_mouse_button(c: Controls, button: MouseButton, pressed: bool) -> Controls {
    match button {
        MouseButton::Left => Controls { left_pressed: pressed, ..c },
        MouseButton::Right => Controls { right_pressed: pressed, ..c },
        MouseButton::Middle => Controls { middle_pressed: pressed, ..c },
        MouseButton::Other => c,
    }
}

/// The settings after the mouse moved, the way the view moves, and the change to report.
/// The middle button takes precedence over the right one, and the right over the left.
/// Orbiting or turning leaves the predefined view; panning leaves the fitted view.
pub open spec fn spec_mouse_motion(c: Controls) -> (Controls, Option<Motion>, Option<UserSignal>) {
    if c.middle_pressed || c.right_pressed {
        let motion = if c.middle_pressed {
            Motion::Orbit
        } else {
            Motion::Spin
        };
        (
            Controls { view: None, ..c },
            Some(motion),
            if c.view is Some {
                Some(UserSignal::SetView(None))
            } else {
                None
            },
        )
    } else if c.left_pressed {
        (
            Controls { fit: false, ..c },
            Some(Motion::Pan),
            if c.fit {
                Some(UserSignal::SetFit(false))
            } else {
                None
            },
        )
    } else {
        (c, None, None)
    }
}

/// Whether a redraw executes a new block: the previous block is drawn completely
/// (`proceed`), and blocks run continuously or the next one was requested.
pub open spec fn spec_wants_block(c: Controls, proceed: bool) -> bool {
    proceed && (!c.single || c.next_requested)
}

/// The settings and the plan of a frame after its update; `render` is whether the drawing
/// asked for the frame to be rendered. A requested block has been executed when `proceed`
/// holds and [`spec_wants_block`] did.
pub open spec fn spec_after_update(c: Controls, proceed: bool, render: bool) -> (Controls, FramePlan) {
    if proceed && c.single {
        if c.next_requested {
            (Controls { next_requested: false, ..c }, FramePlan { render: true, redraw: false })
        } else {
            (c, FramePlan { render: false, redraw: false })
        }
    } else {
        (c, FramePlan { render, redraw: true })
    }
}

impl Controls {
    /// The settings when the window opens: waiting for the start confirmation, default
    /// speed and view, fitted view, and the default visibilities.
    pub fn new() -> (r: Self)
        ensures
            r.interrupt == Some(Interrupt::Start),
            r.single == SINGLE,
            !r.next_requested,
            r.speed.frames() == crate::speed::DEFAULT,
            r.view == Some(View::Isometric),
            r.fit,
            r.toolpath == TOOLPATH,
            r.stock == STOCK,
            r.tool == crate::geometry::TOOL,
            !r.left_pressed && !r.right_pressed && !r.middle_pressed,
    {
        Controls {
            interrupt: Some(Interrupt::Start),
            single: SINGLE,
            next_requested: false,
            speed: Speed::default(),
            view: Some(View::default()),
            fit: true,
            toolpath: TOOLPATH,
            stock: STOCK,
            tool: crate::geometry::TOOL,
            left_pressed: false,
            right_pressed: false,
            middle_pressed: false,
        }
    }

    /// Records a mouse button press or release.
    pub fn mouse_button(&mut self, button: MouseButton, pressed: bool)
        ensures
            *final(self) == spec_mouse_button(*old(self), button, pressed),
    {
        match button {
            MouseButton::Left => self.left_pressed = pressed,
            MouseButton::Right => self.right_pressed = pressed,
            MouseButton::Middle => self.middle_pressed = pressed,
            MouseButton::Other => {},
        }
    }

    /// Handles mouse motion: returns how the view moves, if a button is held, and the
    /// change to report to the text interface, if any.
    pub fn mouse_motion(&mut self) -> (r: (Option<Motion>, Option<UserSignal>))
        ensures
            (*final(self), r.0, r.1) == spec_mouse_motion(*old(self)),
    {
        if self.middle_pressed || self.right_pressed {
            let motion = if self.middle_pressed {
                Motion::Orbit
            } else {
                Motion::Spin
            };
            let signal = if self.view.is_some() {
                Some(UserSignal::SetView(None))
            } else {
                None
            };
            self.view = None;
            (Some(motion), signal)
        } else if self.left_pressed {
            let signal = if self.fit {
                Some(UserSignal::SetFit(false))
            } else {
                None
            };
            self.fit = false;
            (Some(Motion::Pan), signal)
        } else {
            (None, None)
        }
    }

    /// Whether a redraw of the running simulation executes a new block.
    pub fn wants_block(&self, proceed: bool) -> (r: bool)
        ensures
            r == spec_wants_block(*self, proceed),
    {
        proceed && (!self.single || self.next_requested)
    }

    /// Plans a frame of the running simulation after its update. In single mode, a drawn
    /// block ends the request for it, and the simulation waits for the next request.
    pub fn after_update(&mut self, proceed: bool, render: bool) -> (r: FramePlan)
        ensures
            (*final(self), r) == spec_after_update(*old(self), proceed, render),
    {
        if proceed && self.single {
            if self.next_requested {
                self.next_requested = false;
                FramePlan { render: true, redraw: false }
            } else {
                FramePlan { render: false, redraw: false }
            }
        } else {
            FramePlan { render, redraw: true }
        }
    }

    /// Records an executed block: an interrupting M-code (`M00`, `M01`, `M30`) pauses the
    /// simulation. Returns the interrupt, if the block caused one.
    pub fn block_executed(&mut self, mcode: Option<MCode>) -> (r: Option<Interrupt>)
        ensures
            r == (match mcode {
                Some(MCode::Stop) => Some(Interrupt::Stop),
                Some(MCode::OptionalStop) => Some(Interrupt::OptionalStop),
                Some(MCode::End) => Some(Interrupt::End),
                _ => None::<Interrupt>,
            }),
            *final(self) == (if r is Some {
                Controls { interrupt: r, ..*old(self) }
            } else {
                *old(self)
            }),
    {
        let r = match mcode {
            Some(m) => Interrupt::of_mcode(m),
            None => None,
        };
        if r.is_some() {
            self.interrupt = r;
        }
        r
    }

    /// Records that no block is left: the program has ended.
    pub fn exhausted(&mut self)
        ensures
            *final(self) == (Controls { interrupt: Some(Interrupt::End), ..*old(self) }),
    {
        self.interrupt = Some(Interrupt::End);
    }

    /// Handles a key event: `pressed` is `true` for a key press, `false` for a release.
    /// Only releases are handled.
    ///
    /// - `Enter` with an interrupt: restarts after the program end, otherwise resumes.
    /// - `Space`: toggles single block execution, resuming when it is turned off.
    /// - `f`: fits the view, unless it already fits.
    /// - `n`: in single mode, requests the next block.
    /// - `p`, `s`, `t`: toggle toolpath, stock and tool visibility.
    /// - `q`: closes the window.
    /// - `v`: switches between the isometric and top views.
    /// - `+`, `-`: change the speed, within its limits.
    #[verifier::rlimit(40)]
    pub fn handle_key(&mut self, key: Key, pressed: bool) -> (r: Response)
        ensures
            (*final(self), r) == spec_key(*old(self), key, pressed),
    {
        let none = Response { render: None, action: None, signal: None };
        if pressed {
            return none;
        }
        match key {
            Key::Enter => match self.interrupt {
                None => none,
                Some(Interrupt::End) => {
                    self.interrupt = Some(Interrupt::Start);
                    Response { render: Some(false), action: Some(Action::Reload), signal: None }
                },
                Some(_) => {
                    self.interrupt = None;
                    Response { render: Some(false), action: Some(Action::Redraw), signal: None }
                },
            },
            Key::Space => {
                self.single = !self.single;
                self.next_requested = false;
                let action = if self.single {
                    None
                } else {
                    Some(Action::Redraw)
                };
                Response {
                    render: Some(false),
                    action,
                    signal: Some(UserSignal::SetSingle(self.single)),
                }
            },
            Key::Char(ch) => {
                if ch == 'f' && !self.fit {
                    self.fit = true;
                    Response {
                        render: Some(true),
                        action: Some(Action::FitView),
                        signal: Some(UserSignal::SetFit(true)),
                    }
                } else if ch == 'n' && self.single {
                    self.next_requested = true;
                    Response { render: Some(true), action: Some(Action::Redraw), signal: None }
                } else if ch == 'p' {
                    self.toolpath = !self.toolpath;
                    Response {
                        render: Some(true),
                        action: None,
                        signal: Some(UserSignal::SetToolpathVisibility(self.toolpath)),
                    }
                } else if ch == 'q' {
                    Response { render: Some(false), action: Some(Action::Exit), signal: None }
                } else if ch == 's' {
                    self.stock = !self.stock;
                    Response {
                        render: Some(true),
                        action: None,
                        signal: Some(UserSignal::SetStockVisibility(self.stock)),
                    }
                } else if ch == 't' {
                    self.tool = !self.tool;
                    Response {
                        render: Some(true),
                        action: None,
                        signal: Some(UserSignal::SetToolVisibility(self.tool)),
                    }
                } else if ch == 'v' {
                    let v = match self.view {
                        Some(View::Isometric) => View::Top,
                        Some(View::Top) => View::Isometric,
                        _ => View::default(),
                    };
                    self.view = Some(v);
                    Response {
                        render: Some(true),
                        action: Some(Action::ShowView(v)),
                        signal: Some(UserSignal::SetView(Some(v))),
                    }
                } else if ch == '+' || ch == '-' {
                    let ghost f = self.speed.frames();
                    let mut speed = self.speed;
                    let changed = if ch == '+' {
                        speed.inc()
                    } else {
                        speed.dec()
                    };
                    if changed {
                        proof {
                            let n = if ch == '+' {
                                spec_inc(f).0
                            } else {
                                spec_dec(f).0
                            };
                            lemma_speed_of(n, speed, speed_of(n));
                        }
                        self.speed = speed;
                        Response {
                            render: Some(false),
                            action: None,
                            signal: Some(UserSignal::SetSpeed(speed)),
                        }
                    } else {
                        none
                    }
                } else {
                    none
                }
            },
            Key::Other => none,
        }
    }
}

/// The toggle keys `p`, `s` and `t` undo themselves: pressing one twice restores every
/// setting.
pub proof fn lemma_toggle_twice(c: Controls, ch: char)
    requires
        ch == 'p' || ch == 's' || ch == 't',
    ensures
        spec_key(spec_key(c, Key::Char(ch), false).0, Key::Char(ch), false).0 == c,
{
}

/// `v` switches between the isometric and the top view: from either, pressing it twice
/// returns to it, and it always selects one of the two.
pub proof fn lemma_view_twice(c: Controls)
    ensures
        c.view == Some(View::Isometric) || c.view == Some(View::Top) ==> spec_key(
            spec_key(c, Key::Char('v'), false).0,
            Key::Char('v'),
            false,
        ).0 == c,
        spec_key(c, Key::Char('v'), false).0.view == Some(View::Isometric) || spec_key(
            c,
            Key::Char('v'),
            false,
        ).0.view == Some(View::Top),
{
}

/// Toggling single block execution twice restores every setting, and leaves no next
/// block requested.
pub proof fn lemma_single_twice(c: Controls)
    ensures
        spec_key(spec_key(c, Key::Space, false).0, Key::Space, false).0 == (Controls {
            next_requested: false,
            ..c
        }),
{
}

/// A speed step that was taken is undone by the opposite key.
pub proof fn lemma_speed_keys_inverse(c: Controls)
    requires
        crate::speed::MIN <= c.speed.frames() <= crate::speed::MAX,
    ensures
        spec_key(c, Key::Char('+'), false).1.render is Some ==> spec_key(
            spec_key(c, Key::Char('+'), false).0,
            Key::Char('-'),
            false,
        ).0 == c,
        spec_key(c, Key::Char('-'), false).1.render is Some ==> spec_key(
            spec_key(c, Key::Char('-'), false).0,
            Key::Char('+'),
            false,
        ).0 == c,
{
    let f = c.speed.frames();
    lemma_speed_of(spec_inc(f).0, c.speed, c.speed);
    lemma_speed_of(spec_dec(f).0, c.speed, c.speed);
    lemma_speed_of(f, speed_of(f), c.speed);
    crate::speed::lemma_inc_dec_inverse(f);
}

/// Key presses change nothing; the next block can only be requested in single mode; and
/// `Enter` ends an interrupt, restarting the program after its end.
pub proof fn lemma_key_rules(c: Controls, key: Key)
    ensures
        spec_key(c, key, true) == (c, unhandled()),
        !c.single ==> spec_key(c, Key::Char('n'), false).0.next_requested == c.next_requested,
        c.interrupt == Some(Interrupt::End) ==> spec_key(c, Key::Enter, false).0.interrupt == Some(
            Interrupt::Start,
        ),
        c.interrupt is Some && c.interrupt != Some(Interrupt::End) ==> spec_key(
            c,
            Key::Enter,
            false,
        ).0.interrupt is None,
{
}

/// The settings shown by the text interface are those of the window.
pub open spec fn mirrors(d: DisplaySettings, c: Controls) -> bool {
    &&& d.view == c.view
    &&& d.fit == c.fit
    &&& d.single == c.single
    &&& d.tool == c.tool
    &&& d.toolpath == c.toolpath
    &&& d.stock == c.stock
    &&& d.speed == c.speed
}

/// The settings shown after a signal, if one was sent.
pub open spec fn after_signal(d: DisplaySettings, signal: Option<UserSignal>) -> DisplaySettings {
    match signal {
        Some(s) => spec_apply(d, s),
        None => d,
    }
}

/// Both interfaces stay in sync: when the text interface shows the window's settings and
/// applies the signal that the window sends for a key, a mouse button, a mouse motion or
/// a frame, it shows the window's new settings.
pub proof fn lemma_interfaces_in_sync(
    d: DisplaySettings,
    c: Controls,
    key: Key,
    pressed: bool,
    button: MouseButton,
    proceed: bool,
    render: bool,
)
    requires
        mirrors(d, c),
    ensures
        mirrors(
            after_signal(d, spec_key(c, key, pressed).1.signal),
            spec_key(c, key, pressed).0,
        ),
        mirrors(d, spec_mouse_button(c, button, pressed)),
        mirrors(after_signal(d, spec_mouse_motion(c).2), spec_mouse_motion(c).0),
        mirrors(d, spec_after_update(c, proceed, render).0),
{
}

/// The settings of a new window and of a new text interface agree.
pub proof fn lemma_start_in_sync(d: DisplaySettings, c: Controls)
    requires
        d.view == Some(View::Isometric) && d.fit && d.single == SINGLE && d.tool
            == crate::geometry::TOOL && d.toolpath == TOOLPATH && d.stock == STOCK,
        c.view == Some(View::Isometric) && c.fit && c.single == SINGLE && c.tool
            == crate::geometry::TOOL && c.toolpath == TOOLPATH && c.stock == STOCK,
        d.speed.frames() == c.speed.frames(),
    ensures
        mirrors(d, c),
{
    lemma_speed_of(0, d.speed, c.speed);
}

} // verus!
