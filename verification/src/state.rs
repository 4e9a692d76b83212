//! Program state shared by the text interface: the left view, the cycle interrupts, and
//! input errors.
use vstd::prelude::*;
use crate::describe::{Describe, Description};
use vstd::view::View as _;
use crate::gcode::MCode;

verus! {

/// The types of view possible on the left section.
/// Right section always previews the raw code.
#[derive(Clone, Copy, Debug, PartialEq, Eq, Structural)]
pub enum View {
    /// Only print text description of each block.
    Text,
    /// Simulate `X` & `Y` axes of the machine, from **top view**.
    Plane,
    /// Simulate all three axes, from **isometric view**.
    Isometric,
}

impl Default for View {
    fn default() -> (r: Self)
        ensures
            r == View::Text,
    {
        View::Text
    }
}

/// Program cycle interruptions that need user input to resume the cycle.
#[derive(Clone, Copy, Debug, PartialEq, Eq, Structural)]
pub enum Interrupt {
    /// Confirm program start or restart.
    Start,
    /// M00 program stop detected.
    Stop,
    /// M01 optional program stop detected.
    OptionalStop,
    /// M30 Program end detected.
    End,
}

impl Interrupt {
    /// The interrupt an M-code causes: `M00` stops, `M01` stops optionally, `M30` ends the
    /// program; other M-codes cause none.
    pub fn of_mcode(m: MCode) -> (r: Option<Interrupt>)
        ensures
            r == match m {
                MCode::Stop => Some(Interrupt::Stop),
                MCode::OptionalStop => Some(Interrupt::OptionalStop),
                MCode::End => Some(Interrupt::End),
                _ => None::<Interrupt>,
            },
    {
        match m {
            MCode::Stop => Some(Interrupt::Stop),
            MCode::OptionalStop => Some(Interrupt::OptionalStop),
            MCode::End => Some(Interrupt::End),
            _ => None,
        }
    }

    /// The name of the interrupt, as it is displayed.
    pub fn label(&self) -> (r: &'static str)
        ensures
            r@ == interrupt_label(*self),
    {
        match self {
            Interrupt::Start => "START",
            Interrupt::Stop => "STOP",
            Interrupt::OptionalStop => "OPTIONAL STOP",
            Interrupt::End => "END",
        }
    }
}

/// The displayed name of an interrupt.
pub open spec fn interrupt_label(i: Interrupt) -> Seq<char> {
    match i {
        Interrupt::Start => "START"@,
        Interrupt::Stop => "STOP"@,
        Interrupt::OptionalStop => "OPTIONAL STOP"@,
        Interrupt::End => "END"@,
    }
}

/// Possible errors that can happen during event reading.
#[derive(Debug)]
pub enum AppError {
    IO(std::io::Error),
}

impl Describe for AppError {
    /// Titled as an event read error, with the message of the I/O error.
    fn describe(&self) -> (r: Description)
        ensures
            r.spec_title() == "Event Read Error Detected"@,
    {
        match self {
            AppError::IO(error) => Description::new("Event Read Error Detected", error.to_string()),
        }
    }
}

/// A key of the terminal, as the text interface tells keys apart.
#[derive(Clone, Copy, Debug, PartialEq, Eq, Structural)]
pub enum TermKey {
    Enter,
    /// A key that types a character.
    Char(char),
    /// Any other key.
    Other,
}

/// What the text interface does after a key.
#[derive(Clone, Copy, Debug, PartialEq, Eq, Structural)]
pub enum Step {
    /// Wait for the next key.
    Wait,
    /// Leave the program.
    Quit,
    /// Execute the next block.
    Execute,
    /// Restart the program from its first block.
    Reload,
    /// Leave the program, reporting the error that stopped it.
    Fail,
}

/// How the execution of a block ended.
#[derive(Clone, Copy, Debug, PartialEq, Eq, Structural)]
pub enum Executed {
    /// The block was executed.
    Block,
    /// No block was left.
    Exhausted,
    /// The block could not be executed.
    Failed,
}

/// The state of the text interface's program cycle.
#[derive(Clone, Copy, Debug, PartialEq, Eq, Structural)]
pub struct Cycle {
    /// The view on the left section.
    pub view: View,
    /// Single step through code blocks.
    pub single: bool,
    /// `None` while the program runs.
    pub interrupt: Option<Interrupt>,
    /// A block could not be executed; the error waits to be reported.
    pub failed: bool,
}

/// The view after `v`: text, plane, isometric, and back to text.
pub open spec fn spec_next_view(v: View) -> View {
    match v {
        View::Text => View::Plane,
        View::Plane => View::Isometric,
        View::Isometric => View::Text,
    }
}

/// Whether the cycle executes blocks without waiting for a key: not in single mode, not
/// interrupted and not failed.
pub open spec fn spec_runs_on(c: Cycle) -> bool {
    !c.single && c.interrupt is None && !c.failed
}

/// The cycle after a key, and the step to take.
pub open spec fn spec_cycle_key(c: Cycle, key: TermKey) -> (Cycle, Step) {
    if c.failed {
        (c, if key == TermKey::Enter { Step::Fail } else { Step::Wait })
    } else {
        match key {
            TermKey::Char('Q') => (c, Step::Quit),
            TermKey::Char('v') => (Cycle { view: spec_next_view(c.view), ..c }, Step::Wait),
            TermKey::Char('s') => (Cycle { single: !c.single, ..c }, Step::Wait),
            TermKey::Char('n') => if c.interrupt is None {
                (c, Step::Execute)
            } else {
                (c, Step::Wait)
            },
            TermKey::Enter => match c.interrupt {
                Some(Interrupt::End) => (Cycle { interrupt: Some(Interrupt::Start), ..c }, Step::Reload),
                Some(Interrupt::Start) => (Cycle { interrupt: None, ..c }, Step::Execute),
                Some(_) => (Cycle { interrupt: None, ..c }, Step::Wait),
                None => (c, Step::Wait),
            },
            _ => (c, Step::Wait),
        }
    }
}

/// The cycle after a block execution ended.
pub open spec fn spec_executed(c: Cycle, e: Executed) -> Cycle {
    match e {
        Executed::Block => c,
        Executed::Exhausted => Cycle { interrupt: Some(Interrupt::End), ..c },
        Executed::Failed => Cycle { failed: true, ..c },
    }
}

impl Cycle {
    /// The cycle at start: text view, continuous execution, waiting for the start
    /// confirmation.
    pub fn new() -> (r: Self)
        ensures
            r == (Cycle { view: View::Text, single: false, interrupt: Some(Interrupt::Start), failed: false }),
    {
        Cycle { view: View::default(), single: false, interrupt: Some(Interrupt::Start), failed: false }
    }

    /// Whether blocks are executed without waiting for a key.
    pub fn runs_on(&self) -> (r: bool)
        ensures
            r == spec_runs_on(*self),
    {
        !self.single && self.interrupt.is_none() && !self.failed
    }

    /// Handles a key, returning the step to take.
    ///
    /// After a failure only `Enter` does something: it reports the error. Otherwise `Q`
    /// quits, `v` switches the view, `s` toggles single mode, `n` executes the next block
    /// while no interrupt is pending, and `Enter` ends an interrupt: restarting after the
    /// program end, and executing the first block after the start confirmation.
    pub fn handle_key(&mut self, key: TermKey) -> (r: Step)
        ensures
            (*final(self), r) == spec_cycle_key(*old(self), key),
    {
        if self.failed {
            return match key {
                TermKey::Enter => Step::Fail,
                _ => Step::Wait,
            };
        }
        match key {
            TermKey::Char('Q') => Step::Quit,
            TermKey::Char('v') => {
                self.view = match self.view {
                    View::Text => View::Plane,
                    View::Plane => View::Isometric,
                    View::Isometric => View::Text,
                };
                Step::Wait
            },
            TermKey::Char('s') => {
                self.single = !self.single;
                Step::Wait
            },
            TermKey::Char('n') => if self.interrupt.is_none() {
                Step::Execute
            } else {
                Step::Wait
            },
            TermKey::Enter => match self.interrupt {
                Some(Interrupt::End) => {
                    self.interrupt = Some(Interrupt::Start);
                    Step::Reload
                },
                Some(Interrupt::Start) => {
                    self.interrupt = None;
                    Step::Execute
                },
                Some(_) => {
                    self.interrupt = None;
                    Step::Wait
                },
                None => Step::Wait,
            },
            _ => Step::Wait,
        }
    }

    /// Records how a block execution ended: running out of blocks ends the program, and a
    /// failure stops the cycle.
    pub fn executed(&mut self, e: Executed)
        ensures
            *final(self) == spec_executed(*old(self), e),
    {
        match e {
            Executed::Block => {},
            Executed::Exhausted => self.interrupt = Some(Interrupt::End),
            Executed::Failed => self.failed = true,
        }
    }
}

/// The view key cycles through the three views, and the single key undoes itself.
pub proof fn lemma_cycle_toggles(c: Cycle)
    requires
        !c.failed,
    ensures
        spec_cycle_key(
            spec_cycle_key(spec_cycle_key(c, TermKey::Char('v')).0, TermKey::Char('v')).0,
            TermKey::Char('v'),
        ).0 == c,
        spec_cycle_key(spec_cycle_key(c, TermKey::Char('s')).0, TermKey::Char('s')).0 == c,
{
}

/// A failed cycle stays failed and waits for `Enter` to report the error; a running cycle
/// never executes a block while an interrupt is pending, and always quits on `Q`.
pub proof fn lemma_cycle_rules(c: Cycle, key: TermKey)
    ensures
        c.failed ==> spec_cycle_key(c, key).0 == c && (spec_cycle_key(c, key).1 == Step::Fail
            <==> key == TermKey::Enter),
        spec_cycle_key(c, key).1 == Step::Execute ==> spec_cycle_key(c, key).0.interrupt is None,
        !c.failed ==> spec_cycle_key(c, TermKey::Char('Q')).1 == Step::Quit,
{
}

} // verus!
