//! # Interpreter
//!
//! Plans the execution of each parsed block on the machine: which machine command each
//! G-code, M-code and auxiliary code becomes, in the order the machine receives them, which
//! codes a block may not hold, and the modal move that coordinates written without a
//! motion G-code make.
//!
//! The machine itself does the geometric work. It receives the commands in order, may
//! reject one (the block then stops there), and tells the motion mode in effect, which
//! [`plan_excess`] needs for a modal move.
use vstd::prelude::*;
use crate::config::Unit;
use crate::decimal::Decimal;
use crate::gcode::{GCode, MCode};
use crate::panel::{BlockSummary, summary_codes};
use crate::parser::{
    CircleMethod, Code, CodeBlock, Codes, ParsedBlock, Parser, ParserError, PartialPoint, Plane,
    empty_codes, spec_codes_next, spec_parse_line, spec_take_circular, spec_xyz, without_xyz,
};

pub mod laws;

verus! {

/// Direction of a circular motion, seen from above the plane.
#[derive(Clone, Copy, Debug, PartialEq, Eq, Structural)]
pub enum CircularDirection {
    Clockwise,
    CounterClockwise,
}

/// Side of a cutter or direction of a tool length compensation.
#[derive(Clone, Copy, Debug, PartialEq, Eq, Structural)]
pub enum Direction {
    Left,
    Right,
    Up,
    Down,
}

/// How coordinates are read.
#[derive(Clone, Copy, Debug, PartialEq, Eq, Structural)]
pub enum Positioning {
    Absolute,
    Incremental,
}

/// How feed rates are read.
#[derive(Clone, Copy, Debug, PartialEq, Eq, Structural)]
pub enum FeedMode {
    PerMinute,
    PerRev,
}

/// Where canned cycles return to.
#[derive(Clone, Copy, Debug, PartialEq, Eq, Structural)]
pub enum ReturnLevel {
    Initial,
    Retract,
}

/// The modal motion of the machine, which coordinates without a motion G-code follow.
#[derive(Clone, Copy, Debug, PartialEq, Eq, Structural)]
pub enum Motion {
    Rapid,
    Feed,
    Arc(CircularDirection),
}

/// A command for the machine.
#[derive(Clone, Copy, Debug, PartialEq, Eq, Structural)]
pub enum MachineCommand {
    /// Move at rapid rate.
    RapidMove(PartialPoint),
    /// Move at the feed rate, with a new feed rate if given.
    FeedMove(PartialPoint, Option<Decimal>),
    /// Move on an arc.
    ArcMove(PartialPoint, CircleMethod, CircularDirection, Option<Decimal>),
    /// Move in machine coordinates.
    MoveMachinePos(PartialPoint),
    SetPlane(Plane),
    SetCodeUnits(Unit),
    CancelDiaOffset,
    SetDiaOffset(u32, Direction),
    SetHeightOffset(u32, Direction),
    CancelHeightOffset,
    CancelCanned,
    SetPositioning(Positioning),
    SetFeedMode(FeedMode),
    SetReturnLevel(ReturnLevel),
    SpindleOn(CircularDirection, Option<u32>),
    SpindleOff,
    ToolChange(Option<u32>),
    SetCoolant(bool),
    /// Back to the state at program start.
    Reset,
    SetFeed(Decimal),
    SetSpeed(u32),
    SetNextTool(u32),
}

/// Why a block cannot be executed.
#[derive(Clone, Copy, Debug, PartialEq, Eq, Structural)]
pub enum InterpreterError {
    /// The block did not parse, or its modal arc is not valid.
    Parser(ParserError),
    /// A code of the block was not consumed by any G-code or M-code.
    ExcessCode(u8),
}

/// The machine command of a G-code; G04 (dwell) and G54 (work coordinates) have none.
pub open spec fn gcode_command(g: GCode) -> Option<MachineCommand> {
    match g {
        GCode::RapidMove(pos) => Some(MachineCommand::RapidMove(pos)),
        GCode::FeedMove { pos, feed } => Some(MachineCommand::FeedMove(pos, feed)),
        GCode::CWArcMove { pos, method, feed } => Some(
            MachineCommand::ArcMove(pos, method, CircularDirection::Clockwise, feed),
        ),
        GCode::CCWArcMove { pos, method, feed } => Some(
            MachineCommand::ArcMove(pos, method, CircularDirection::CounterClockwise, feed),
        ),
        GCode::Dwell(_) => None,
        GCode::XYPlane => Some(MachineCommand::SetPlane(Plane::XY)),
        GCode::XZPlane => Some(MachineCommand::SetPlane(Plane::XZ)),
        GCode::YZPlane => Some(MachineCommand::SetPlane(Plane::YZ)),
        GCode::ImperialMode => Some(MachineCommand::SetCodeUnits(Unit::Imperial)),
        GCode::MetricMode => Some(MachineCommand::SetCodeUnits(Unit::Metric)),
        GCode::CancelCutterComp => Some(MachineCommand::CancelDiaOffset),
        GCode::LeftCutterComp(d) => Some(MachineCommand::SetDiaOffset(d, Direction::Left)),
        GCode::RightCutterComp(d) => Some(MachineCommand::SetDiaOffset(d, Direction::Right)),
        GCode::ToolLenCompAdd(h) => Some(MachineCommand::SetHeightOffset(h, Direction::Up)),
        GCode::ToolLenCompSubtract(h) => Some(MachineCommand::SetHeightOffset(h, Direction::Down)),
        GCode::CancelLenComp => Some(MachineCommand::CancelHeightOffset),
        GCode::MachineCoord(pos) => Some(MachineCommand::MoveMachinePos(pos)),
        GCode::WorkCoord => None,
        GCode::CancelCanned => Some(MachineCommand::CancelCanned),
        GCode::AbsoluteMode => Some(MachineCommand::SetPositioning(Positioning::Absolute)),
        GCode::IncrementalMode => Some(MachineCommand::SetPositioning(Positioning::Incremental)),
        GCode::FeedMinute => Some(MachineCommand::SetFeedMode(FeedMode::PerMinute)),
        GCode::FeedRev => Some(MachineCommand::SetFeedMode(FeedMode::PerRev)),
        GCode::InitialReturn => Some(MachineCommand::SetReturnLevel(ReturnLevel::Initial)),
        GCode::RetractReturn => Some(MachineCommand::SetReturnLevel(ReturnLevel::Retract)),
    }
}

/// The machine command of an M-code; the stops (M00, M01) have none, the program end
/// (M30) resets the machine.
pub open spec fn mcode_command(m: MCode) -> Option<MachineCommand> {
    match m {
        MCode::Stop | MCode::OptionalStop => None,
        MCode::SpindleFwd(s) => Some(MachineCommand::SpindleOn(CircularDirection::Clockwise, s)),
        MCode::SpindleRev(s) => Some(
            MachineCommand::SpindleOn(CircularDirection::CounterClockwise, s),
        ),
        MCode::SpindleStop => Some(MachineCommand::SpindleOff),
        MCode::ToolChange(t) => Some(MachineCommand::ToolChange(t)),
        MCode::CoolantOn => Some(MachineCommand::SetCoolant(true)),
        MCode::CoolantOff => Some(MachineCommand::SetCoolant(false)),
        MCode::End => Some(MachineCommand::Reset),
    }
}

pub open spec fn opt_seq(o: Option<MachineCommand>) -> Seq<MachineCommand> {
    match o {
        Some(c) => seq![c],
        None => Seq::empty(),
    }
}

/// The commands of G-codes `hs`, in their order.
pub open spec fn gcode_commands(hs: Seq<GCode>) -> Seq<MachineCommand>
    decreases hs.len(),
{
    if hs.len() == 0 {
        Seq::empty()
    } else {
        gcode_commands(hs.drop_last()) + opt_seq(gcode_command(hs.last()))
    }
}

/// The coordinate codes of `c`, which only a move consumes: I, J, K, R, X, Y, Z.
pub open spec fn coordinate_codes(c: Codes) -> Codes {
    Codes { i: c.i, j: c.j, k: c.k, r: c.r, x: c.x, y: c.y, z: c.z, ..empty_codes() }
}

/// What the codes left in a parsed block do, read in the order D, F, H, I, J, K, N, O, P,
/// Q, R, S, T, X, Y, Z: the commands they give (feed, spindle speed, next tool), the codes
/// the summary lists, the coordinate codes left for a modal move, and the error that stops
/// the block. D, H, P and Q are consumed only by G-codes; one left over is an error, after
/// the commands of the codes read before it.
pub open spec fn spec_code_steps(c: Codes) -> (Seq<MachineCommand>, Seq<Code>, Codes, Option<InterpreterError>) {
    let feed: Seq<MachineCommand> = match c.f {
        Some(f) => seq![MachineCommand::SetFeed(f)],
        None => Seq::empty(),
    };
    let speed: Seq<MachineCommand> = match c.s {
        Some(s) => seq![MachineCommand::SetSpeed(s)],
        None => Seq::empty(),
    };
    let tool: Seq<MachineCommand> = match c.t {
        Some(t) => seq![MachineCommand::SetNextTool(t)],
        None => Seq::empty(),
    };
    if c.d is Some {
        (Seq::empty(), Seq::empty(), empty_codes(), Some(InterpreterError::ExcessCode('D' as u8)))
    } else if c.h is Some {
        (feed, Seq::empty(), empty_codes(), Some(InterpreterError::ExcessCode('H' as u8)))
    } else if c.p is Some {
        (feed, Seq::empty(), empty_codes(), Some(InterpreterError::ExcessCode('P' as u8)))
    } else if c.q is Some {
        (feed, Seq::empty(), empty_codes(), Some(InterpreterError::ExcessCode('Q' as u8)))
    } else {
        (feed + speed + tool, summary_codes(c), coordinate_codes(c), None)
    }
}

/// The plan of a parsed block, before any modal move: its commands (those of its G-codes in
/// the order the block hands them out, last first, then of its M-code, then of its other
/// codes), the error that stops it after them, the G-codes, M-code and codes its summary
/// lists, and the coordinate codes left for a modal move.
pub open spec fn spec_plan_block(b: ParsedBlock) -> (Seq<MachineCommand>, Option<InterpreterError>, Seq<GCode>, Option<MCode>, Seq<Code>, Codes) {
    let (gs, m, c) = b;
    let (ccmds, codes, excess, err) = spec_code_steps(c);
    let mcmds = match m {
        Some(x) => opt_seq(mcode_command(x)),
        None => Seq::empty(),
    };
    (gcode_commands(gs.reverse()) + mcmds + ccmds, err, gs.reverse(), m, codes, excess)
}

/// The plan of a block.
#[derive(Debug)]
pub struct Plan {
    /// Machine commands, in the order the machine receives them.
    pub commands: Vec<MachineCommand>,
    /// The error that stops the block once its commands are executed.
    pub error: Option<InterpreterError>,
    /// What the block summary lists.
    pub summary: BlockSummary,
    /// Coordinate codes left for a modal move (see [`plan_excess`]).
    pub excess: Codes,
}

/// The plan as plain values.
pub open spec fn plan_view(p: Plan) -> (Seq<MachineCommand>, Option<InterpreterError>, Seq<GCode>, Option<MCode>, Seq<Code>, Codes) {
    (p.commands@, p.error, p.summary.gcodes@, p.summary.mcode, p.summary.codes@, p.excess)
}

fn gcode_command_exec(g: &GCode) -> (r: Option<MachineCommand>)
    ensures
        r == gcode_command(*g),
{
    match g {
        GCode::RapidMove(pos) => Some(MachineCommand::RapidMove(*pos)),
        GCode::FeedMove { pos, feed } => Some(MachineCommand::FeedMove(*pos, *feed)),
        GCode::CWArcMove { pos, method, feed } => Some(
            MachineCommand::ArcMove(*pos, *method, CircularDirection::Clockwise, *feed),
        ),
        GCode::CCWArcMove { pos, method, feed } => Some(
            MachineCommand::ArcMove(*pos, *method, CircularDirection::CounterClockwise, *feed),
        ),
        GCode::Dwell(_) => None,
        GCode::XYPlane => Some(MachineCommand::SetPlane(Plane::XY)),
        GCode::XZPlane => Some(MachineCommand::SetPlane(Plane::XZ)),
        GCode::YZPlane => Some(MachineCommand::SetPlane(Plane::YZ)),
        GCode::ImperialMode => Some(MachineCommand::SetCodeUnits(Unit::Imperial)),
        GCode::MetricMode => Some(MachineCommand::SetCodeUnits(Unit::Metric)),
        GCode::CancelCutterComp => Some(MachineCommand::CancelDiaOffset),
        GCode::LeftCutterComp(d) => Some(MachineCommand::SetDiaOffset(*d, Direction::Left)),
        GCode::RightCutterComp(d) => Some(MachineCommand::SetDiaOffset(*d, Direction::Right)),
        GCode::ToolLenCompAdd(h) => Some(MachineCommand::SetHeightOffset(*h, Direction::Up)),
        GCode::ToolLenCompSubtract(h) => Some(MachineCommand::SetHeightOffset(*h, Direction::Down)),
        GCode::CancelLenComp => Some(MachineCommand::CancelHeightOffset),
        GCode::MachineCoord(pos) => Some(MachineCommand::MoveMachinePos(*pos)),
        GCode::WorkCoord => None,
        GCode::CancelCanned => Some(MachineCommand::CancelCanned),
        GCode::AbsoluteMode => Some(MachineCommand::SetPositioning(Positioning::Absolute)),
        GCode::IncrementalMode => Some(MachineCommand::SetPositioning(Positioning::Incremental)),
        GCode::FeedMinute => Some(MachineCommand::SetFeedMode(FeedMode::PerMinute)),
        GCode::FeedRev => Some(MachineCommand::SetFeedMode(FeedMode::PerRev)),
        GCode::InitialReturn => Some(MachineCommand::SetReturnLevel(ReturnLevel::Initial)),
        GCode::RetractReturn => Some(MachineCommand::SetReturnLevel(ReturnLevel::Retract)),
    }
}

fn mcode_command_exec(m: &MCode) -> (r: Option<MachineCommand>)
    ensures
        r == mcode_command(*m),
{
    match m {
        MCode::Stop | MCode::OptionalStop => None,
        MCode::SpindleFwd(s) => Some(MachineCommand::SpindleOn(CircularDirection::Clockwise, *s)),
        MCode::SpindleRev(s) => Some(
            MachineCommand::SpindleOn(CircularDirection::CounterClockwise, *s),
        ),
        MCode::SpindleStop => Some(MachineCommand::SpindleOff),
        MCode::ToolChange(t) => Some(MachineCommand::ToolChange(*t)),
        MCode::CoolantOn => Some(MachineCommand::SetCoolant(true)),
        MCode::CoolantOff => Some(MachineCommand::SetCoolant(false)),
        MCode::End => Some(MachineCommand::Reset),
    }
}

fn push_opt(v: &mut Vec<MachineCommand>, o: Option<MachineCommand>)
    ensures
        final(v)@ == old(v)@ + opt_seq(o),
{
    if let Some(c) = o {
        v.push(c);
    }
    assert(v@ =~= old(v)@ + opt_seq(o));
}

/// The steps of the codes left in a block, as [`spec_code_steps`] describes them.
fn code_steps(c: &Codes, commands: &mut Vec<MachineCommand>) -> (r: (Vec<Code>, Codes, Option<InterpreterError>))
    ensures
        ({
            let (cmds, codes, excess, err) = spec_code_steps(*c);
            &&& final(commands)@ == old(commands)@ + cmds
            &&& r.0@ == codes
            &&& r.1 == excess
            &&& r.2 == err
        }),
{
    let none: Vec<Code> = Vec::new();
    if c.d.is_some() {
        assert(old(commands)@ + Seq::<MachineCommand>::empty() =~= old(commands)@);
        return (none, Codes::new(), Some(InterpreterError::ExcessCode('D' as u8)));
    }
    if let Some(f) = c.f {
        commands.push(MachineCommand::SetFeed(f));
    }
    let ghost after_feed = commands@;
    if c.h.is_some() {
        assert(commands@ =~= old(commands)@ + spec_code_steps(*c).0);
        return (none, Codes::new(), Some(InterpreterError::ExcessCode('H' as u8)));
    }
    if c.p.is_some() {
        assert(commands@ =~= old(commands)@ + spec_code_steps(*c).0);
        return (none, Codes::new(), Some(InterpreterError::ExcessCode('P' as u8)));
    }
    if c.q.is_some() {
        assert(commands@ =~= old(commands)@ + spec_code_steps(*c).0);
        return (none, Codes::new(), Some(InterpreterError::ExcessCode('Q' as u8)));
    }
    if let Some(s) = c.s {
        commands.push(MachineCommand::SetSpeed(s));
    }
    if let Some(t) = c.t {
        commands.push(MachineCommand::SetNextTool(t));
    }
    assert(commands@ =~= old(commands)@ + spec_code_steps(*c).0);
    let mut codes: Vec<Code> = Vec::new();
    if let Some(v) = c.f {
        codes.push(Code::F(v));
    }
    if let Some(v) = c.n {
        codes.push(Code::N(v));
    }
    if let Some(v) = c.o {
        codes.push(Code::O(v));
    }
    if let Some(v) = c.s {
        codes.push(Code::S(v));
    }
    if let Some(v) = c.t {
        codes.push(Code::T(v));
    }
    assert(codes@ =~= summary_codes(*c));
    let mut excess = Codes::new();
    excess.i = c.i;
    excess.j = c.j;
    excess.k = c.k;
    excess.r = c.r;
    excess.x = c.x;
    excess.y = c.y;
    excess.z = c.z;
    (codes, excess, None)
}

/// Plans the execution of a parsed block, as [`spec_plan_block`] describes it.
pub fn plan_block(block: CodeBlock) -> (r: Plan)
    ensures
        plan_view(r) == spec_plan_block(block.view_block()),
{
    let ghost v = block.view_block();
    let mut block = block;
    let c: Codes = *block.codes();
    let summary = block.summary();
    let mut commands: Vec<MachineCommand> = Vec::new();
    let mut i: usize = 0;
    let ghost hs = summary.gcodes@;
    assert(hs.take(0) =~= Seq::<GCode>::empty());
    while i < summary.gcodes.len()
        invariant
            i <= summary.gcodes.len(),
            hs == summary.gcodes@,
            commands@ == gcode_commands(hs.take(i as int)),
        decreases summary.gcodes.len() - i,
    {
        let o = gcode_command_exec(&summary.gcodes[i]);
        push_opt(&mut commands, o);
        proof {
            assert(hs.take(i + 1).drop_last() =~= hs.take(i as int));
            assert(hs.take(i + 1).last() == hs[i as int]);
        }
        i = i + 1;
    }
    assert(hs.take(hs.len() as int) =~= hs);
    match summary.mcode {
        Some(m) => push_opt(&mut commands, mcode_command_exec(&m)),
        None => {},
    }
    assert(commands@ =~= gcode_commands(v.0.reverse()) + match v.1 {
        Some(x) => opt_seq(mcode_command(x)),
        None => Seq::<MachineCommand>::empty(),
    });
    let (codes, excess, error) = code_steps(&c, &mut commands);
    let summary = BlockSummary { gcodes: summary.gcodes, mcode: summary.mcode, codes };
    Plan { commands, error, summary, excess }
}

/// Whether `c` holds a coordinate code, which makes a modal move.
pub open spec fn has_coordinates(c: Codes) -> bool {
    c.i is Some || c.j is Some || c.k is Some || c.r is Some || c.x is Some || c.y is Some
        || c.z is Some
}

/// The error for codes a move leaves: the first of them, as an excess code.
pub open spec fn leftover_error(c: Codes) -> Option<InterpreterError> {
    match spec_codes_next(c).1 {
        Some(code) => Some(InterpreterError::ExcessCode(code.spec_prefix())),
        None => None,
    }
}

/// The modal move that coordinate codes left in a block make under the machine's motion
/// mode: the command, the G-code the summary lists for it, and the error that stops the
/// block. A rapid or feed move takes X, Y, Z; an arc also takes its center or radius, and
/// an invalid arc stops the block before any move. Codes the move leaves are an error,
/// after the move. Without coordinate codes there is no move.
pub open spec fn spec_plan_excess(c: Codes, motion: Motion) -> (Option<MachineCommand>, Option<GCode>, Option<InterpreterError>) {
    if !has_coordinates(c) {
        (None, None, None)
    } else {
        match motion {
            Motion::Rapid => (
                Some(MachineCommand::RapidMove(spec_xyz(c))),
                Some(GCode::RapidMove(spec_xyz(c))),
                leftover_error(without_xyz(c)),
            ),
            Motion::Feed => (
                Some(MachineCommand::FeedMove(spec_xyz(c), None)),
                Some(GCode::FeedMove { pos: spec_xyz(c), feed: None }),
                leftover_error(without_xyz(c)),
            ),
            Motion::Arc(dir) => {
                let (rest, r) = spec_take_circular(c);
                match r {
                    Err(e) => (None, None, Some(InterpreterError::Parser(e))),
                    Ok((pos, method, feed)) => (
                        Some(MachineCommand::ArcMove(pos, method, dir, feed)),
                        Some(
                            match dir {
                                CircularDirection::Clockwise => GCode::CWArcMove { pos, method, feed },
                                CircularDirection::CounterClockwise => GCode::CCWArcMove {
                                    pos,
                                    method,
                                    feed,
                                },
                            },
                        ),
                        leftover_error(rest),
                    ),
                }
            },
        }
    }
}

fn leftover(c: &mut Codes) -> (r: Option<InterpreterError>)
    ensures
        r == leftover_error(*old(c)),
{
    match c.next() {
        Some(code) => Some(InterpreterError::ExcessCode(code.prefix())),
        None => None,
    }
}

/// The motion mode after `command`: that of a rapid, feed or arc move; any other command
/// keeps `motion`.
pub open spec fn spec_motion_after(motion: Motion, command: MachineCommand) -> Motion {
    match command {
        MachineCommand::RapidMove(_) => Motion::Rapid,
        MachineCommand::FeedMove(..) => Motion::Feed,
        MachineCommand::ArcMove(_, _, dir, _) => Motion::Arc(dir),
        _ => motion,
    }
}

/// The motion mode that coordinates without a motion G-code follow after `command` is sent.
pub fn motion_after(motion: Motion, command: &MachineCommand) -> (r: Motion)
    ensures
        r == spec_motion_after(motion, *command),
{
    match command {
        MachineCommand::RapidMove(_) => Motion::Rapid,
        MachineCommand::FeedMove(..) => Motion::Feed,
        MachineCommand::ArcMove(_, _, dir, _) => Motion::Arc(*dir),
        _ => motion,
    }
}

/// Plans the modal move of the coordinate codes `excess` under the machine's `motion`, as
/// [`spec_plan_excess`] describes it.
pub fn plan_excess(excess: Codes, motion: Motion) -> (r: (Option<MachineCommand>, Option<GCode>, Option<InterpreterError>))
    ensures
        r == spec_plan_excess(excess, motion),
{
    let mut c = excess;
    if !(c.i.is_some() || c.j.is_some() || c.k.is_some() || c.r.is_some() || c.x.is_some()
        || c.y.is_some() || c.z.is_some()) {
        return (None, None, None);
    }
    match motion {
        Motion::Rapid => {
            let pos = c.take_partial_point();
            let err = leftover(&mut c);
            (Some(MachineCommand::RapidMove(pos)), Some(GCode::RapidMove(pos)), err)
        },
        Motion::Feed => {
            let pos = c.take_partial_point();
            let err = leftover(&mut c);
            (Some(MachineCommand::FeedMove(pos, None)), Some(GCode::FeedMove { pos, feed: None }), err)
        },
        Motion::Arc(dir) => match c.take_circular() {
            Err(e) => (None, None, Some(InterpreterError::Parser(e))),
            Ok((pos, method, feed)) => {
                let err = leftover(&mut c);
                let g = match dir {
                    CircularDirection::Clockwise => GCode::CWArcMove { pos, method, feed },
                    CircularDirection::CounterClockwise => GCode::CCWArcMove { pos, method, feed },
                };
                (Some(MachineCommand::ArcMove(pos, method, dir, feed)), Some(g), err)
            },
        },
    }
}

/// Plans the parsed blocks of a [`Parser`], one per source line, on request.
pub struct Interpreter {
    parser: Parser,
}

impl Interpreter {
    /// The parser of the blocks.
    pub closed spec fn parser(&self) -> Parser {
        self.parser
    }

    /// Constructs an [`Interpreter`] over `parser`; no block is parsed yet.
    pub fn new(parser: Parser) -> (r: Self)
        ensures
            r.parser() == parser,
    {
        Interpreter { parser }
    }

    /// Restarts from the first block of the source, which is not read again.
    pub fn reload(&mut self)
        ensures
            final(self).parser().lexer().source().lines() == old(self).parser().lexer().source().lines(),
            final(self).parser().lexer().source().spec_index() == 0,
    {
        self.parser.reload();
    }

    /// **Optionally** returns the line at `index` of the source.
    pub fn get_line(&self, index: usize) -> (r: Option<&str>)
        ensures
            r is Some <==> index < self.parser().lexer().source().lines().len(),
            r matches Some(s) ==> s@ == self.parser().lexer().source().lines()[index as int],
    {
        self.parser.get_line(index)
    }

    /// Parses and plans the next block: `None` when every line was read, otherwise the
    /// [`Plan`] of the block or the parse error that stops it.
    pub fn next_plan(&mut self) -> (r: Option<Result<Plan, InterpreterError>>)
        ensures
            final(self).parser().lexer().source().lines() == old(self).parser().lexer().source().lines(),
            ({
                let src = old(self).parser().lexer().source();
                let i = src.spec_index();
                if i < src.lines().len() {
                    &&& final(self).parser().lexer().source().spec_index() == i + 1
                    &&& r is Some
                    &&& match spec_parse_line(src.lines()[i as int]) {
                        Ok(v) => r->0 is Ok && plan_view(r->0->Ok_0) == spec_plan_block(v),
                        Err(e) => r->0 == Err::<Plan, InterpreterError>(InterpreterError::Parser(e)),
                    }
                } else {
                    &&& final(self).parser().lexer().source().spec_index() == i
                    &&& r is None
                }
            }),
    {
        match self.parser.next() {
            None => None,
            Some(Err(e)) => Some(Err(InterpreterError::Parser(e))),
            Some(Ok(block)) => Some(Ok(plan_block(block))),
        }
    }
}

/// D, H, P and Q words are never dropped: the codes left in a parsed block stop it exactly
/// when one of them is there, naming the first in the order D, H, P, Q; otherwise the
/// coordinate codes are all left for the modal move, and no other code is.
pub proof fn lemma_code_steps(c: Codes)
    ensures
        (spec_code_steps(c).3 is Some) <==> (c.d is Some || c.h is Some || c.p is Some || c.q is Some),
        c.d is Some ==> spec_code_steps(c).3 == Some(InterpreterError::ExcessCode('D' as u8)),
        spec_code_steps(c).3 is None ==> spec_code_steps(c).2 == coordinate_codes(c),
{
}

/// Under a linear motion mode, a modal move takes X, Y and Z; an arc center or radius left
/// with it stops the block as an excess code.
pub proof fn lemma_linear_modal_move(c: Codes, motion: Motion)
    requires
        has_coordinates(c),
        motion == Motion::Rapid || motion == Motion::Feed,
        c == coordinate_codes(c),
    ensures
        spec_plan_excess(c, motion).0 is Some,
        (spec_plan_excess(c, motion).2 is None) <==> (c.i is None && c.j is None && c.k is None
            && c.r is None),
{
}


/// A modal move goes on in the motion mode it was planned under: sending it leaves that
/// mode as it was.
pub proof fn lemma_modal_move_keeps_motion(c: Codes, motion: Motion)
    ensures
        spec_plan_excess(c, motion).0 matches Some(command) ==> spec_motion_after(motion, command)
            == motion,
{
}

} // verus!
