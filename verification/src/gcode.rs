//! G-codes and M-codes: the motion and machine commands of a [`CodeBlock`](crate::parser::CodeBlock).
use vstd::prelude::*;
use crate::decimal::{Decimal, canonical};
use crate::parser::{
    CircleMethod, Code, Codes, ParserError, PartialPoint, spec_take_circular, spec_xyz,
    without_xyz,
};

verus! {

/// A *G-code*: moves the axes of a machine in a controlled way, or changes a mode.
///
/// Each variant contains all the other values it needs to be valid.
#[derive(Clone, Copy, Debug, PartialEq, Eq, Structural)]
pub enum GCode {
    /// G00: linear interpolation to new coordinates at rapid rate.
    RapidMove(PartialPoint),
    /// G01: linear interpolation to new coordinates at the feed rate.
    FeedMove { pos: PartialPoint, feed: Option<Decimal> },
    /// G02: clockwise circular interpolation.
    CWArcMove { pos: PartialPoint, method: CircleMethod, feed: Option<Decimal> },
    /// G03: counter-clockwise circular interpolation.
    CCWArcMove { pos: PartialPoint, method: CircleMethod, feed: Option<Decimal> },
    /// G04: dwell, for a number of seconds.
    Dwell(Decimal),
    /// G17: select the XY plane (**default for mills**).
    XYPlane,
    /// G18: select the XZ plane.
    XZPlane,
    /// G19: select the YZ plane.
    YZPlane,
    /// G20: use **imperial** units.
    ImperialMode,
    /// G21: use **metric** units.
    MetricMode,
    /// G40: cancel cutter compensation (G41/G42).
    CancelCutterComp,
    /// G41: 2D left cutter compensation.
    LeftCutterComp(u32),
    /// G42: 2D right cutter compensation.
    RightCutterComp(u32),
    /// G43: tool length compensation by addition.
    ToolLenCompAdd(u32),
    /// G44: tool length compensation by subtraction.
    ToolLenCompSubtract(u32),
    /// G49: cancel tool length compensation (G43, G44).
    CancelLenComp,
    /// G53: machine coordinate system move.
    MachineCoord(PartialPoint),
    /// G54: work coordinate system select.
    WorkCoord,
    /// G80: cancel canned cycles.
    CancelCanned,
    /// G90: absolute positioning.
    AbsoluteMode,
    /// G91: incremental positioning.
    IncrementalMode,
    /// G94: feed per minute mode.
    FeedMinute,
    /// G95: feed per revolution mode.
    FeedRev,
    /// G98: initial point return in canned cycles.
    InitialReturn,
    /// G99: retract plane return in canned cycles.
    RetractReturn,
}

/// The G-code numbers this parser supports.
pub open spec fn supported_gcode(g: u32) -> bool {
    ||| g <= 4
    ||| 17 <= g <= 21
    ||| 40 <= g <= 44
    ||| g == 49
    ||| g == 53
    ||| g == 54
    ||| g == 80
    ||| g == 90
    ||| g == 91
    ||| g == 94
    ||| g == 95
    ||| g == 98
    ||| g == 99
}

/// The M-code numbers this parser supports.
pub open spec fn supported_mcode(m: u32) -> bool {
    m == 0 || m == 1 || m == 3 || m == 4 || m == 5 || m == 6 || m == 8 || m == 9 || m == 30
}

/// `p` milliseconds, in seconds.
pub open spec fn millis_to_seconds(p: u32) -> Decimal {
    canonical(false, p as nat, -3)
}

impl GCode {
    /// The number of the G-code: `0` for `G00`, `53` for `G53`.
    pub open spec fn spec_suffix(self) -> u32 {
        match self {
            GCode::RapidMove(_) => 0,
            GCode::FeedMove { .. } => 1,
            GCode::CWArcMove { .. } => 2,
            GCode::CCWArcMove { .. } => 3,
            GCode::Dwell(_) => 4,
            GCode::XYPlane => 17,
            GCode::XZPlane => 18,
            GCode::YZPlane => 19,
            GCode::ImperialMode => 20,
            GCode::MetricMode => 21,
            GCode::CancelCutterComp => 40,
            GCode::LeftCutterComp(_) => 41,
            GCode::RightCutterComp(_) => 42,
            GCode::ToolLenCompAdd(_) => 43,
            GCode::ToolLenCompSubtract(_) => 44,
            GCode::CancelLenComp => 49,
            GCode::MachineCoord(_) => 53,
            GCode::WorkCoord => 54,
            GCode::CancelCanned => 80,
            GCode::AbsoluteMode => 90,
            GCode::IncrementalMode => 91,
            GCode::FeedMinute => 94,
            GCode::FeedRev => 95,
            GCode::InitialReturn => 98,
            GCode::RetractReturn => 99,
        }
    }

    /// The modal group of the G-code.
    pub open spec fn spec_group(self) -> u8 {
        match self {
            GCode::Dwell(_) | GCode::MachineCoord(_) => 0,
            GCode::RapidMove(_)
            | GCode::FeedMove { .. }
            | GCode::CWArcMove { .. }
            | GCode::CCWArcMove { .. } => 1,
            GCode::XYPlane | GCode::XZPlane | GCode::YZPlane => 2,
            GCode::AbsoluteMode | GCode::IncrementalMode => 3,
            GCode::FeedMinute | GCode::FeedRev => 5,
            GCode::ImperialMode | GCode::MetricMode => 6,
            GCode::CancelCutterComp | GCode::LeftCutterComp(_) | GCode::RightCutterComp(_) => 7,
            GCode::ToolLenCompAdd(_) | GCode::ToolLenCompSubtract(_) | GCode::CancelLenComp => 8,
            GCode::CancelCanned => 9,
            GCode::InitialReturn | GCode::RetractReturn => 10,
            GCode::WorkCoord => 12,
        }
    }

    /// Provides the numeric value, suffix of a [`GCode`]: the number that the lexer
    /// read after the `G` prefix.
    pub fn suffix(&self) -> (r: u32)
        ensures
            r == self.spec_suffix(),
    {
        match self {
            GCode::RapidMove(_) => 0,
            GCode::FeedMove { .. } => 1,
            GCode::CWArcMove { .. } => 2,
            GCode::CCWArcMove { .. } => 3,
            GCode::Dwell(_) => 4,
            GCode::XYPlane => 17,
            GCode::XZPlane => 18,
            GCode::YZPlane => 19,
            GCode::ImperialMode => 20,
            GCode::MetricMode => 21,
            GCode::CancelCutterComp => 40,
            GCode::LeftCutterComp(_) => 41,
            GCode::RightCutterComp(_) => 42,
            GCode::ToolLenCompAdd(_) => 43,
            GCode::ToolLenCompSubtract(_) => 44,
            GCode::CancelLenComp => 49,
            GCode::MachineCoord(_) => 53,
            GCode::WorkCoord => 54,
            GCode::CancelCanned => 80,
            GCode::AbsoluteMode => 90,
            GCode::IncrementalMode => 91,
            GCode::FeedMinute => 94,
            GCode::FeedRev => 95,
            GCode::InitialReturn => 98,
            GCode::RetractReturn => 99,
        }
    }

    /// Returns what *group* a [`GCode`] belongs to.
    ///
    /// G-codes can be modal and are divided into *groups*.
    /// At any given time **only one G-code** from each group can be supplied and be activated.
    /// A line/block of code with more than one G-codes of the same group is **invalid**.
    pub fn group(&self) -> (r: u8)
        ensures
            r == self.spec_group(),
    {
        match self {
            GCode::Dwell(_) | GCode::MachineCoord(_) => 0,
            GCode::RapidMove(_)
            | GCode::FeedMove { .. }
            | GCode::CWArcMove { .. }
            | GCode::CCWArcMove { .. } => 1,
            GCode::XYPlane | GCode::XZPlane | GCode::YZPlane => 2,
            GCode::AbsoluteMode | GCode::IncrementalMode => 3,
            GCode::FeedMinute | GCode::FeedRev => 5,
            GCode::ImperialMode | GCode::MetricMode => 6,
            GCode::CancelCutterComp | GCode::LeftCutterComp(_) | GCode::RightCutterComp(_) => 7,
            GCode::ToolLenCompAdd(_) | GCode::ToolLenCompSubtract(_) | GCode::CancelLenComp => 8,
            GCode::CancelCanned => 9,
            GCode::InitialReturn | GCode::RetractReturn => 10,
            GCode::WorkCoord => 12,
        }
    }

    /// Tries to construct a [`GCode`] by parsing a [`Code::G`], taking the values it needs
    /// from the other codes `codes` of the same block; those values are removed from `codes`.
    ///
    /// # Errors
    /// [`ParserError::InvalidGCode`] for an unsupported number, [`ParserError::MissingCodeForGCode`]
    /// when a required code is absent, and the errors of [`Codes::take_circular`] for arcs.
    pub fn parse(code: Code, codes: &mut Codes) -> (r: Result<Self, ParserError>)
        requires
            code is G,
        ensures
            (*final(codes), r) == spec_gcode_parse(code->G_0, *old(codes)),
    {
        let g = match code {
            Code::G(g) => g,
            _ => {
                proof {
                    assert(false);
                }
                return Err(ParserError::InvalidGCode(0));
            },
        };
        let gcode = match g {
            // all fields may be none
            0 => GCode::RapidMove(codes.take_partial_point()),
            1 => {
                let pos = codes.take_partial_point();
                let feed = codes.f.take();
                GCode::FeedMove { pos, feed }
            },
            2 | 3 => {
                let (pos, method, feed) = match codes.take_circular() {
                    Ok(v) => v,
                    Err(e) => return Err(e),
                };
                if g == 2 {
                    GCode::CWArcMove { pos, method, feed }
                } else {
                    GCode::CCWArcMove { pos, method, feed }
                }
            },
            4 => {
                // P can be used for milliseconds
                if let Some(p) = codes.p {
                    codes.p = None;
                    GCode::Dwell(Decimal::new(false, p as u128, -3))
                } else if let Some(x) = codes.x {
                    // X can be used for seconds
                    codes.x = None;
                    GCode::Dwell(x)
                } else {
                    return Err(ParserError::MissingCodeForGCode('P' as u8));
                }
            },
            17 => GCode::XYPlane,
            18 => GCode::XZPlane,
            19 => GCode::YZPlane,
            20 => GCode::ImperialMode,
            21 => GCode::MetricMode,
            40 => GCode::CancelCutterComp,
            41 | 42 => {
                if let Some(d) = codes.d {
                    codes.d = None;
                    if g == 41 {
                        GCode::LeftCutterComp(d)
                    } else {
                        GCode::RightCutterComp(d)
                    }
                } else {
                    return Err(ParserError::MissingCodeForGCode('D' as u8));
                }
            },
            43 | 44 => {
                if let Some(h) = codes.h {
                    codes.h = None;
                    if g == 43 {
                        GCode::ToolLenCompAdd(h)
                    } else {
                        GCode::ToolLenCompSubtract(h)
                    }
                } else {
                    return Err(ParserError::MissingCodeForGCode('H' as u8));
                }
            },
            49 => GCode::CancelLenComp,
            53 => {
                let pos = codes.take_partial_point();
                if pos.are_none() {
                    // need atleast one axis to move
                    return Err(ParserError::MissingCodeForGCode('X' as u8));
                } else {
                    GCode::MachineCoord(pos)
                }
            },
            54 => GCode::WorkCoord,
            80 => GCode::CancelCanned,
            90 => GCode::AbsoluteMode,
            91 => GCode::IncrementalMode,
            94 => GCode::FeedMinute,
            95 => GCode::FeedRev,
            98 => GCode::InitialReturn,
            99 => GCode::RetractReturn,
            _ => return Err(ParserError::InvalidGCode(g)),
        };
        Ok(gcode)
    }
}

/// The G-code with number `g`, built from the codes `c` of its block, and the codes left.
pub open spec fn spec_gcode_parse(g: u32, c: Codes) -> (Codes, Result<GCode, ParserError>) {
    if g == 0 {
        (without_xyz(c), Ok(GCode::RapidMove(spec_xyz(c))))
    } else if g == 1 {
        (Codes { f: None, ..without_xyz(c) }, Ok(GCode::FeedMove { pos: spec_xyz(c), feed: c.f }))
    } else if g == 2 || g == 3 {
        let (c2, r) = spec_take_circular(c);
        (
            c2,
            match r {
                Err(e) => Err(e),
                Ok((pos, method, feed)) => Ok(
                    if g == 2 {
                        GCode::CWArcMove { pos, method, feed }
                    } else {
                        GCode::CCWArcMove { pos, method, feed }
                    },
                ),
            },
        )
    } else if g == 4 {
        match c.p {
            Some(p) => (Codes { p: None, ..c }, Ok(GCode::Dwell(millis_to_seconds(p)))),
            None => match c.x {
                Some(x) => (Codes { x: None, ..c }, Ok(GCode::Dwell(x))),
                None => (c, Err(ParserError::MissingCodeForGCode('P' as u8))),
            },
        }
    } else if g == 17 {
        (c, Ok(GCode::XYPlane))
    } else if g == 18 {
        (c, Ok(GCode::XZPlane))
    } else if g == 19 {
        (c, Ok(GCode::YZPlane))
    } else if g == 20 {
        (c, Ok(GCode::ImperialMode))
    } else if g == 21 {
        (c, Ok(GCode::MetricMode))
    } else if g == 40 {
        (c, Ok(GCode::CancelCutterComp))
    } else if g == 41 || g == 42 {
        match c.d {
            Some(d) => (
                Codes { d: None, ..c },
                Ok(
                    if g == 41 {
                        GCode::LeftCutterComp(d)
                    } else {
                        GCode::RightCutterComp(d)
                    },
                ),
            ),
            None => (c, Err(ParserError::MissingCodeForGCode('D' as u8))),
        }
    } else if g == 43 || g == 44 {
        match c.h {
            Some(h) => (
                Codes { h: None, ..c },
                Ok(
                    if g == 43 {
                        GCode::ToolLenCompAdd(h)
                    } else {
                        GCode::ToolLenCompSubtract(h)
                    },
                ),
            ),
            None => (c, Err(ParserError::MissingCodeForGCode('H' as u8))),
        }
    } else if g == 49 {
        (c, Ok(GCode::CancelLenComp))
    } else if g == 53 {
        if spec_xyz(c).spec_are_none() {
            (without_xyz(c), Err(ParserError::MissingCodeForGCode('X' as u8)))
        } else {
            (without_xyz(c), Ok(GCode::MachineCoord(spec_xyz(c))))
        }
    } else if g == 54 {
        (c, Ok(GCode::WorkCoord))
    } else if g == 80 {
        (c, Ok(GCode::CancelCanned))
    } else if g == 90 {
        (c, Ok(GCode::AbsoluteMode))
    } else if g == 91 {
        (c, Ok(GCode::IncrementalMode))
    } else if g == 94 {
        (c, Ok(GCode::FeedMinute))
    } else if g == 95 {
        (c, Ok(GCode::FeedRev))
    } else if g == 98 {
        (c, Ok(GCode::InitialReturn))
    } else if g == 99 {
        (c, Ok(GCode::RetractReturn))
    } else {
        (c, Err(ParserError::InvalidGCode(g)))
    }
}

/// A *M-code*: switches a machine feature on or off.
#[derive(Clone, Copy, Debug, PartialEq, Eq, Structural)]
pub enum MCode {
    /// M00: program stop.
    Stop,
    /// M01: optional stop.
    OptionalStop,
    /// M03: spindle forward, at an optional speed.
    SpindleFwd(Option<u32>),
    /// M04: spindle reverse, at an optional speed.
    SpindleRev(Option<u32>),
    /// M05: spindle stop.
    SpindleStop,
    /// M06: tool change, to an optional tool number.
    ToolChange(Option<u32>),
    /// M08: coolant on.
    CoolantOn,
    /// M09: coolant off.
    CoolantOff,
    /// M30: program end.
    End,
}

impl MCode {
    /// The number of the M-code: `0` for `M00`, `30` for `M30`.
    pub open spec fn spec_suffix(self) -> u32 {
        match self {
            MCode::Stop => 0,
            MCode::OptionalStop => 1,
            MCode::SpindleFwd(_) => 3,
            MCode::SpindleRev(_) => 4,
            MCode::SpindleStop => 5,
            MCode::ToolChange(_) => 6,
            MCode::CoolantOn => 8,
            MCode::CoolantOff => 9,
            MCode::End => 30,
        }
    }

    /// Provides the numeric value, suffix of a [`MCode`]: the number that the lexer
    /// read after the `M` prefix.
    pub fn suffix(&self) -> (r: u32)
        ensures
            r == self.spec_suffix(),
    {
        match self {
            MCode::Stop => 0,
            MCode::OptionalStop => 1,
            MCode::SpindleFwd(_) => 3,
            MCode::SpindleRev(_) => 4,
            MCode::SpindleStop => 5,
            MCode::ToolChange(_) => 6,
            MCode::CoolantOn => 8,
            MCode::CoolantOff => 9,
            MCode::End => 30,
        }
    }

    /// Tries to construct a [`MCode`] by parsing a [`Code::M`], taking the values it needs
    /// from the other codes `codes` of the same block; those values are removed from `codes`.
    ///
    /// # Errors
    /// Returns a [`ParserError::InvalidMCode`] for an unsupported number.
    pub fn parse(code: Code, codes: &mut Codes) -> (r: Result<Self, ParserError>)
        requires
            code is M,
        ensures
            (*final(codes), r) == spec_mcode_parse(code->M_0, *old(codes)),
    {
        let m = match code {
            Code::M(m) => m,
            _ => {
                proof {
                    assert(false);
                }
                return Err(ParserError::InvalidMCode(0));
            },
        };
        let mcode = match m {
            0 => MCode::Stop,
            1 => MCode::OptionalStop,
            3 => {
                let s = codes.s;
                codes.s = None;
                MCode::SpindleFwd(s)
            },
            4 => {
                let s = codes.s;
                codes.s = None;
                MCode::SpindleRev(s)
            },
            5 => MCode::SpindleStop,
            6 => {
                let t = codes.t;
                codes.t = None;
                MCode::ToolChange(t)
            },
            8 => MCode::CoolantOn,
            9 => MCode::CoolantOff,
            30 => MCode::End,
            _ => return Err(ParserError::InvalidMCode(m)),
        };
        Ok(mcode)
    }
}

/// The M-code with number `m`, built from the codes `c` of its block, and the codes left.
pub open spec fn spec_mcode_parse(m: u32, c: Codes) -> (Codes, Result<MCode, ParserError>) {
    if m == 0 {
        (c, Ok(MCode::Stop))
    } else if m == 1 {
        (c, Ok(MCode::OptionalStop))
    } else if m == 3 {
        (Codes { s: None, ..c }, Ok(MCode::SpindleFwd(c.s)))
    } else if m == 4 {
        (Codes { s: None, ..c }, Ok(MCode::SpindleRev(c.s)))
    } else if m == 5 {
        (c, Ok(MCode::SpindleStop))
    } else if m == 6 {
        (Codes { t: None, ..c }, Ok(MCode::ToolChange(c.t)))
    } else if m == 8 {
        (c, Ok(MCode::CoolantOn))
    } else if m == 9 {
        (c, Ok(MCode::CoolantOff))
    } else if m == 30 {
        (c, Ok(MCode::End))
    } else {
        (c, Err(ParserError::InvalidMCode(m)))
    }
}

/// A collection of **unique** [`GCode`]s, belonging to unique groups.
#[derive(Debug)]
pub struct GCodes {
    codes: Vec<GCode>,
    /// Suffixes already present in the `codes` vector.
    suffixes: Vec<u32>,
    /// Groups already present in the `codes` vector.
    groups: Vec<u8>,
}

/// Whether `s` holds `v`.
pub open spec fn holds<T>(s: Seq<T>, v: T) -> bool {
    exists|i: int| 0 <= i < s.len() && s[i] == v
}

/// No two G-codes of `l` share a number or a group.
pub open spec fn distinct_gcodes(l: Seq<GCode>) -> bool {
    forall|a: int, b: int|
        0 <= a < b < l.len() ==> l[a].spec_suffix() != l[b].spec_suffix() && l[a].spec_group()
            != l[b].spec_group()
}

/// Adds `g` to the G-codes `l` of a block, failing on a repeated number or group.
pub open spec fn spec_gcodes_push(l: Seq<GCode>, g: GCode) -> Result<Seq<GCode>, ParserError> {
    if holds(l.map_values(|x: GCode| x.spec_suffix()), g.spec_suffix()) {
        Err(ParserError::DuplicateGCode(g.spec_suffix()))
    } else if holds(l.map_values(|x: GCode| x.spec_group()), g.spec_group()) {
        Err(ParserError::DuplicateGCodeGroup(g.spec_group()))
    } else {
        Ok(l.push(g))
    }
}

fn vec_holds_u32(v: &Vec<u32>, x: u32) -> (r: bool)
    ensures
        r == holds(v@, x),
{
    let mut i: usize = 0;
    while i < v.len()
        invariant
            i <= v.len(),
            forall|k: int| 0 <= k < i ==> v@[k] != x,
        decreases v.len() - i,
    {
        if v[i] == x {
            return true;
        }
        i = i + 1;
    }
    false
}

fn vec_holds_u8(v: &Vec<u8>, x: u8) -> (r: bool)
    ensures
        r == holds(v@, x),
{
    let mut i: usize = 0;
    while i < v.len()
        invariant
            i <= v.len(),
            forall|k: int| 0 <= k < i ==> v@[k] != x,
        decreases v.len() - i,
    {
        if v[i] == x {
            return true;
        }
        i = i + 1;
    }
    false
}

impl GCodes {
    /// The G-codes still held, in insertion order.
    pub closed spec fn view_codes(&self) -> Seq<GCode> {
        self.codes@
    }

    /// The number and group lists follow the G-codes, which are distinct.
    #[verifier::type_invariant]
    closed spec fn inv(&self) -> bool {
        &&& self.suffixes@ == self.codes@.map_values(|x: GCode| x.spec_suffix())
        &&& self.groups@ == self.codes@.map_values(|x: GCode| x.spec_group())
        &&& distinct_gcodes(self.codes@)
    }

    /// Constructs a new, empty [`GCodes`].
    pub fn new() -> (r: Self)
        ensures
            r.view_codes() == Seq::<GCode>::empty(),
    {
        let codes: Vec<GCode> = Vec::new();
        let suffixes: Vec<u32> = Vec::new();
        let groups: Vec<u8> = Vec::new();
        assert(suffixes@ =~= codes@.map_values(|x: GCode| x.spec_suffix()));
        assert(groups@ =~= codes@.map_values(|x: GCode| x.spec_group()));
        GCodes { codes, suffixes, groups }
    }

    /// Tries to add a new [`GCode`] to `self`.
    ///
    /// # Errors
    /// Returns [`ParserError::DuplicateGCode`] or [`ParserError::DuplicateGCodeGroup`] on failure.
    pub fn push(&mut self, gcode: GCode) -> (r: Result<(), ParserError>)
        ensures
            match spec_gcodes_push(old(self).view_codes(), gcode) {
                Ok(l) => r is Ok && final(self).view_codes() == l,
                Err(e) => r == Err::<(), ParserError>(e) && final(self).view_codes() == old(
                    self,
                ).view_codes(),
            },
    {
        proof {
            use_type_invariant(&*self);
        }
        let suffix = gcode.suffix();
        let group = gcode.group();
        if vec_holds_u32(&self.suffixes, suffix) {
            return Err(ParserError::DuplicateGCode(suffix));
        }
        if vec_holds_u8(&self.groups, group) {
            return Err(ParserError::DuplicateGCodeGroup(group));
        }
        let mut taken = GCodes::new();
        std::mem::swap(self, &mut taken);
        let GCodes { mut codes, mut suffixes, mut groups } = taken;
        let ghost old_codes = codes@;
        let ghost old_suffixes = suffixes@;
        let ghost old_groups = groups@;
        suffixes.push(suffix);
        groups.push(group);
        codes.push(gcode);
        proof {
            assert(suffixes@ =~= codes@.map_values(|x: GCode| x.spec_suffix()));
            assert(groups@ =~= codes@.map_values(|x: GCode| x.spec_group()));
            assert forall|a: int, b: int| 0 <= a < b < codes@.len() implies codes@[a].spec_suffix()
                != codes@[b].spec_suffix() && codes@[a].spec_group() != codes@[b].spec_group() by {
                if b == old_codes.len() {
                    if codes@[a].spec_suffix() == suffix {
                        assert(old_suffixes[a] == suffix);
                    }
                    if codes@[a].spec_group() == group {
                        assert(old_groups[a] == group);
                    }
                }
            }
        }
        *self = GCodes { codes, suffixes, groups };
        Ok(())
    }

    /// **Optionally** returns the last added [`GCode`], removing it;
    /// [`None`] when none is left.
    #[allow(clippy::should_implement_trait)]
    pub fn next(&mut self) -> (r: Option<GCode>)
        ensures
            old(self).view_codes().len() == 0 ==> r is None && final(self).view_codes()
                == old(self).view_codes(),
            old(self).view_codes().len() > 0 ==> r == Some(old(self).view_codes().last())
                && final(self).view_codes() == old(self).view_codes().drop_last(),
    {
        proof {
            use_type_invariant(&*self);
        }
        let mut taken = GCodes::new();
        std::mem::swap(self, &mut taken);
        let GCodes { mut codes, mut suffixes, mut groups } = taken;
        let ghost old_codes = codes@;
        let _ = groups.pop();
        let _ = suffixes.pop();
        let r = codes.pop();
        proof {
            assert(suffixes@ =~= codes@.map_values(|x: GCode| x.spec_suffix()));
            assert(groups@ =~= codes@.map_values(|x: GCode| x.spec_group()));
            assert forall|a: int, b: int| 0 <= a < b < codes@.len() implies codes@[a].spec_suffix()
                != codes@[b].spec_suffix() && codes@[a].spec_group() != codes@[b].spec_group() by {
                assert(codes@[a] == old_codes[a] && codes@[b] == old_codes[b]);
            }
        }
        *self = GCodes { codes, suffixes, groups };
        r
    }
}

/// A G-code parsed from the word `G<g>` has the number `g`, and `g` is rejected as
/// [`ParserError::InvalidGCode`] exactly when it is not one of the supported G-codes.
pub proof fn lemma_gcode_parse_number(g: u32, c: Codes)
    ensures
        spec_gcode_parse(g, c).1 matches Ok(gc) ==> gc.spec_suffix() == g && supported_gcode(g),
        (spec_gcode_parse(g, c).1 == Err::<GCode, ParserError>(ParserError::InvalidGCode(g)))
            <==> !supported_gcode(g),
{
}

/// An M-code parsed from the word `M<m>` has the number `m`; parsing fails exactly when
/// `m` is not one of the supported M-codes, with [`ParserError::InvalidMCode`].
pub proof fn lemma_mcode_parse_number(m: u32, c: Codes)
    ensures
        spec_mcode_parse(m, c).1 matches Ok(mc) ==> mc.spec_suffix() == m,
        spec_mcode_parse(m, c).1 is Ok <==> supported_mcode(m),
        !supported_mcode(m) ==> spec_mcode_parse(m, c).1 == Err::<MCode, ParserError>(
            ParserError::InvalidMCode(m),
        ),
{
}

/// Adding a G-code to G-codes of distinct numbers and groups keeps them distinct.
pub proof fn lemma_gcodes_push_distinct(l: Seq<GCode>, g: GCode)
    requires
        distinct_gcodes(l),
        spec_gcodes_push(l, g) is Ok,
    ensures
        distinct_gcodes(spec_gcodes_push(l, g)->Ok_0),
{
    assert forall|a: int| 0 <= a < l.len() implies (#[trigger] l[a]).spec_suffix()
        != g.spec_suffix() && l[a].spec_group() != g.spec_group() by {
        if l[a].spec_suffix() == g.spec_suffix() {
            assert(l.map_values(|x: GCode| x.spec_suffix())[a] == g.spec_suffix());
        }
        if l[a].spec_group() == g.spec_group() {
            assert(l.map_values(|x: GCode| x.spec_group())[a] == g.spec_group());
        }
    }
    let l2 = l.push(g);
    assert forall|a: int, b: int| 0 <= a < b < l2.len() implies l2[a].spec_suffix()
        != l2[b].spec_suffix() && l2[a].spec_group() != l2[b].spec_group() by {
        assert(l2[a] == l[a]);
        if b < l.len() {
            assert(l2[b] == l[b]);
        }
    }
}

} // verus!
