//! What the plan of a block gives the machine, stated by the words of the block.
use vstd::prelude::*;
use crate::config::Unit;
use crate::gcode::{GCode, spec_gcode_parse, spec_mcode_parse};
use crate::interpreter::{
    CircularDirection, Direction, FeedMode, InterpreterError, MachineCommand, Motion, Positioning,
    ReturnLevel, gcode_command, gcode_commands, mcode_command, spec_code_steps, spec_motion_after,
    spec_plan_block, spec_plan_excess,
};
use crate::panel::{lemma_summary_codes, shown_count};
use crate::parser::{Code, Codes, ParsedBlock, Plane, spec_take_circular, spec_xyz};

verus! {

/// The command of the G-code read from the word `G<g>` of a block with codes `c`: G00 a
/// rapid and G01 a feed move to the block's X, Y, Z (G01 with its feed); G02 a clockwise
/// and G03 a counter-clockwise arc; G17, G18, G19 the XY, XZ, YZ plane; G20 imperial and
/// G21 metric units; G40 and G49 cancel the diameter and height offsets; G41 and G42 a left
/// and right diameter offset by D; G43 and G44 an upwards and downwards height offset by H;
/// G53 a move in machine coordinates; G80 cancels canned cycles; G90 absolute and G91
/// incremental positioning; G94 feed per minute and G95 per revolution; G98 initial and G99
/// retract return level; G04 and G54 give no command.
pub proof fn lemma_gcode_word_command(g: u32, c: Codes)
    requires
        spec_gcode_parse(g, c).1 is Ok,
    ensures
        ({
            let cmd = gcode_command(spec_gcode_parse(g, c).1->Ok_0);
            let arc = spec_take_circular(c).1->Ok_0;
            &&& g == 0 ==> cmd == Some(MachineCommand::RapidMove(spec_xyz(c)))
            &&& g == 1 ==> cmd == Some(MachineCommand::FeedMove(spec_xyz(c), c.f))
            &&& g == 2 ==> cmd == Some(
                MachineCommand::ArcMove(arc.0, arc.1, CircularDirection::Clockwise, arc.2),
            )
            &&& g == 3 ==> cmd == Some(
                MachineCommand::ArcMove(arc.0, arc.1, CircularDirection::CounterClockwise, arc.2),
            )
            &&& (g == 4 || g == 54) ==> cmd is None
            &&& g == 17 ==> cmd == Some(MachineCommand::SetPlane(Plane::XY))
            &&& g == 18 ==> cmd == Some(MachineCommand::SetPlane(Plane::XZ))
            &&& g == 19 ==> cmd == Some(MachineCommand::SetPlane(Plane::YZ))
            &&& g == 20 ==> cmd == Some(MachineCommand::SetCodeUnits(Unit::Imperial))
            &&& g == 21 ==> cmd == Some(MachineCommand::SetCodeUnits(Unit::Metric))
            &&& g == 40 ==> cmd == Some(MachineCommand::CancelDiaOffset)
            &&& g == 41 ==> cmd == Some(MachineCommand::SetDiaOffset(c.d->0, Direction::Left))
            &&& g == 42 ==> cmd == Some(MachineCommand::SetDiaOffset(c.d->0, Direction::Right))
            &&& g == 43 ==> cmd == Some(MachineCommand::SetHeightOffset(c.h->0, Direction::Up))
            &&& g == 44 ==> cmd == Some(MachineCommand::SetHeightOffset(c.h->0, Direction::Down))
            &&& g == 49 ==> cmd == Some(MachineCommand::CancelHeightOffset)
            &&& g == 53 ==> cmd == Some(MachineCommand::MoveMachinePos(spec_xyz(c)))
            &&& g == 80 ==> cmd == Some(MachineCommand::CancelCanned)
            &&& g == 90 ==> cmd == Some(MachineCommand::SetPositioning(Positioning::Absolute))
            &&& g == 91 ==> cmd == Some(MachineCommand::SetPositioning(Positioning::Incremental))
            &&& g == 94 ==> cmd == Some(MachineCommand::SetFeedMode(FeedMode::PerMinute))
            &&& g == 95 ==> cmd == Some(MachineCommand::SetFeedMode(FeedMode::PerRev))
            &&& g == 98 ==> cmd == Some(MachineCommand::SetReturnLevel(ReturnLevel::Initial))
            &&& g == 99 ==> cmd == Some(MachineCommand::SetReturnLevel(ReturnLevel::Retract))
        }),
{
}

/// The command of the M-code read from the word `M<m>` of a block with codes `c`: M03 turns
/// the spindle on clockwise and M04 counter-clockwise, at the block's S speed; M05 turns it
/// off; M06 changes to the block's T tool; M08 and M09 turn the coolant on and off; M30
/// resets the machine; the stops M00 and M01 give no command.
pub proof fn lemma_mcode_word_command(m: u32, c: Codes)
    requires
        spec_mcode_parse(m, c).1 is Ok,
    ensures
        ({
            let cmd = mcode_command(spec_mcode_parse(m, c).1->Ok_0);
            &&& (m == 0 || m == 1) ==> cmd is None
            &&& m == 3 ==> cmd == Some(MachineCommand::SpindleOn(CircularDirection::Clockwise, c.s))
            &&& m == 4 ==> cmd == Some(
                MachineCommand::SpindleOn(CircularDirection::CounterClockwise, c.s),
            )
            &&& m == 5 ==> cmd == Some(MachineCommand::SpindleOff)
            &&& m == 6 ==> cmd == Some(MachineCommand::ToolChange(c.t))
            &&& m == 8 ==> cmd == Some(MachineCommand::SetCoolant(true))
            &&& m == 9 ==> cmd == Some(MachineCommand::SetCoolant(false))
            &&& m == 30 ==> cmd == Some(MachineCommand::Reset)
        }),
{
}

/// The prefix of the word a setting command comes from: `F` for a feed, `S` for a spindle
/// speed, `T` for the next tool; `0` for any other command.
pub open spec fn setting_prefix(cmd: MachineCommand) -> u8 {
    match cmd {
        MachineCommand::SetFeed(_) => 'F' as u8,
        MachineCommand::SetSpeed(_) => 'S' as u8,
        MachineCommand::SetNextTool(_) => 'T' as u8,
        _ => 0,
    }
}

/// Number of the F, S and T codes in `c`.
pub open spec fn setting_count(c: Codes) -> nat {
    (if c.f is Some { 1nat } else { 0nat }) + (if c.s is Some { 1nat } else { 0nat }) + (if c.t
        is Some { 1nat } else { 0nat })
}

/// The F, S and T codes left in a block without D, H, P or Q give one command each, with
/// their values, in the order F, S, T, and no other command: a feed sets the feed rate, a
/// spindle speed the speed, a tool number the next tool. With H, P or Q left, only the feed
/// read before them is set; with D, nothing is.
pub proof fn lemma_code_settings(c: Codes)
    ensures
        ({
            let cmds = spec_code_steps(c).0;
            &&& (c.d is None && c.h is None && c.p is None && c.q is None) ==> {
                &&& cmds.len() == setting_count(c)
                &&& forall|f| #[trigger] cmds.contains(MachineCommand::SetFeed(f)) <==> c.f == Some(f)
                &&& forall|s| #[trigger] cmds.contains(MachineCommand::SetSpeed(s)) <==> c.s == Some(s)
                &&& forall|t| #[trigger] cmds.contains(MachineCommand::SetNextTool(t)) <==> c.t
                    == Some(t)
                &&& forall|i: int, j: int|
                    0 <= i < j < cmds.len() ==> 0 < setting_prefix(#[trigger] cmds[i])
                        < setting_prefix(#[trigger] cmds[j])
            }
            &&& c.d is Some ==> cmds.len() == 0
            &&& (c.d is None && (c.h is Some || c.p is Some || c.q is Some)) ==> cmds == (match c.f {
                Some(f) => seq![MachineCommand::SetFeed(f)],
                None => Seq::<MachineCommand>::empty(),
            })
        }),
{
    let cmds = spec_code_steps(c).0;
    if c.d is None && c.h is None && c.p is None && c.q is None {
        assert forall|f| #[trigger] cmds.contains(MachineCommand::SetFeed(f)) <==> c.f == Some(f) by {
            if c.f == Some(f) {
                assert(cmds[0] == MachineCommand::SetFeed(f));
            }
        }
        assert forall|s| #[trigger] cmds.contains(MachineCommand::SetSpeed(s)) <==> c.s == Some(s) by {
            if c.s == Some(s) {
                let k: int = if c.f is Some { 1 } else { 0 };
                assert(cmds[k] == MachineCommand::SetSpeed(s));
            }
        }
        assert forall|t| #[trigger] cmds.contains(MachineCommand::SetNextTool(t)) <==> c.t == Some(t) by {
            if c.t == Some(t) {
                assert(cmds[cmds.len() - 1] == MachineCommand::SetNextTool(t));
            }
        }
    }
}

/// A G-code of a block that gives a command gives it in the block's plan.
pub proof fn lemma_gcode_commands_contain(hs: Seq<GCode>, i: int)
    requires
        0 <= i < hs.len(),
        gcode_command(hs[i]) is Some,
    ensures
        gcode_commands(hs).contains(gcode_command(hs[i])->0),
    decreases hs.len(),
{
    let prefix = gcode_commands(hs.drop_last());
    if i == hs.len() - 1 {
        assert(gcode_commands(hs)[prefix.len() as int] == gcode_command(hs[i])->0);
    } else {
        assert(hs.drop_last()[i] == hs[i]);
        lemma_gcode_commands_contain(hs.drop_last(), i);
        let k = choose|k: int| 0 <= k < prefix.len() && prefix[k] == gcode_command(hs[i])->0;
        assert(gcode_commands(hs)[k] == prefix[k]);
    }
}

/// Every arc of a block is sent in its own direction: a G02 arc clockwise, a G03 arc
/// counter-clockwise, with its end point, circle and feed.
pub proof fn lemma_plan_arc_directions(b: ParsedBlock, i: int)
    requires
        0 <= i < b.0.len(),
    ensures
        b.0[i] matches GCode::CWArcMove { pos, method, feed } ==> spec_plan_block(b).0.contains(
            MachineCommand::ArcMove(pos, method, CircularDirection::Clockwise, feed),
        ),
        b.0[i] matches GCode::CCWArcMove { pos, method, feed } ==> spec_plan_block(b).0.contains(
            MachineCommand::ArcMove(pos, method, CircularDirection::CounterClockwise, feed),
        ),
{
    let hs = b.0.reverse();
    let j = b.0.len() - 1 - i;
    assert(hs[j] == b.0[i]);
    if gcode_command(b.0[i]) is Some {
        lemma_gcode_commands_contain(hs, j);
        let plan = spec_plan_block(b).0;
        let gc = gcode_commands(hs);
        assert(plan == gc + (plan.skip(gc.len() as int)));
        let k = choose|k: int| 0 <= k < gc.len() && gc[k] == gcode_command(b.0[i])->0;
        assert(plan[k] == gc[k]);
    }
}

/// A block's F, S and T words reach the machine: with no D left, its feed is set; with no
/// D, H, P or Q left, its spindle speed and next tool are set too, and the block is not
/// stopped by its codes.
pub proof fn lemma_plan_settings(b: ParsedBlock)
    ensures
        ({
            let (gs, m, c) = b;
            let plan = spec_plan_block(b);
            &&& (c.d is None && c.f is Some) ==> plan.0.contains(MachineCommand::SetFeed(c.f->0))
            &&& (c.d is None && c.h is None && c.p is None && c.q is None) ==> {
                &&& c.s is Some ==> plan.0.contains(MachineCommand::SetSpeed(c.s->0))
                &&& c.t is Some ==> plan.0.contains(MachineCommand::SetNextTool(c.t->0))
                &&& plan.1 is None
            }
        }),
{
    let (gs, m, c) = b;
    lemma_code_settings(c);
    let plan = spec_plan_block(b).0;
    let cmds = spec_code_steps(c).0;
    let front = plan.take(plan.len() - cmds.len());
    assert(plan == front + cmds);
    assert forall|x| cmds.contains(x) implies plan.contains(x) by {
        let k = choose|k: int| 0 <= k < cmds.len() && cmds[k] == x;
        assert(plan[front.len() + k] == x);
    }
    if c.d is None && c.f is Some {
        assert(cmds[0] == MachineCommand::SetFeed(c.f->0));
    }
}


/// The summary of a block that its codes do not stop lists exactly its feed, line number,
/// program number, spindle speed and preloaded tool codes, each with its value.
pub proof fn lemma_plan_summary_codes(b: ParsedBlock)
    ensures
        ({
            let c = b.2;
            let codes = spec_plan_block(b).4;
            (c.d is None && c.h is None && c.p is None && c.q is None) ==> {
                &&& codes.len() == shown_count(c)
                &&& forall|v| #[trigger] codes.contains(Code::F(v)) <==> c.f == Some(v)
                &&& forall|v| #[trigger] codes.contains(Code::N(v)) <==> c.n == Some(v)
                &&& forall|v| #[trigger] codes.contains(Code::O(v)) <==> c.o == Some(v)
                &&& forall|v| #[trigger] codes.contains(Code::S(v)) <==> c.s == Some(v)
                &&& forall|v| #[trigger] codes.contains(Code::T(v)) <==> c.t == Some(v)
            }
        }),
{
    lemma_summary_codes(b.2);
}


/// The codes left in a block stop it exactly when one of D, H, P, Q is there, naming the
/// first of them in that order; otherwise every coordinate code I, J, K, R, X, Y, Z is left
/// for the modal move, with its value, and no other code is.
pub proof fn lemma_code_errors(c: Codes)
    ensures
        ({
            let (_, _, excess, err) = spec_code_steps(c);
            &&& err == (if c.d is Some {
                Some(InterpreterError::ExcessCode('D' as u8))
            } else if c.h is Some {
                Some(InterpreterError::ExcessCode('H' as u8))
            } else if c.p is Some {
                Some(InterpreterError::ExcessCode('P' as u8))
            } else if c.q is Some {
                Some(InterpreterError::ExcessCode('Q' as u8))
            } else {
                None
            })
            &&& err is None ==> {
                &&& excess.i == c.i && excess.j == c.j && excess.k == c.k && excess.r == c.r
                &&& excess.x == c.x && excess.y == c.y && excess.z == c.z
                &&& excess.d is None && excess.f is None && excess.h is None && excess.n is None
                &&& excess.o is None && excess.p is None && excess.q is None && excess.s is None
                &&& excess.t is None
            }
        }),
{
}

/// Coordinates written without a motion G-code move in the machine's motion mode: a rapid
/// or a feed move (without a new feed) to their X, Y, Z, or an arc in the mode's direction
/// with its center or radius; the summary lists the matching G-code. An invalid arc stops
/// the block before any move. Without coordinates nothing moves. After a linear move, the
/// first of I, J, K, R left over stops the block.
pub proof fn lemma_modal_move(c: Codes, motion: Motion)
    ensures
        ({
            let (cmd, g, err) = spec_plan_excess(c, motion);
            let xyz = spec_xyz(c);
            let coords = c.i is Some || c.j is Some || c.k is Some || c.r is Some || c.x is Some
                || c.y is Some || c.z is Some;
            let only_coords = c.d is None && c.f is None && c.h is None && c.n is None && c.o
                is None && c.p is None && c.q is None && c.s is None && c.t is None;
            &&& !coords ==> cmd is None && g is None && err is None
            &&& (coords && motion == Motion::Rapid) ==> cmd == Some(MachineCommand::RapidMove(xyz))
                && g == Some(GCode::RapidMove(xyz))
            &&& (coords && motion == Motion::Feed) ==> cmd == Some(
                MachineCommand::FeedMove(xyz, None),
            ) && g == Some(GCode::FeedMove { pos: xyz, feed: None })
            &&& (coords && motion is Arc && spec_take_circular(c).1 is Err) ==> cmd is None && g
                is None && err == Some(InterpreterError::Parser(spec_take_circular(c).1->Err_0))
            &&& (coords && motion == Motion::Arc(CircularDirection::Clockwise) && spec_take_circular(
                c,
            ).1 is Ok) ==> {
                let (pos, method, feed) = spec_take_circular(c).1->Ok_0;
                &&& cmd == Some(
                    MachineCommand::ArcMove(pos, method, CircularDirection::Clockwise, feed),
                )
                &&& g == Some(GCode::CWArcMove { pos, method, feed })
            }
            &&& (coords && motion == Motion::Arc(CircularDirection::CounterClockwise)
                && spec_take_circular(c).1 is Ok) ==> {
                let (pos, method, feed) = spec_take_circular(c).1->Ok_0;
                &&& cmd == Some(
                    MachineCommand::ArcMove(pos, method, CircularDirection::CounterClockwise, feed),
                )
                &&& g == Some(GCode::CCWArcMove { pos, method, feed })
            }
            &&& (coords && only_coords && (motion == Motion::Rapid || motion == Motion::Feed))
                ==> err == (if c.i is Some {
                Some(InterpreterError::ExcessCode('I' as u8))
            } else if c.j is Some {
                Some(InterpreterError::ExcessCode('J' as u8))
            } else if c.k is Some {
                Some(InterpreterError::ExcessCode('K' as u8))
            } else if c.r is Some {
                Some(InterpreterError::ExcessCode('R' as u8))
            } else {
                None
            })
        }),
{
}

/// The motion G-codes set the machine's motion mode: G00 to rapid, G01 to feed, G02 to a
/// clockwise and G03 to a counter-clockwise arc; the command of any other G-code keeps it.
pub proof fn lemma_motion_gcodes(g: u32, c: Codes, motion: Motion)
    requires
        spec_gcode_parse(g, c).1 is Ok,
        gcode_command(spec_gcode_parse(g, c).1->Ok_0) is Some,
    ensures
        ({
            let after = spec_motion_after(motion, gcode_command(spec_gcode_parse(g, c).1->Ok_0)->0);
            &&& g == 0 ==> after == Motion::Rapid
            &&& g == 1 ==> after == Motion::Feed
            &&& g == 2 ==> after == Motion::Arc(CircularDirection::Clockwise)
            &&& g == 3 ==> after == Motion::Arc(CircularDirection::CounterClockwise)
            &&& g > 3 ==> after == motion
        }),
{
}

} // verus!
