use gsim_rs::decimal::Decimal;
use gsim_rs::gcode::{GCode, MCode};
use gsim_rs::interpreter::{
    motion_after, plan_excess, CircularDirection, Direction, InterpreterError, Interpreter, MachineCommand, Motion,
    Positioning,
};
use gsim_rs::lexer::Lexer;
use gsim_rs::parser::{CircleMethod, Code, Parser, ParserError, PartialPoint, Plane};
use gsim_rs::source::Source;

fn dec(negative: bool, mantissa: u128, exponent: i128) -> Decimal {
    Decimal::new(negative, mantissa, exponent)
}

fn interpreter(text: &str) -> Interpreter {
    Interpreter::new(Parser::new(Lexer::new(Source::from_str(text))))
}

#[test]
fn construct_interpreter() {
    let i = interpreter("G00 X0. Y0.;\n\nG43 H1;\n");
    assert_eq!(i.get_line(0), Some("G00 X0. Y0."));
    assert_eq!(i.get_line(1), Some("G43 H1"));
    assert_eq!(i.get_line(2), None);
}

#[test]
fn commands_in_order() {
    let mut i = interpreter("N1 G90 G1 X1. F20. S300 M3 T2");
    let plan = i.next_plan().unwrap().unwrap();
    let x1 = PartialPoint::new(Some(dec(false, 1, 0)), None, None);
    assert_eq!(
        plan.commands,
        vec![
            MachineCommand::FeedMove(x1, Some(dec(false, 2, 1))),
            MachineCommand::SetPositioning(Positioning::Absolute),
            MachineCommand::SpindleOn(CircularDirection::Clockwise, Some(300)),
            MachineCommand::SetNextTool(2),
        ]
    );
    assert_eq!(plan.error, None);
    assert_eq!(plan.summary.mcode, Some(MCode::SpindleFwd(Some(300))));
    assert_eq!(plan.summary.codes, vec![Code::N(1), Code::T(2)]);
    assert!(i.next_plan().is_none());
}

#[test]
fn codes_without_commands() {
    let mut i = interpreter("G4 P100 G54 M0\nM30\nG43 H3 G17");
    let plan = i.next_plan().unwrap().unwrap();
    assert!(plan.commands.is_empty());
    let plan = i.next_plan().unwrap().unwrap();
    assert_eq!(plan.commands, vec![MachineCommand::Reset]);
    let plan = i.next_plan().unwrap().unwrap();
    assert_eq!(
        plan.commands,
        vec![MachineCommand::SetPlane(Plane::XY), MachineCommand::SetHeightOffset(3, Direction::Up)]
    );
}

#[test]
fn excess_codes_stop_the_block() {
    let mut i = interpreter("D1 F5.\nF5. H2 S3\nG0 X1. P4\nQ1.");
    let plan = i.next_plan().unwrap().unwrap();
    assert!(plan.commands.is_empty());
    assert_eq!(plan.error, Some(InterpreterError::ExcessCode(b'D')));
    let plan = i.next_plan().unwrap().unwrap();
    assert_eq!(plan.commands, vec![MachineCommand::SetFeed(dec(false, 5, 0))]);
    assert_eq!(plan.error, Some(InterpreterError::ExcessCode(b'H')));
    let plan = i.next_plan().unwrap().unwrap();
    assert_eq!(plan.commands.len(), 1);
    assert_eq!(plan.error, Some(InterpreterError::ExcessCode(b'P')));
    let plan = i.next_plan().unwrap().unwrap();
    assert_eq!(plan.error, Some(InterpreterError::ExcessCode(b'Q')));
}

#[test]
fn parse_errors_pass_through() {
    let mut i = interpreter("G999");
    assert_eq!(
        i.next_plan().unwrap().unwrap_err(),
        InterpreterError::Parser(ParserError::InvalidGCode(999))
    );
    i.reload();
    assert!(i.next_plan().unwrap().is_err());
}

#[test]
fn modal_moves() {
    let mut i = interpreter("X1. Y2.\nX1. I1.\nG0 Z1. R2.");
    let plan = i.next_plan().unwrap().unwrap();
    assert!(plan.commands.is_empty());
    let xy = PartialPoint::new(Some(dec(false, 1, 0)), Some(dec(false, 2, 0)), None);
    let (cmd, g, err) = plan_excess(plan.excess, Motion::Feed);
    assert_eq!(cmd, Some(MachineCommand::FeedMove(xy, None)));
    assert_eq!(g, Some(GCode::FeedMove { pos: xy, feed: None }));
    assert_eq!(err, None);

    let plan = i.next_plan().unwrap().unwrap();
    // a linear move leaves the arc center
    let (cmd, _, err) = plan_excess(plan.excess, Motion::Rapid);
    assert!(cmd.is_some());
    assert_eq!(err, Some(InterpreterError::ExcessCode(b'I')));
    // an arc takes it
    let (cmd, g, err) = plan_excess(plan.excess, Motion::Arc(CircularDirection::CounterClockwise));
    let x1 = PartialPoint::new(Some(dec(false, 1, 0)), None, None);
    let center = CircleMethod::RelativePoint(PartialPoint::new(Some(dec(false, 1, 0)), None, None));
    assert_eq!(cmd, Some(MachineCommand::ArcMove(x1, center, CircularDirection::CounterClockwise, None)));
    assert_eq!(g, Some(GCode::CCWArcMove { pos: x1, method: center, feed: None }));
    assert_eq!(err, None);

    // G00 takes Z; the radius is left and stops the block
    let plan = i.next_plan().unwrap().unwrap();
    let (cmd, _, err) = plan_excess(plan.excess, Motion::Rapid);
    assert_eq!(cmd, Some(MachineCommand::RapidMove(PartialPoint::new(None, None, None))));
    assert_eq!(err, Some(InterpreterError::ExcessCode(b'R')));
    // an arc without end point is invalid before any move
    let (cmd, _, err) = plan_excess(plan.excess, Motion::Arc(CircularDirection::Clockwise));
    assert_eq!(cmd, None);
    assert_eq!(err, Some(InterpreterError::Parser(ParserError::InvalidCircle(None))));
}

#[test]
fn moves_set_the_motion_mode() {
    let x1 = PartialPoint::new(Some(dec(false, 1, 0)), None, None);
    let cw = CircularDirection::Clockwise;
    let radius = CircleMethod::FixedRadius(dec(false, 2, 0));
    assert_eq!(motion_after(Motion::Arc(cw), &MachineCommand::RapidMove(x1)), Motion::Rapid);
    assert_eq!(motion_after(Motion::Rapid, &MachineCommand::FeedMove(x1, None)), Motion::Feed);
    assert_eq!(
        motion_after(Motion::Feed, &MachineCommand::ArcMove(x1, radius, cw, None)),
        Motion::Arc(cw)
    );
    // other commands keep the mode
    assert_eq!(motion_after(Motion::Feed, &MachineCommand::SetPlane(Plane::XZ)), Motion::Feed);
    assert_eq!(motion_after(Motion::Arc(cw), &MachineCommand::SetSpeed(1000)), Motion::Arc(cw));
    // a modal move goes on in the mode it was planned under
    let mut i = interpreter("X1. R2.");
    let plan = i.next_plan().unwrap().unwrap();
    let (cmd, _, err) = plan_excess(plan.excess, Motion::Arc(cw));
    assert_eq!(err, None);
    assert_eq!(motion_after(Motion::Arc(cw), &cmd.unwrap()), Motion::Arc(cw));
}
