use gsim_rs::decimal::Decimal;
use gsim_rs::gcode::{GCode, MCode};
use gsim_rs::lexer::Lexer;
use gsim_rs::parser::{CircleMethod, Code, Parser, PartialPoint};
use gsim_rs::source::Source;

fn dec(negative: bool, mantissa: u128, exponent: i128) -> Decimal {
    Decimal::new(negative, mantissa, exponent)
}

fn first_gcode(line: &str) -> GCode {
    let mut parser = Parser::new(Lexer::new(Source::from_str(line)));
    let mut block = parser.next().unwrap().unwrap();
    block.gcodes().next().unwrap()
}

#[test]
fn decimal_text() {
    assert_eq!(dec(false, 2, 1).to_text(), "20");
    assert_eq!(dec(true, 125, -2).to_text(), "-1.25");
    assert_eq!(dec(false, 5, -1).to_text(), "0.5");
    assert_eq!(dec(false, 1, -6).to_text(), "0.000001");
    assert_eq!(dec(true, 12345, -2).to_text(), "-123.45");
    assert_eq!(Decimal::zero().to_text(), "0");
}

#[test]
fn point_text() {
    let p = PartialPoint::new(Some(Decimal::zero()), None, Some(dec(true, 25, -1)));
    assert_eq!(p.to_text(), "(X: 0, Z: -2.5)");
    assert_eq!(PartialPoint::new(None, None, None).to_text(), "");
    let full = PartialPoint::new(Some(dec(false, 1, 0)), Some(dec(false, 2, 0)), Some(dec(false, 3, 0)));
    assert_eq!(full.to_text(), "(X: 1, Y: 2, Z: 3)");
}

#[test]
fn circle_text() {
    assert_eq!(CircleMethod::FixedRadius(dec(false, 2, 1)).to_text(), "Radius: 20");
    let rel = PartialPoint::new(Some(dec(false, 1, 0)), Some(dec(false, 2, 0)), None);
    assert_eq!(CircleMethod::RelativePoint(rel).to_text(), "Relative Center at: (X: 1, Y: 2)");
}

#[test]
fn code_text() {
    assert_eq!(Code::N(10).to_text(), "Line number: 10");
    assert_eq!(Code::O(1).to_text(), "Program number: 1");
    assert_eq!(Code::S(12000).to_text(), "Set new spindle speed: 12000");
    assert_eq!(Code::T(3).to_text(), "Preload tool number: 3");
    assert_eq!(Code::F(dec(false, 2, 1)).to_text(), "Set new feedrate: 20");
    assert_eq!(Code::X(Decimal::zero()).to_text(), "");
}

#[test]
fn gcode_text() {
    assert_eq!(
        first_gcode("G1 X0. Y0. F20.").to_text(),
        "G01 - Feed Move to: (X: 0, Y: 0) with feed: 20"
    );
    assert_eq!(first_gcode("G0").to_text(), "G00 - Rapid Move");
    assert_eq!(
        first_gcode("G2 X1. I0.5 F20.").to_text(),
        "G02 - Clockwise Move with Relative Center at: (X: 0.5) to: (X: 1) with feed: 20"
    );
    assert_eq!(
        first_gcode("G3 Y1. R2.").to_text(),
        "G03 - Counter-Clockwise Move with Radius: 2 to: (Y: 1)"
    );
    assert_eq!(first_gcode("G4 P1500").to_text(), "G04 - Dwell for 1.5 seconds");
    assert_eq!(
        first_gcode("G41 D7").to_text(),
        "G41 - Activate Left Cutter Compensation with D7 offset"
    );
    assert_eq!(first_gcode("G44 H2").to_text(), "G44 - Subtract Tool Length with H2 offset");
    assert_eq!(first_gcode("G53 Z0.").to_text(), "G53 - Machine Position Move to: (Z: 0)");
    assert_eq!(
        GCode::RetractReturn.to_text(),
        "G99 - Activate Retract Level return in canned cycles"
    );
    assert_eq!(GCode::XYPlane.to_text(), "G17 - Select XY Plane");
}

#[test]
fn mcode_text() {
    assert_eq!(MCode::SpindleFwd(Some(1000)).to_text(), "M03 - Clockwise Spindle On, at 1000 RPMs");
    assert_eq!(MCode::SpindleRev(None).to_text(), "M04 - Counter-Clockwise Spindle On");
    assert_eq!(MCode::ToolChange(None).to_text(), "M06 - Tool Change to any preloaded tool");
    assert_eq!(MCode::ToolChange(Some(2)).to_text(), "M06 - Tool Change to tool number: 2");
    assert_eq!(MCode::End.to_text(), "M30 - Program End");
    assert_eq!(MCode::Stop.to_text(), "M00 - Program Stop");
}
