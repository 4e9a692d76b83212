use gsim_rs::decimal::Decimal;
use gsim_rs::gcode::{GCode, MCode};
use gsim_rs::lexer::{tokenize, Lexer};
use gsim_rs::parser::{CircleMethod, Code, Codes, Parser, ParserError, PartialPoint};
use gsim_rs::source::Source;

fn dec(negative: bool, mantissa: u128, exponent: i128) -> Decimal {
    Decimal::new(negative, mantissa, exponent)
}

fn zero() -> Decimal {
    Decimal::zero()
}

// Parses the first block of `tokens` and returns its G-codes in the order the block hands them out.
fn tokenize_parse(tokens: &str) -> Result<Vec<GCode>, ParserError> {
    let mut parser = Parser::new(Lexer::new(Source::from_str(tokens)));
    parser.next().unwrap().map(|mut block| {
        let gcodes = block.gcodes();
        let mut out = Vec::new();
        while let Some(g) = gcodes.next() {
            out.push(g);
        }
        out
    })
}

// Parses the first block of `tokens` and returns its M-code.
fn tokenize_parse_m(tokens: &str) -> Result<MCode, ParserError> {
    let mut parser = Parser::new(Lexer::new(Source::from_str(tokens)));
    parser.next().unwrap().map(|mut block| block.mcode().unwrap())
}

// The codes of a block made of `text`, none of them 'G' or 'M'.
fn codes_of(text: &str) -> Codes {
    let mut codes = Codes::new();
    for token in tokenize(text).unwrap() {
        codes.push(Code::parse(&token).unwrap()).unwrap();
    }
    codes
}

const GCODE_GROUPS: [(u32, u8); 25] = [
    (0, 1),
    (1, 1),
    (2, 1),
    (3, 1),
    (4, 0),
    (17, 2),
    (18, 2),
    (19, 2),
    (20, 6),
    (21, 6),
    (40, 7),
    (41, 7),
    (42, 7),
    (43, 8),
    (44, 8),
    (49, 8),
    (53, 0),
    (54, 12),
    (80, 9),
    (90, 3),
    (91, 3),
    (94, 5),
    (95, 5),
    (98, 10),
    (99, 10),
];

const MCODE_SUFFIXES: [u32; 9] = [0, 1, 3, 4, 5, 6, 8, 9, 30];

#[test]
fn parser_get_code_suffix() {
    assert_eq!(GCode::RapidMove(PartialPoint::new(None, None, None)).suffix(), 0);

    assert_eq!(MCode::Stop.suffix(), 0);
}

#[test]
fn parser_wrong_suffix_type() {
    assert_eq!(tokenize_parse("G20.0").unwrap_err(), ParserError::WrongSuffixType(b'G'));

    assert_eq!(tokenize_parse("F20").unwrap_err(), ParserError::WrongSuffixType(b'F'));
}

#[test]
fn parser_unknown_prefix() {
    assert_eq!(tokenize_parse("A0").unwrap_err(), ParserError::UnknownPrefix(b'A'));
}

#[test]
fn parser_duplicate_gcode() {
    assert_eq!(tokenize_parse("G00 G00").unwrap_err(), ParserError::DuplicateGCode(0));
}

#[test]
fn parser_invalid_gcode() {
    assert_eq!(tokenize_parse("G999").unwrap_err(), ParserError::InvalidGCode(999));
}

#[test]
fn parser_duplicate_gcode_group() {
    assert_eq!(tokenize_parse("G00 G01").unwrap_err(), ParserError::DuplicateGCodeGroup(1));
}

#[test]
fn parser_duplicate_prefix() {
    assert_eq!(tokenize_parse("M5 M9").unwrap_err(), ParserError::DuplicatePrefix(b'M'));
}

#[test]
fn parse_gcode_groups() {
    let codes = codes_of("X0. I0. D1 H1");
    for (suffix, group) in GCODE_GROUPS {
        let mut c = codes;
        let gcode = GCode::parse(Code::G(suffix), &mut c).expect("Every suffix must be valid.");
        assert_eq!(group, gcode.group());
    }
}

#[test]
fn parse_valid_gcodes() {
    let codes = codes_of("X0. I0. D1 H1");
    for (suffix, group) in GCODE_GROUPS {
        let mut c = codes;
        let gcode = GCode::parse(Code::G(suffix), &mut c)
            .expect("Every suffix must generate a valid GCode variant.");
        assert_eq!(suffix, gcode.suffix());
        assert_eq!(group, gcode.group());
    }
}

#[test]
fn parse_valid_mcodes() {
    let codes = codes_of("");
    for suffix in MCODE_SUFFIXES {
        let mut c = codes;
        let mcode = MCode::parse(Code::M(suffix), &mut c)
            .expect("Every suffix must generate a valid MCode variant.");
        assert_eq!(suffix, mcode.suffix());
    }
}

#[test]
fn parser_parse_rapid_move() {
    assert_eq!(
        tokenize_parse("G0 X0. Y0.").unwrap(),
        vec![GCode::RapidMove(PartialPoint::new(Some(zero()), Some(zero()), None))]
    );
}

#[test]
fn parser_parse_feed_move() {
    assert_eq!(
        tokenize_parse("G1 X0. Y0. F20.").unwrap(),
        vec![GCode::FeedMove {
            pos: PartialPoint::new(Some(zero()), Some(zero()), None),
            feed: Some(dec(false, 2, 1)),
        }]
    );
}

#[test]
fn parser_parse_cw_arc() {
    assert_eq!(
        tokenize_parse("G2 X0. I1. J2. F20.").unwrap(),
        vec![GCode::CWArcMove {
            pos: PartialPoint::new(Some(zero()), None, None),
            method: CircleMethod::RelativePoint(PartialPoint::new(
                Some(dec(false, 1, 0)),
                Some(dec(false, 2, 0)),
                None
            )),
            feed: Some(dec(false, 2, 1)),
        }]
    );

    assert_eq!(
        tokenize_parse("G2 Y0. R20. F20.").unwrap(),
        vec![GCode::CWArcMove {
            pos: PartialPoint::new(None, Some(zero()), None),
            method: CircleMethod::FixedRadius(dec(false, 2, 1)),
            feed: Some(dec(false, 2, 1)),
        }]
    );
}

#[test]
fn parser_parse_ccw_arc() {
    assert_eq!(
        tokenize_parse("G3 X0. I1. J2. F20.").unwrap(),
        vec![GCode::CCWArcMove {
            pos: PartialPoint::new(Some(zero()), None, None),
            method: CircleMethod::RelativePoint(PartialPoint::new(
                Some(dec(false, 1, 0)),
                Some(dec(false, 2, 0)),
                None
            )),
            feed: Some(dec(false, 2, 1)),
        }]
    );

    assert_eq!(
        tokenize_parse("G3 Y0. R20. F20.").unwrap(),
        vec![GCode::CCWArcMove {
            pos: PartialPoint::new(None, Some(zero()), None),
            method: CircleMethod::FixedRadius(dec(false, 2, 1)),
            feed: Some(dec(false, 2, 1)),
        }]
    );
}

#[test]
fn parser_parse_dwell() {
    assert_eq!(tokenize_parse("G4 X10.").unwrap(), vec![GCode::Dwell(dec(false, 1, 1))]);

    assert_eq!(tokenize_parse("G4 P1000").unwrap(), vec![GCode::Dwell(dec(false, 1, 0))]);

    assert_eq!(tokenize_parse("G4").unwrap_err(), ParserError::MissingCodeForGCode(b'P'));
}

#[test]
fn parser_parse_planes() {
    assert_eq!(tokenize_parse("G17").unwrap(), vec![GCode::XYPlane]);

    assert_eq!(tokenize_parse("G18").unwrap(), vec![GCode::XZPlane]);

    assert_eq!(tokenize_parse("G19").unwrap(), vec![GCode::YZPlane]);
}

#[test]
fn parser_parse_unit_modes() {
    assert_eq!(tokenize_parse("G20").unwrap(), vec![GCode::ImperialMode]);

    assert_eq!(tokenize_parse("G21").unwrap(), vec![GCode::MetricMode]);
}

#[test]
fn parser_parse_cutter_comp() {
    assert_eq!(tokenize_parse("G40").unwrap(), vec![GCode::CancelCutterComp]);

    assert_eq!(tokenize_parse("G41 D1").unwrap(), vec![GCode::LeftCutterComp(1)]);

    assert_eq!(tokenize_parse("G42 D1").unwrap(), vec![GCode::RightCutterComp(1)]);
}

#[test]
fn parser_parse_len_comp() {
    assert_eq!(tokenize_parse("G43 H1").unwrap(), vec![GCode::ToolLenCompAdd(1)]);

    assert_eq!(tokenize_parse("G44 H1").unwrap(), vec![GCode::ToolLenCompSubtract(1)]);

    assert_eq!(tokenize_parse("G49").unwrap(), vec![GCode::CancelLenComp]);
}

#[test]
fn parser_parse_machine_coord() {
    assert_eq!(tokenize_parse("G53").unwrap_err(), ParserError::MissingCodeForGCode(b'X'));

    assert_eq!(
        tokenize_parse("G53 X0. Z0.").unwrap(),
        vec![GCode::MachineCoord(PartialPoint::new(Some(zero()), None, Some(zero())))]
    );
}

#[test]
fn parser_parse_workpiece_coord() {
    assert_eq!(tokenize_parse("G54").unwrap(), vec![GCode::WorkCoord]);
}

#[test]
fn parser_parse_canned_cycles() {
    assert_eq!(tokenize_parse("G80").unwrap(), vec![GCode::CancelCanned]);
}

#[test]
fn parser_parse_positioning_modes() {
    assert_eq!(tokenize_parse("G90").unwrap(), vec![GCode::AbsoluteMode]);

    assert_eq!(tokenize_parse("G91").unwrap(), vec![GCode::IncrementalMode]);
}

#[test]
fn parser_parse_feed_modes() {
    assert_eq!(tokenize_parse("G94").unwrap(), vec![GCode::FeedMinute]);

    assert_eq!(tokenize_parse("G95").unwrap(), vec![GCode::FeedRev]);
}

#[test]
fn parser_parse_return_canned() {
    assert_eq!(tokenize_parse("G98").unwrap(), vec![GCode::InitialReturn]);

    assert_eq!(tokenize_parse("G99").unwrap(), vec![GCode::RetractReturn]);
}

#[test]
fn parser_parse_stop() {
    assert_eq!(tokenize_parse_m("M00").unwrap(), MCode::Stop);
}

#[test]
fn parser_parse_optional_stop() {
    assert_eq!(tokenize_parse_m("M01").unwrap(), MCode::OptionalStop);
}

#[test]
fn parser_parse_spindle() {
    assert_eq!(tokenize_parse_m("M03 S1000").unwrap(), MCode::SpindleFwd(Some(1000)));
    assert_eq!(tokenize_parse_m("M03").unwrap(), MCode::SpindleFwd(None));
    assert_eq!(tokenize_parse_m("M04 S1000").unwrap(), MCode::SpindleRev(Some(1000)));
    assert_eq!(tokenize_parse_m("M04").unwrap(), MCode::SpindleRev(None));
    assert_eq!(tokenize_parse_m("M05").unwrap(), MCode::SpindleStop);
}

#[test]
fn parser_parse_tool_change() {
    assert_eq!(tokenize_parse_m("M06 T1").unwrap(), MCode::ToolChange(Some(1)));
    assert_eq!(tokenize_parse_m("M06").unwrap(), MCode::ToolChange(None));
}

#[test]
fn parser_parse_coolant() {
    assert_eq!(tokenize_parse_m("M08").unwrap(), MCode::CoolantOn);
    assert_eq!(tokenize_parse_m("M09").unwrap(), MCode::CoolantOff);
}

#[test]
fn parser_parse_program_end() {
    assert_eq!(tokenize_parse_m("M30").unwrap(), MCode::End);
}

// Errors of the arc and M-code rules, and of the lexer as seen through the parser.

#[test]
fn arc_with_radius_and_center_is_ambiguous() {
    assert_eq!(
        tokenize_parse("G2 X1. R2. I1.").unwrap_err(),
        ParserError::AmbiguousCircleMethod
    );
}

#[test]
fn arc_without_destination_is_invalid() {
    assert_eq!(tokenize_parse("G2 R2.").unwrap_err(), ParserError::InvalidCircle(None));
}

#[test]
fn arc_with_full_center_is_invalid() {
    let center = PartialPoint::new(Some(dec(false, 1, 0)), Some(dec(false, 1, 0)), Some(dec(false, 1, 0)));
    assert_eq!(
        tokenize_parse("G3 X1. I1. J1. K1.").unwrap_err(),
        ParserError::InvalidCircle(Some(CircleMethod::RelativePoint(center)))
    );
}

#[test]
fn arc_with_tiny_radius_is_invalid() {
    assert_eq!(
        tokenize_parse("G2 X1. R0.000001").unwrap_err(),
        ParserError::InvalidCircle(Some(CircleMethod::FixedRadius(dec(false, 1, -6))))
    );
    assert!(tokenize_parse("G2 X1. R0.00001").is_ok());
}

#[test]
fn unsupported_mcode_is_invalid() {
    assert_eq!(tokenize_parse_m("M07").unwrap_err(), ParserError::InvalidMCode(7));
}

#[test]
fn lexer_errors_pass_through() {
    assert_eq!(
        tokenize_parse("G01 X;").unwrap_err(),
        ParserError::Lexer(gsim_rs::lexer::LexerError::NoSuffix)
    );
}

#[test]
fn missing_code_errors() {
    assert_eq!(tokenize_parse("G41").unwrap_err(), ParserError::MissingCodeForGCode(b'D'));
    assert_eq!(tokenize_parse("G43").unwrap_err(), ParserError::MissingCodeForGCode(b'H'));
}

#[test]
fn gcodes_come_out_last_first() {
    assert_eq!(
        tokenize_parse("G90 G17 G0 X1.").unwrap(),
        vec![
            GCode::RapidMove(PartialPoint::new(Some(dec(false, 1, 0)), None, None)),
            GCode::XYPlane,
            GCode::AbsoluteMode,
        ]
    );
}

#[test]
fn negative_values_parse() {
    assert_eq!(
        tokenize_parse("G0 Z-1.25").unwrap(),
        vec![GCode::RapidMove(PartialPoint::new(None, None, Some(dec(true, 125, -2))))]
    );
}

#[test]
fn parse_lexer() {
    let src = Source::from_str("G01 X.0;\n%\n(COMMENT)\n/DELETEDBLOCK");
    let lex = Lexer::new(src);
    let mut parser = Parser::new(lex);
    let mut codeblock = parser.next().unwrap().unwrap();

    assert_eq!(
        codeblock.gcodes().next().unwrap(),
        GCode::FeedMove { pos: PartialPoint::new(Some(zero()), None, None), feed: None }
    );
    assert!(codeblock.gcodes().next().is_none());
    assert!(codeblock.mcode().is_none());
    assert!(codeblock.codes().next().is_none());
    assert!(parser.next().is_none());
}

#[test]
fn parser_reload_and_lines() {
    let mut parser = Parser::new(Lexer::new(Source::from_str("N10 G90\nG0 X1. M30")));
    assert_eq!(parser.get_line(1), Some("G0 X1. M30"));
    assert_eq!(parser.get_line(2), None);
    let mut first = parser.next().unwrap().unwrap();
    assert_eq!(first.codes().next(), Some(Code::N(10)));
    let mut second = parser.next().unwrap().unwrap();
    assert_eq!(second.mcode(), Some(MCode::End));
    assert!(parser.next().is_none());
    parser.reload();
    let mut again = parser.next().unwrap().unwrap();
    assert_eq!(again.gcodes().next(), Some(GCode::AbsoluteMode));
}

#[test]
fn leftover_codes_stay_in_block() {
    // the feed is taken by G01; the line number and spindle speed stay
    let mut parser = Parser::new(Lexer::new(Source::from_str("N5 G1 X1. F100. S200")));
    let mut block = parser.next().unwrap().unwrap();
    let codes = block.codes();
    assert_eq!(codes.next(), Some(Code::N(5)));
    assert_eq!(codes.next(), Some(Code::S(200)));
    assert_eq!(codes.next(), None);
}

#[test]
fn case_and_spacing_do_not_matter() {
    // lower case letters and missing spaces give the same block
    let a = tokenize_parse("g1x1.f20.").unwrap();
    let b = tokenize_parse("G1 X1. F20.").unwrap();
    assert_eq!(a, b);
}

#[test]
fn repeated_auxiliary_prefix_is_rejected() {
    assert_eq!(tokenize_parse("G0 X1. X2.").unwrap_err(), ParserError::DuplicatePrefix(b'X'));
    assert_eq!(tokenize_parse("S10 S20").unwrap_err(), ParserError::DuplicatePrefix(b'S'));
    // repeated G words are fine when they differ in number and group
    assert!(tokenize_parse("G90 G0 X1.").is_ok());
}

#[test]
fn codes_hand_out_each_once_in_prefix_order() {
    let mut codes = Codes::new();
    codes.push(Code::Z(dec(true, 5, -1))).unwrap();
    codes.push(Code::S(1200)).unwrap();
    codes.push(Code::D(2)).unwrap();
    codes.push(Code::X(dec(false, 15, -1))).unwrap();
    codes.push(Code::F(dec(false, 3, 2))).unwrap();
    let mut out = Vec::new();
    while let Some(code) = codes.next() {
        out.push(code);
    }
    assert_eq!(
        out,
        vec![
            Code::D(2),
            Code::F(dec(false, 3, 2)),
            Code::S(1200),
            Code::X(dec(false, 15, -1)),
            Code::Z(dec(true, 5, -1)),
        ]
    );
    assert!(codes.next().is_none());
    assert!(codes.next().is_none());
    // every slot has been cleared, so each prefix can be pushed again
    assert!(codes.push(Code::D(3)).is_ok());
}

// Hands out every code left in `codes`.
fn drain(mut codes: Codes) -> Vec<Code> {
    let mut out = Vec::new();
    while let Some(code) = codes.next() {
        out.push(code);
    }
    out
}

#[test]
fn gcodes_take_only_their_words() {
    // G43 reads H and leaves the rest
    let mut c = codes_of("H1 D2 S100 X1.");
    assert_eq!(GCode::parse(Code::G(43), &mut c), Ok(GCode::ToolLenCompAdd(1)));
    assert_eq!(drain(c), vec![Code::D(2), Code::S(100), Code::X(dec(false, 1, 0))]);
    // G01 reads X, Y, Z and F
    let mut c = codes_of("X1. F200. R5. T3");
    assert_eq!(
        GCode::parse(Code::G(1), &mut c),
        Ok(GCode::FeedMove {
            pos: PartialPoint::new(Some(dec(false, 1, 0)), None, None),
            feed: Some(dec(false, 2, 2)),
        })
    );
    assert_eq!(drain(c), vec![Code::R(dec(false, 5, 0)), Code::T(3)]);
    // G04 with P leaves X in place
    let mut c = codes_of("P1500 X2.");
    assert_eq!(GCode::parse(Code::G(4), &mut c), Ok(GCode::Dwell(dec(false, 15, -1))));
    assert_eq!(drain(c), vec![Code::X(dec(false, 2, 0))]);
    // G17 reads nothing
    let mut c = codes_of("X1. D4");
    assert_eq!(GCode::parse(Code::G(17), &mut c), Ok(GCode::XYPlane));
    assert_eq!(drain(c), vec![Code::D(4), Code::X(dec(false, 1, 0))]);
}
