use gsim_rs::gcode::{GCode, MCode};
use gsim_rs::lexer::Lexer;
use gsim_rs::panel::{key_rows, preview_rows, summary_lines, BlockSummary, KeyHint, PreviewRow};
use gsim_rs::parser::{Code, Parser};
use gsim_rs::source::Source;
use gsim_rs::state::Interrupt;

fn summary_of(line: &str) -> BlockSummary {
    let mut parser = Parser::new(Lexer::new(Source::from_str(line)));
    parser.next().unwrap().unwrap().summary()
}

#[test]
fn block_summary_order() {
    let s = summary_of("N10 G90 G1 X1. F20. S300 M3 T2");
    // G-codes last first, as the block hands them out
    assert_eq!(s.gcodes.len(), 2);
    assert!(matches!(s.gcodes[0], GCode::FeedMove { .. }));
    assert_eq!(s.gcodes[1], GCode::AbsoluteMode);
    // the spindle speed was taken by M03; the feed by G01
    assert_eq!(s.mcode, Some(MCode::SpindleFwd(Some(300))));
    assert_eq!(s.codes, vec![Code::N(10), Code::T(2)]);
}

#[test]
fn summary_text_lines() {
    let s = summary_of("N10 G90 G0 X1. M30 T2");
    let lines = summary_lines(None, &s);
    assert_eq!(
        lines,
        vec![
            "GCODES:",
            "G00 - Rapid Move to: (X: 1)",
            "G90 - Activate Absolute Positioning",
            "",
            "MCODE:",
            "M30 - Program End",
            "",
            "Other CODES:",
            "Line number: 10",
            "Preload tool number: 2",
        ]
    );
    let single = summary_of("G17 O5");
    assert_eq!(
        summary_lines(None, &single),
        vec!["GCODE:", "G17 - Select XY Plane", "", "Other CODE:", "Program number: 5"]
    );
    assert_eq!(
        summary_lines(Some(Interrupt::OptionalStop), &single),
        vec!["OPTIONAL STOP detected.", "", "Press Enter to remove the interrupt."]
    );
    let empty = BlockSummary { gcodes: vec![], mcode: None, codes: vec![] };
    assert!(summary_lines(None, &empty).is_empty());
}

#[test]
fn interrupts_of_mcodes() {
    assert_eq!(Interrupt::of_mcode(MCode::Stop), Some(Interrupt::Stop));
    assert_eq!(Interrupt::of_mcode(MCode::OptionalStop), Some(Interrupt::OptionalStop));
    assert_eq!(Interrupt::of_mcode(MCode::End), Some(Interrupt::End));
    assert_eq!(Interrupt::of_mcode(MCode::CoolantOn), None);
    assert_eq!(Interrupt::End.label(), "END");
}

#[test]
fn preview_window() {
    let text: Vec<String> = (0..20).map(|i| format!("N{i}")).collect();
    let refs: Vec<&str> = text.iter().map(|s| s.as_str()).collect();
    let src = Source::from_lines(&refs);
    // one line of context, the current line, ten lines ahead
    let rows = preview_rows(&src, 5, false);
    assert_eq!(rows.len(), 12);
    assert_eq!(rows[0], PreviewRow { index: 4, highlighted: false });
    assert_eq!(rows[1], PreviewRow { index: 5, highlighted: true });
    assert_eq!(rows[11].index, 15);
    // at the start: no context line, nothing highlighted while waiting to start
    let rows = preview_rows(&src, 0, true);
    assert_eq!(rows[0], PreviewRow { index: 0, highlighted: false });
    // near the end: up to the last line
    let rows = preview_rows(&src, 18, false);
    assert_eq!(rows.len(), 3);
    assert_eq!(rows[2].index, 19);
    // beyond the end: nothing
    assert!(preview_rows(&src, 25, false).is_empty());
}

#[test]
fn listed_keys() {
    let (first, second) = key_rows(None, true, false);
    assert_eq!(
        first,
        vec![
            KeyHint::Quit,
            KeyHint::SwitchView,
            KeyHint::SpeedUp,
            KeyHint::SlowDown,
            KeyHint::NextBlock,
            KeyHint::FitView
        ]
    );
    assert_eq!(second.len(), 4);
    assert_eq!(KeyHint::ToggleSingle.text(), ("Space", "Toggle Single"));
    let (first, _) = key_rows(Some(Interrupt::Start), true, true);
    assert_eq!(first.len(), 4);
}

use gsim_rs::geometry::view::View as SimView;
use gsim_rs::panel::modes;
use gsim_rs::signal::DisplaySettings;
use gsim_rs::state::{Cycle, Executed, Step, TermKey, View};

#[test]
fn listed_modes() {
    let mut d = DisplaySettings::new();
    let m = modes(&d);
    assert_eq!(m, vec![("ISOMETRIC", true), ("FIT", true), ("SINGLE", false), ("TOOL", true), ("TOOLPATH", true), ("STOCK", true)]);
    d.view = None;
    d.fit = false;
    let m = modes(&d);
    assert_eq!(m[0], ("ORBITING", true));
    assert_eq!(m[1], ("FIT", false));
    d.view = Some(SimView::Top);
    assert_eq!(modes(&d)[0].0, "TOP");
}

#[test]
fn text_cycle_start_and_views() {
    let mut c = Cycle::new();
    assert_eq!(c.view, View::Text);
    assert!(!c.runs_on());
    // the start confirmation executes the first block and lets the program run on
    assert_eq!(c.handle_key(TermKey::Enter), Step::Execute);
    assert!(c.runs_on());
    assert_eq!(c.handle_key(TermKey::Char('v')), Step::Wait);
    assert_eq!(c.view, View::Plane);
    c.handle_key(TermKey::Char('v'));
    assert_eq!(c.view, View::Isometric);
    c.handle_key(TermKey::Char('v'));
    assert_eq!(c.view, View::Text);
    assert_eq!(c.handle_key(TermKey::Char('Q')), Step::Quit);
}

#[test]
fn text_cycle_single_steps_and_end() {
    let mut c = Cycle::new();
    c.handle_key(TermKey::Char('s'));
    assert!(c.single);
    // no block while the start is not confirmed
    assert_eq!(c.handle_key(TermKey::Char('n')), Step::Wait);
    assert_eq!(c.handle_key(TermKey::Enter), Step::Execute);
    assert!(!c.runs_on());
    assert_eq!(c.handle_key(TermKey::Char('n')), Step::Execute);
    c.executed(Executed::Block);
    c.executed(Executed::Exhausted);
    assert_eq!(c.interrupt, Some(Interrupt::End));
    assert_eq!(c.handle_key(TermKey::Enter), Step::Reload);
    assert_eq!(c.interrupt, Some(Interrupt::Start));
    // a stop is cleared without executing
    c.interrupt = Some(Interrupt::Stop);
    assert_eq!(c.handle_key(TermKey::Enter), Step::Wait);
    assert_eq!(c.interrupt, None);
}

#[test]
fn text_cycle_failure() {
    let mut c = Cycle::new();
    c.handle_key(TermKey::Enter);
    c.executed(Executed::Failed);
    assert!(!c.runs_on());
    assert_eq!(c.handle_key(TermKey::Char('Q')), Step::Wait);
    assert_eq!(c.handle_key(TermKey::Other), Step::Wait);
    assert_eq!(c.handle_key(TermKey::Enter), Step::Fail);
}
