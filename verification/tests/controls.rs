use gsim_rs::gcode::MCode;
use gsim_rs::controls::{Action, Controls, Key};
use gsim_rs::geometry::view::View;
use gsim_rs::signal::UserSignal;
use gsim_rs::state::Interrupt;

fn release(c: &mut Controls, key: Key) -> gsim_rs::controls::Response {
    c.handle_key(key, false)
}

#[test]
fn starts_waiting_for_enter() {
    let mut c = Controls::new();
    assert_eq!(c.interrupt, Some(Interrupt::Start));
    assert_eq!(c.view, Some(View::Isometric));
    assert_eq!(c.speed.frames_to_skip(), 5);
    let r = release(&mut c, Key::Enter);
    assert_eq!(r.render, Some(false));
    assert_eq!(r.action, Some(Action::Redraw));
    assert_eq!(c.interrupt, None);
    // no interrupt left: enter is not handled
    assert_eq!(release(&mut c, Key::Enter).render, None);
}

#[test]
fn enter_after_end_restarts() {
    let mut c = Controls::new();
    c.interrupt = Some(Interrupt::End);
    let r = release(&mut c, Key::Enter);
    assert_eq!(r.action, Some(Action::Reload));
    assert_eq!(c.interrupt, Some(Interrupt::Start));
}

#[test]
fn presses_are_ignored() {
    let mut c = Controls::new();
    let r = c.handle_key(Key::Char('p'), true);
    assert_eq!(r.render, None);
    assert!(c.toolpath);
}

#[test]
fn visibility_toggles() {
    let mut c = Controls::new();
    let r = release(&mut c, Key::Char('p'));
    assert_eq!(r.render, Some(true));
    assert!(matches!(r.signal, Some(UserSignal::SetToolpathVisibility(false))));
    assert!(!c.toolpath);
    release(&mut c, Key::Char('p'));
    assert!(c.toolpath);
    let r = release(&mut c, Key::Char('s'));
    assert!(matches!(r.signal, Some(UserSignal::SetStockVisibility(false))));
    let r = release(&mut c, Key::Char('t'));
    assert!(matches!(r.signal, Some(UserSignal::SetToolVisibility(false))));
}

#[test]
fn view_switches_between_isometric_and_top() {
    let mut c = Controls::new();
    let r = release(&mut c, Key::Char('v'));
    assert_eq!(r.action, Some(Action::ShowView(View::Top)));
    assert!(matches!(r.signal, Some(UserSignal::SetView(Some(View::Top)))));
    release(&mut c, Key::Char('v'));
    assert_eq!(c.view, Some(View::Isometric));
    c.view = None;
    release(&mut c, Key::Char('v'));
    assert_eq!(c.view, Some(View::Isometric));
}

#[test]
fn single_block_stepping() {
    let mut c = Controls::new();
    // next block only in single mode
    assert_eq!(release(&mut c, Key::Char('n')).render, None);
    let r = release(&mut c, Key::Space);
    assert!(matches!(r.signal, Some(UserSignal::SetSingle(true))));
    assert_eq!(r.action, None);
    let r = release(&mut c, Key::Char('n'));
    assert_eq!(r.action, Some(Action::Redraw));
    assert!(c.next_requested);
    let r = release(&mut c, Key::Space);
    assert_eq!(r.action, Some(Action::Redraw));
    assert!(!c.single);
    assert!(!c.next_requested);
}

#[test]
fn speed_limits() {
    let mut c = Controls::new();
    for _ in 0..5 {
        assert!(release(&mut c, Key::Char('+')).render.is_some());
    }
    assert_eq!(c.speed.frames_to_skip(), 10);
    assert_eq!(release(&mut c, Key::Char('+')).render, None);
    for _ in 0..10 {
        assert!(release(&mut c, Key::Char('-')).render.is_some());
    }
    assert_eq!(release(&mut c, Key::Char('-')).render, None);
    assert_eq!(c.speed.frames_to_skip(), 0);
}

#[test]
fn fit_quit_and_other_keys() {
    let mut c = Controls::new();
    assert_eq!(release(&mut c, Key::Char('f')).render, None);
    c.fit = false;
    let r = release(&mut c, Key::Char('f'));
    assert_eq!(r.action, Some(Action::FitView));
    assert!(c.fit);
    assert_eq!(release(&mut c, Key::Char('q')).action, Some(Action::Exit));
    assert_eq!(release(&mut c, Key::Char('z')).render, None);
    assert_eq!(release(&mut c, Key::Other).render, None);
}

use gsim_rs::controls::{FramePlan, Motion, MouseButton};
use gsim_rs::signal::DisplaySettings;

#[test]
fn mouse_motion_moves_the_view() {
    let mut c = Controls::new();
    assert!(matches!(c.mouse_motion(), (None, None)));
    c.mouse_button(MouseButton::Left, true);
    let (motion, signal) = c.mouse_motion();
    assert_eq!(motion, Some(Motion::Pan));
    assert!(matches!(signal, Some(UserSignal::SetFit(false))));
    assert!(!c.fit);
    // already unfitted: nothing more to report
    assert!(c.mouse_motion().1.is_none());
    c.mouse_button(MouseButton::Middle, true);
    let (motion, signal) = c.mouse_motion();
    assert_eq!(motion, Some(Motion::Orbit));
    assert!(matches!(signal, Some(UserSignal::SetView(None))));
    assert_eq!(c.view, None);
    c.mouse_button(MouseButton::Middle, false);
    c.mouse_button(MouseButton::Right, true);
    let (motion, signal) = c.mouse_motion();
    assert_eq!(motion, Some(Motion::Spin));
    // the view was already left
    assert!(signal.is_none());
}

#[test]
fn frames_in_single_mode() {
    let mut c = Controls::new();
    // continuous mode: every drawn block is followed by the next one
    assert!(c.wants_block(true));
    assert!(!c.wants_block(false));
    assert_eq!(c.after_update(true, false), FramePlan { render: false, redraw: true });
    c.handle_key(Key::Space, false);
    // single mode without a request: wait
    assert!(!c.wants_block(true));
    assert_eq!(c.after_update(true, true), FramePlan { render: false, redraw: false });
    // a request executes one block, then waits again
    c.handle_key(Key::Char('n'), false);
    assert!(c.wants_block(true));
    assert_eq!(c.after_update(true, false), FramePlan { render: true, redraw: false });
    assert!(!c.next_requested);
    // still drawing the block: keep going
    assert_eq!(c.after_update(false, true), FramePlan { render: true, redraw: true });
}

#[test]
fn text_interface_follows_the_window() {
    let mut c = Controls::new();
    let mut d = DisplaySettings::new();
    let events = [Key::Char('v'), Key::Space, Key::Char('t'), Key::Char('+'), Key::Char('p'), Key::Char('s')];
    for key in events {
        if let Some(s) = c.handle_key(key, false).signal {
            d.apply(s);
        }
    }
    c.mouse_button(MouseButton::Left, true);
    if let Some(s) = c.mouse_motion().1 {
        d.apply(s);
    }
    assert_eq!(d.view, c.view);
    assert_eq!(d.view, Some(View::Top));
    assert_eq!(d.fit, c.fit);
    assert_eq!(d.single, c.single);
    assert_eq!(d.tool, c.tool);
    assert_eq!(d.toolpath, c.toolpath);
    assert_eq!(d.stock, c.stock);
    assert_eq!(d.speed.frames_to_skip(), 6);
}

#[test]
fn executed_blocks_pause_on_stops() {
    let mut c = Controls::new();
    c.handle_key(Key::Enter, false);
    assert_eq!(c.block_executed(Some(MCode::CoolantOn)), None);
    assert_eq!(c.interrupt, None);
    assert_eq!(c.block_executed(None), None);
    assert_eq!(c.block_executed(Some(MCode::OptionalStop)), Some(Interrupt::OptionalStop));
    assert_eq!(c.interrupt, Some(Interrupt::OptionalStop));
    c.handle_key(Key::Enter, false);
    c.exhausted();
    assert_eq!(c.interrupt, Some(Interrupt::End));
}
