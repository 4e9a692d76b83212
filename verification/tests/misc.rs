use gsim_rs::config::find_tool;
use gsim_rs::decimal::Decimal;
use gsim_rs::describe::Description;
use gsim_rs::geometry::view::View;
use gsim_rs::geometry::StaticConfig;
use gsim_rs::speed::Speed;

#[test]
fn decimal_is_canonical() {
    assert_eq!(Decimal::new(false, 1200, -1), Decimal { negative: false, mantissa: 12, exponent: 1 });
    assert_eq!(Decimal::new(true, 0, 5), Decimal::zero());
    assert_eq!(Decimal::new(true, 7, -3), Decimal { negative: true, mantissa: 7, exponent: -3 });
}

#[test]
fn speed_steps_and_labels() {
    let mut s = Speed::default();
    assert_eq!(s.frames_to_skip(), 5);
    assert_eq!(s.label(), "Default");
    assert!(s.inc());
    assert_eq!(s.label(), "+1");
    assert!(s.dec());
    assert!(s.dec());
    assert_eq!(s.label(), "-1");
    while s.dec() {}
    assert_eq!(s.frames_to_skip(), 0);
    assert_eq!(s.label(), "Min");
    while s.inc() {}
    assert_eq!(s.frames_to_skip(), 10);
    assert_eq!(s.label(), "Max");
    assert!(!s.inc());
}

#[test]
fn static_config_defaults_and_setters() {
    let mut c = StaticConfig::default();
    assert!(!c.machine_boundary());
    assert!(c.grid());
    assert!(c.origin());
    c.set_machine_boundary(true);
    c.set_grid(false);
    c.set_origin(false);
    assert!(c.machine_boundary());
    assert!(!c.grid());
    assert!(!c.origin());
}

#[test]
fn views_and_descriptions() {
    assert_eq!(View::default(), View::Isometric);
    assert_eq!(View::Top.label(), "TOP");
    assert_eq!(View::Right.label(), "RIGHT");
    let d = Description::new("Title", String::from("text"));
    assert_eq!(d.title(), "Title");
    assert_eq!(d.desc(), "text");
}

#[test]
fn tool_lookup() {
    assert_eq!(find_tool(&[1, 2, 2, 5], 2), Some(1));
    assert_eq!(find_tool(&[1, 2, 5], 5), Some(2));
    assert_eq!(find_tool(&[1, 2], 7), None);
    assert_eq!(find_tool(&[], 0), None);
}
