//! # Format
//!
//! Text of numbers and codes as the text interface shows them: decimal numbers in plain
//! positional notation, points as `(X: 1, Z: -2.5)`, and one line per code.
use vstd::prelude::*;
use crate::decimal::Decimal;
use crate::gcode::{GCode, MCode};
use crate::parser::{CircleMethod, Code, PartialPoint};
use crate::text::{str_chars, string_from_chars};

verus! {

/// The character of a decimal digit.
pub open spec fn digit_char(d: nat) -> char {
    if d == 0 {
        '0'
    } else if d == 1 {
        '1'
    } else if d == 2 {
        '2'
    } else if d == 3 {
        '3'
    } else if d == 4 {
        '4'
    } else if d == 5 {
        '5'
    } else if d == 6 {
        '6'
    } else if d == 7 {
        '7'
    } else if d == 8 {
        '8'
    } else {
        '9'
    }
}

/// The decimal digits of `n`, without leading zeros (`"0"` for zero).
pub open spec fn nat_digits(n: nat) -> Seq<char>
    decreases n,
{
    if n < 10 {
        seq![digit_char(n)]
    } else {
        nat_digits(n / 10).push(digit_char(n % 10))
    }
}

/// The decimal digits of `n`, padded with a zero to at least two digits.
pub open spec fn pad2_digits(n: nat) -> Seq<char> {
    if n < 10 {
        seq!['0'] + nat_digits(n)
    } else {
        nat_digits(n)
    }
}

/// `n` zeros.
pub open spec fn zeros(n: nat) -> Seq<char> {
    Seq::new(n, |_i: int| '0')
}

/// A decimal in plain positional notation: `-` for a negative number, the integer digits,
/// and a `.` with the fractional digits when the exponent is negative.
pub open spec fn decimal_text(d: Decimal) -> Seq<char> {
    let sign: Seq<char> = if d.negative {
        seq!['-']
    } else {
        Seq::empty()
    };
    let ds = nat_digits(d.mantissa as nat);
    if d.exponent >= 0 {
        sign + ds + zeros(d.exponent as nat)
    } else {
        let k = -d.exponent;
        if ds.len() > k {
            sign + ds.take(ds.len() - k) + seq!['.'] + ds.skip(ds.len() - k)
        } else {
            sign + seq!['0', '.'] + zeros((k - ds.len()) as nat) + ds
        }
    }
}

/// `parts` separated by `", "`.
pub open spec fn join_comma(parts: Seq<Seq<char>>) -> Seq<char>
    decreases parts.len(),
{
    if parts.len() == 0 {
        Seq::empty()
    } else if parts.len() == 1 {
        parts[0]
    } else {
        join_comma(parts.drop_last()) + ", "@ + parts.last()
    }
}

fn digit_exec(d: u128) -> (c: char)
    requires
        d < 10,
    ensures
        c == digit_char(d as nat),
{
    if d == 0 {
        '0'
    } else if d == 1 {
        '1'
    } else if d == 2 {
        '2'
    } else if d == 3 {
        '3'
    } else if d == 4 {
        '4'
    } else if d == 5 {
        '5'
    } else if d == 6 {
        '6'
    } else if d == 7 {
        '7'
    } else if d == 8 {
        '8'
    } else {
        '9'
    }
}

/// Appends the decimal digits of `n`.
pub fn push_nat(v: &mut Vec<char>, n: u128)
    ensures
        final(v)@ == old(v)@ + nat_digits(n as nat),
    decreases n,
{
    if n >= 10 {
        push_nat(v, n / 10);
    }
    v.push(digit_exec(n % 10));
    proof {
        if n >= 10 {
            assert(old(v)@ + nat_digits(n as nat) =~= old(v)@ + nat_digits((n / 10) as nat) + seq![
                digit_char((n % 10) as nat),
            ]);
        } else {
            assert(old(v)@ + nat_digits(n as nat) =~= old(v)@.push(digit_char(n as nat)));
        }
    }
}

/// Appends the characters of `s`.
pub fn push_str(v: &mut Vec<char>, s: &str)
    ensures
        final(v)@ == old(v)@ + s@,
{
    let cs = str_chars(s);
    push_range(v, &cs, 0, cs.len());
    assert(cs@.subrange(0, cs@.len() as int) =~= s@);
}

/// Appends `src[lo..hi]`.
pub fn push_range(v: &mut Vec<char>, src: &Vec<char>, lo: usize, hi: usize)
    requires
        lo <= hi <= src.len(),
    ensures
        final(v)@ == old(v)@ + src@.subrange(lo as int, hi as int),
{
    let mut i = lo;
    while i < hi
        invariant
            lo <= i <= hi <= src.len(),
            v@ == old(v)@ + src@.subrange(lo as int, i as int),
        decreases hi - i,
    {
        v.push(src[i]);
        i = i + 1;
        assert(v@ =~= old(v)@ + src@.subrange(lo as int, i as int));
    }
}

/// Appends `n` zeros.
pub fn push_zeros(v: &mut Vec<char>, n: u128)
    ensures
        final(v)@ == old(v)@ + zeros(n as nat),
{
    let mut i: u128 = 0;
    while i < n
        invariant
            i <= n,
            v@ == old(v)@ + zeros(i as nat),
        decreases n - i,
    {
        v.push('0');
        i = i + 1;
        assert(v@ =~= old(v)@ + zeros(i as nat));
    }
}

/// Appends the text of a decimal.
pub fn push_decimal(v: &mut Vec<char>, d: Decimal)
    ensures
        final(v)@ == old(v)@ + decimal_text(d),
{
    let ghost start = v@;
    if d.negative {
        v.push('-');
    }
    let ghost signed = v@;
    let ghost sign: Seq<char> = if d.negative {
        seq!['-']
    } else {
        Seq::empty()
    };
    assert(signed =~= start + sign);
    let mut ds: Vec<char> = Vec::new();
    push_nat(&mut ds, d.mantissa);
    assert(ds@ =~= nat_digits(d.mantissa as nat));
    let len = ds.len();
    if d.exponent >= 0 {
        push_range(v, &ds, 0, len);
        push_zeros(v, d.exponent as u128);
        assert(ds@.subrange(0, len as int) =~= ds@);
        assert(v@ =~= start + decimal_text(d));
    } else {
        let k: u128 = ((-(d.exponent + 1)) as u128) + 1;
        assert(k == -d.exponent);
        if (len as u128) > k {
            let cut: usize = len - (k as usize);
            push_range(v, &ds, 0, cut);
            v.push('.');
            push_range(v, &ds, cut, len);
            assert(ds@.take(ds@.len() - k) =~= ds@.subrange(0, cut as int));
            assert(ds@.skip(ds@.len() - k) =~= ds@.subrange(cut as int, len as int));
            assert(v@ =~= start + decimal_text(d));
        } else {
            v.push('0');
            v.push('.');
            push_zeros(v, k - (len as u128));
            push_range(v, &ds, 0, len);
            assert(ds@.subrange(0, len as int) =~= ds@);
            assert(v@ =~= start + decimal_text(d));
        }
    }
}

/// Appends `parts` separated by `", "`.
pub fn push_joined(v: &mut Vec<char>, parts: &Vec<Vec<char>>)
    ensures
        final(v)@ == old(v)@ + join_comma(parts@.map_values(|t: Vec<char>| t@)),
{
    let ghost all = parts@.map_values(|t: Vec<char>| t@);
    let mut i: usize = 0;
    assert(all.take(0) =~= Seq::<Seq<char>>::empty());
    assert(v@ =~= old(v)@ + join_comma(all.take(0)));
    while i < parts.len()
        invariant
            i <= parts.len(),
            all == parts@.map_values(|t: Vec<char>| t@),
            v@ == old(v)@ + join_comma(all.take(i as int)),
        decreases parts.len() - i,
    {
        let ghost before = v@;
        if i > 0 {
            push_str(v, ", ");
        }
        let part = &parts[i];
        push_range(v, part, 0, part.len());
        proof {
            let t = all.take(i + 1);
            assert(t.drop_last() =~= all.take(i as int));
            assert(t.last() == part@);
            assert(part@.subrange(0, part@.len() as int) =~= part@);
            if i == 0 {
                assert(join_comma(t) == t[0]);
                assert(v@ =~= old(v)@ + join_comma(t));
            } else {
                assert(v@ =~= old(v)@ + join_comma(t));
            }
        }
        i = i + 1;
    }
    assert(all.take(parts.len() as int) =~= all);
}

/// The texts of the axes of `p` that are present: `X: <x>`, `Y: <y>`, `Z: <z>`.
pub open spec fn axis_texts(p: PartialPoint) -> Seq<Seq<char>> {
    let xs: Seq<Seq<char>> = match p.x {
        Some(x) => seq!["X: "@ + decimal_text(x)],
        None => Seq::empty(),
    };
    let ys: Seq<Seq<char>> = match p.y {
        Some(y) => seq!["Y: "@ + decimal_text(y)],
        None => Seq::empty(),
    };
    let zs: Seq<Seq<char>> = match p.z {
        Some(z) => seq!["Z: "@ + decimal_text(z)],
        None => Seq::empty(),
    };
    xs + ys + zs
}

/// A point as `(X: 1, Z: -2.5)`; empty when no axis is present.
pub open spec fn point_text(p: PartialPoint) -> Seq<char> {
    let parts = axis_texts(p);
    if parts.len() == 0 {
        Seq::empty()
    } else {
        "("@ + join_comma(parts) + ")"@
    }
}

fn axis_part(label: &str, d: Decimal) -> (r: Vec<char>)
    ensures
        r@ == label@ + decimal_text(d),
{
    let mut t: Vec<char> = Vec::new();
    push_str(&mut t, label);
    push_decimal(&mut t, d);
    assert(t@ =~= label@ + decimal_text(d));
    t
}

/// Appends the text of a point.
pub fn push_point(v: &mut Vec<char>, p: &PartialPoint)
    ensures
        final(v)@ == old(v)@ + point_text(*p),
{
    let mut parts: Vec<Vec<char>> = Vec::new();
    let ghost xs: Seq<Seq<char>> = match p.x {
        Some(x) => seq!["X: "@ + decimal_text(x)],
        None => Seq::empty(),
    };
    let ghost ys: Seq<Seq<char>> = match p.y {
        Some(y) => seq!["Y: "@ + decimal_text(y)],
        None => Seq::empty(),
    };
    if let Some(x) = p.x {
        parts.push(axis_part("X: ", x));
    }
    assert(parts@.map_values(|t: Vec<char>| t@) =~= xs);
    if let Some(y) = p.y {
        parts.push(axis_part("Y: ", y));
    }
    assert(parts@.map_values(|t: Vec<char>| t@) =~= xs + ys);
    if let Some(z) = p.z {
        parts.push(axis_part("Z: ", z));
    }
    assert(parts@.map_values(|t: Vec<char>| t@) =~= axis_texts(*p));
    if parts.len() > 0 {
        push_str(v, "(");
        push_joined(v, &parts);
        push_str(v, ")");
        assert(v@ =~= old(v)@ + point_text(*p));
    } else {
        assert(v@ =~= old(v)@ + point_text(*p));
    }
}

/// The circle method: its relative center or its radius.
pub open spec fn circle_text(m: CircleMethod) -> Seq<char> {
    match m {
        CircleMethod::RelativePoint(pos) => "Relative Center at: "@ + point_text(pos),
        CircleMethod::FixedRadius(r) => "Radius: "@ + decimal_text(r),
    }
}

/// Appends the text of a circle method.
pub fn push_circle(v: &mut Vec<char>, m: &CircleMethod)
    ensures
        final(v)@ == old(v)@ + circle_text(*m),
{
    match m {
        CircleMethod::RelativePoint(pos) => {
            push_str(v, "Relative Center at: ");
            push_point(v, pos);
        },
        CircleMethod::FixedRadius(r) => {
            push_str(v, "Radius: ");
            push_decimal(v, *r);
        },
    }
    assert(v@ =~= old(v)@ + circle_text(*m));
}

/// The text of the codes that are shown on their own; empty for the others.
pub open spec fn code_text(c: Code) -> Seq<char> {
    match c {
        Code::N(n) => "Line number: "@ + nat_digits(n as nat),
        Code::O(o) => "Program number: "@ + nat_digits(o as nat),
        Code::S(s) => "Set new spindle speed: "@ + nat_digits(s as nat),
        Code::T(t) => "Preload tool number: "@ + nat_digits(t as nat),
        Code::F(f) => "Set new feedrate: "@ + decimal_text(f),
        _ => Seq::empty(),
    }
}

/// ` with feed: <f>` for a feed, empty without one.
pub open spec fn feed_text(feed: Option<Decimal>) -> Seq<char> {
    match feed {
        Some(f) => " with feed: "@ + decimal_text(f),
        None => Seq::empty(),
    }
}

/// ` to: <point>` for a point with an axis, empty for one without.
pub open spec fn target_text(pos: PartialPoint) -> Seq<char> {
    if pos.spec_are_none() {
        Seq::empty()
    } else {
        " to: "@ + point_text(pos)
    }
}

/// What a G-code does, in words.
pub open spec fn gcode_body(g: GCode) -> Seq<char> {
    match g {
        GCode::RapidMove(pos) => "Rapid Move"@ + target_text(pos),
        GCode::FeedMove { pos, feed } => "Feed Move"@ + target_text(pos) + feed_text(feed),
        GCode::CWArcMove { pos, method, feed } => "Clockwise Move with "@ + circle_text(method)
            + " to: "@ + point_text(pos) + feed_text(feed),
        GCode::CCWArcMove { pos, method, feed } => "Counter-Clockwise Move with "@ + circle_text(
            method,
        ) + " to: "@ + point_text(pos) + feed_text(feed),
        GCode::Dwell(p) => "Dwell for "@ + decimal_text(p) + " seconds"@,
        GCode::XYPlane => "Select XY Plane"@,
        GCode::XZPlane => "Select XZ Plane"@,
        GCode::YZPlane => "Select YZ Plane"@,
        GCode::ImperialMode => "Activate Imperial Mode"@,
        GCode::MetricMode => "Activate Metric Mode"@,
        GCode::CancelCutterComp => "Cancel Cutter Compensation"@,
        GCode::LeftCutterComp(d) => "Activate Left Cutter Compensation with D"@ + nat_digits(
            d as nat,
        ) + " offset"@,
        GCode::RightCutterComp(d) => "Activate Right Cutter Compensation with D"@ + nat_digits(
            d as nat,
        ) + " offset"@,
        GCode::ToolLenCompAdd(h) => "Add Tool Length with H"@ + nat_digits(h as nat)
            + " offset"@,
        GCode::ToolLenCompSubtract(h) => "Subtract Tool Length with H"@ + nat_digits(h as nat)
            + " offset"@,
        GCode::CancelLenComp => "Cancel Tool Length Compensation"@,
        GCode::MachineCoord(pos) => "Machine Position Move to: "@ + point_text(pos),
        GCode::WorkCoord => "Activate Work Coordinate offset"@,
        GCode::CancelCanned => "Cancel Canned cycle"@,
        GCode::AbsoluteMode => "Activate Absolute Positioning"@,
        GCode::IncrementalMode => "Activate Incremental Positioning"@,
        GCode::FeedMinute => "Activate Inverse Minute Feed mode"@,
        GCode::FeedRev => "Activate Inverse Revolution Feed mode"@,
        GCode::InitialReturn => "Activate Initial Level return in canned cycles"@,
        GCode::RetractReturn => "Activate Retract Level return in canned cycles"@,
    }
}

/// A G-code line: `G01 - Feed Move to: (X: 1) with feed: 20`.
pub open spec fn gcode_text(g: GCode) -> Seq<char> {
    "G"@ + pad2_digits(g.spec_suffix() as nat) + " - "@ + gcode_body(g)
}

/// What an M-code does, in words.
pub open spec fn mcode_body(m: MCode) -> Seq<char> {
    match m {
        MCode::Stop => "Program Stop"@,
        MCode::OptionalStop => "Optional Stop"@,
        MCode::SpindleFwd(Some(s)) => "Clockwise Spindle On, at "@ + nat_digits(s as nat)
            + " RPMs"@,
        MCode::SpindleFwd(None) => "Clockwise Spindle On"@,
        MCode::SpindleRev(Some(s)) => "Counter-Clockwise Spindle On, at "@ + nat_digits(s as nat)
            + " RPMs"@,
        MCode::SpindleRev(None) => "Counter-Clockwise Spindle On"@,
        MCode::SpindleStop => "Spindle Off"@,
        MCode::ToolChange(Some(t)) => "Tool Change to tool number: "@ + nat_digits(t as nat),
        MCode::ToolChange(None) => "Tool Change to any preloaded tool"@,
        MCode::CoolantOn => "Coolant On"@,
        MCode::CoolantOff => "Coolant Off"@,
        MCode::End => "Program End"@,
    }
}

/// An M-code line: `M03 - Clockwise Spindle On, at 1000 RPMs`.
pub open spec fn mcode_text(m: MCode) -> Seq<char> {
    "M"@ + pad2_digits(m.spec_suffix() as nat) + " - "@ + mcode_body(m)
}

/// Appends `n` with at least two digits.
fn push_pad2(v: &mut Vec<char>, n: u32)
    ensures
        final(v)@ == old(v)@ + pad2_digits(n as nat),
{
    if n < 10 {
        v.push('0');
    }
    push_nat(v, n as u128);
    assert(v@ =~= old(v)@ + pad2_digits(n as nat));
}

fn push_feed(v: &mut Vec<char>, feed: &Option<Decimal>)
    ensures
        final(v)@ == old(v)@ + feed_text(*feed),
{
    if let Some(f) = feed {
        push_str(v, " with feed: ");
        push_decimal(v, *f);
    }
    assert(v@ =~= old(v)@ + feed_text(*feed));
}

fn push_target(v: &mut Vec<char>, pos: &PartialPoint)
    ensures
        final(v)@ == old(v)@ + target_text(*pos),
{
    if !pos.are_none() {
        push_str(v, " to: ");
        push_point(v, pos);
    }
    assert(v@ =~= old(v)@ + target_text(*pos));
}

fn push_labeled_nat(v: &mut Vec<char>, label: &str, n: u32, tail: &str)
    ensures
        final(v)@ == old(v)@ + label@ + nat_digits(n as nat) + tail@,
{
    push_str(v, label);
    push_nat(v, n as u128);
    push_str(v, tail);
    assert(v@ =~= old(v)@ + label@ + nat_digits(n as nat) + tail@);
}

fn push_gcode_body(v: &mut Vec<char>, g: &GCode)
    ensures
        final(v)@ == old(v)@ + gcode_body(*g),
{
    match g {
        GCode::RapidMove(pos) => {
            push_str(v, "Rapid Move");
            push_target(v, pos);
        },
        GCode::FeedMove { pos, feed } => {
            push_str(v, "Feed Move");
            push_target(v, pos);
            push_feed(v, feed);
        },
        GCode::CWArcMove { pos, method, feed } => {
            push_str(v, "Clockwise Move with ");
            push_circle(v, method);
            push_str(v, " to: ");
            push_point(v, pos);
            push_feed(v, feed);
        },
        GCode::CCWArcMove { pos, method, feed } => {
            push_str(v, "Counter-Clockwise Move with ");
            push_circle(v, method);
            push_str(v, " to: ");
            push_point(v, pos);
            push_feed(v, feed);
        },
        GCode::Dwell(p) => {
            push_str(v, "Dwell for ");
            push_decimal(v, *p);
            push_str(v, " seconds");
        },
        GCode::XYPlane => push_str(v, "Select XY Plane"),
        GCode::XZPlane => push_str(v, "Select XZ Plane"),
        GCode::YZPlane => push_str(v, "Select YZ Plane"),
        GCode::ImperialMode => push_str(v, "Activate Imperial Mode"),
        GCode::MetricMode => push_str(v, "Activate Metric Mode"),
        GCode::CancelCutterComp => push_str(v, "Cancel Cutter Compensation"),
        GCode::LeftCutterComp(d) => push_labeled_nat(
            v,
            "Activate Left Cutter Compensation with D",
            *d,
            " offset",
        ),
        GCode::RightCutterComp(d) => push_labeled_nat(
            v,
            "Activate Right Cutter Compensation with D",
            *d,
            " offset",
        ),
        GCode::ToolLenCompAdd(h) => push_labeled_nat(v, "Add Tool Length with H", *h, " offset"),
        GCode::ToolLenCompSubtract(h) => push_labeled_nat(
            v,
            "Subtract Tool Length with H",
            *h,
            " offset",
        ),
        GCode::CancelLenComp => push_str(v, "Cancel Tool Length Compensation"),
        GCode::MachineCoord(pos) => {
            push_str(v, "Machine Position Move to: ");
            push_point(v, pos);
        },
        GCode::WorkCoord => push_str(v, "Activate Work Coordinate offset"),
        GCode::CancelCanned => push_str(v, "Cancel Canned cycle"),
        GCode::AbsoluteMode => push_str(v, "Activate Absolute Positioning"),
        GCode::IncrementalMode => push_str(v, "Activate Incremental Positioning"),
        GCode::FeedMinute => push_str(v, "Activate Inverse Minute Feed mode"),
        GCode::FeedRev => push_str(v, "Activate Inverse Revolution Feed mode"),
        GCode::InitialReturn => push_str(v, "Activate Initial Level return in canned cycles"),
        GCode::RetractReturn => push_str(v, "Activate Retract Level return in canned cycles"),
    }
    assert(v@ =~= old(v)@ + gcode_body(*g));
}

fn push_mcode_body(v: &mut Vec<char>, m: &MCode)
    ensures
        final(v)@ == old(v)@ + mcode_body(*m),
{
    match m {
        MCode::Stop => push_str(v, "Program Stop"),
        MCode::OptionalStop => push_str(v, "Optional Stop"),
        MCode::SpindleFwd(Some(s)) => push_labeled_nat(
            v,
            "Clockwise Spindle On, at ",
            *s,
            " RPMs",
        ),
        MCode::SpindleFwd(None) => push_str(v, "Clockwise Spindle On"),
        MCode::SpindleRev(Some(s)) => push_labeled_nat(
            v,
            "Counter-Clockwise Spindle On, at ",
            *s,
            " RPMs",
        ),
        MCode::SpindleRev(None) => push_str(v, "Counter-Clockwise Spindle On"),
        MCode::SpindleStop => push_str(v, "Spindle Off"),
        MCode::ToolChange(Some(t)) => {
            push_str(v, "Tool Change to tool number: ");
            push_nat(v, *t as u128);
        },
        MCode::ToolChange(None) => push_str(v, "Tool Change to any preloaded tool"),
        MCode::CoolantOn => push_str(v, "Coolant On"),
        MCode::CoolantOff => push_str(v, "Coolant Off"),
        MCode::End => push_str(v, "Program End"),
    }
    assert(v@ =~= old(v)@ + mcode_body(*m));
}

impl Decimal {
    /// The number in plain positional notation: `-1.25`, `20`, `0.005`.
    pub fn to_text(&self) -> (r: String)
        ensures
            r@ == decimal_text(*self),
    {
        let mut v: Vec<char> = Vec::new();
        push_decimal(&mut v, *self);
        assert(v@ =~= decimal_text(*self));
        string_from_chars(v)
    }
}

impl PartialPoint {
    /// The present axes with their values, as `(X: 1, Z: -2.5)`; empty without any.
    pub fn to_text(&self) -> (r: String)
        ensures
            r@ == point_text(*self),
    {
        let mut v: Vec<char> = Vec::new();
        push_point(&mut v, self);
        assert(v@ =~= point_text(*self));
        string_from_chars(v)
    }
}

impl CircleMethod {
    /// `Relative Center at: <point>` or `Radius: <r>`.
    pub fn to_text(&self) -> (r: String)
        ensures
            r@ == circle_text(*self),
    {
        let mut v: Vec<char> = Vec::new();
        push_circle(&mut v, self);
        assert(v@ =~= circle_text(*self));
        string_from_chars(v)
    }
}

impl Code {
    /// What the code sets, for line and program numbers, spindle speed, preloaded tool and
    /// feed; empty for the other codes.
    pub fn to_text(&self) -> (r: String)
        ensures
            r@ == code_text(*self),
    {
        let mut v: Vec<char> = Vec::new();
        match self {
            Code::N(n) => push_labeled_nat(&mut v, "Line number: ", *n, ""),
            Code::O(o) => push_labeled_nat(&mut v, "Program number: ", *o, ""),
            Code::S(s) => push_labeled_nat(&mut v, "Set new spindle speed: ", *s, ""),
            Code::T(t) => push_labeled_nat(&mut v, "Preload tool number: ", *t, ""),
            Code::F(f) => {
                push_str(&mut v, "Set new feedrate: ");
                push_decimal(&mut v, *f);
            },
            _ => {},
        }
        proof {
            reveal_strlit("");
        }
        assert(v@ =~= code_text(*self));
        string_from_chars(v)
    }
}

impl GCode {
    /// The G-code number, padded to two digits, and what the code does:
    /// `G00 - Rapid Move to: (X: 0, Y: 0)`.
    pub fn to_text(&self) -> (r: String)
        ensures
            r@ == gcode_text(*self),
    {
        let mut v: Vec<char> = Vec::new();
        push_str(&mut v, "G");
        push_pad2(&mut v, self.suffix());
        push_str(&mut v, " - ");
        push_gcode_body(&mut v, self);
        assert(v@ =~= gcode_text(*self));
        string_from_chars(v)
    }
}

impl MCode {
    /// The M-code number, padded to two digits, and what the code does:
    /// `M30 - Program End`.
    pub fn to_text(&self) -> (r: String)
        ensures
            r@ == mcode_text(*self),
    {
        let mut v: Vec<char> = Vec::new();
        push_str(&mut v, "M");
        push_pad2(&mut v, self.suffix());
        push_str(&mut v, " - ");
        push_mcode_body(&mut v, self);
        assert(v@ =~= mcode_text(*self));
        string_from_chars(v)
    }
}


/// The line of each G-code: `G`, its number in two digits, ` - `, and what it does: the
/// move with its target, circle and feed, the plane, unit, positioning, feed or return mode
/// it selects, the offset it activates with its number, or what it cancels.
pub proof fn lemma_gcode_lines(
    pos: PartialPoint,
    method: CircleMethod,
    feed: Option<Decimal>,
    p: Decimal,
    n: u32,
)
    ensures
        gcode_text(GCode::RapidMove(pos)) == "G"@ + pad2_digits(0) + " - "@ + ("Rapid Move"@ + target_text(pos)),
        gcode_text(GCode::FeedMove { pos, feed }) == "G"@ + pad2_digits(1) + " - "@ + ("Feed Move"@ + target_text(pos) + feed_text(feed)),
        gcode_text(GCode::CWArcMove { pos, method, feed }) == "G"@ + pad2_digits(2) + " - "@ + ("Clockwise Move with "@ + circle_text(method) + " to: "@ + point_text(pos)
            + feed_text(feed)),
        gcode_text(GCode::CCWArcMove { pos, method, feed }) == "G"@ + pad2_digits(3) + " - "@ + ("Counter-Clockwise Move with "@ + circle_text(method) + " to: "@
            + point_text(pos) + feed_text(feed)),
        gcode_text(GCode::Dwell(p)) == "G"@ + pad2_digits(4) + " - "@ + ("Dwell for "@ + decimal_text(p) + " seconds"@),
        gcode_text(GCode::XYPlane) == "G"@ + pad2_digits(17) + " - "@ + "Select XY Plane"@,
        gcode_text(GCode::XZPlane) == "G"@ + pad2_digits(18) + " - "@ + "Select XZ Plane"@,
        gcode_text(GCode::YZPlane) == "G"@ + pad2_digits(19) + " - "@ + "Select YZ Plane"@,
        gcode_text(GCode::ImperialMode) == "G"@ + pad2_digits(20) + " - "@ + "Activate Imperial Mode"@,
        gcode_text(GCode::MetricMode) == "G"@ + pad2_digits(21) + " - "@ + "Activate Metric Mode"@,
        gcode_text(GCode::CancelCutterComp) == "G"@ + pad2_digits(40) + " - "@ + "Cancel Cutter Compensation"@,
        gcode_text(GCode::LeftCutterComp(n)) == "G"@ + pad2_digits(41) + " - "@ + ("Activate Left Cutter Compensation with D"@ + nat_digits(n as nat)
            + " offset"@),
        gcode_text(GCode::RightCutterComp(n)) == "G"@ + pad2_digits(42) + " - "@ + ("Activate Right Cutter Compensation with D"@ + nat_digits(n as nat)
            + " offset"@),
        gcode_text(GCode::ToolLenCompAdd(n)) == "G"@ + pad2_digits(43) + " - "@ + ("Add Tool Length with H"@ + nat_digits(n as nat) + " offset"@),
        gcode_text(GCode::ToolLenCompSubtract(n)) == "G"@ + pad2_digits(44) + " - "@ + ("Subtract Tool Length with H"@ + nat_digits(n as nat) + " offset"@),
        gcode_text(GCode::CancelLenComp) == "G"@ + pad2_digits(49) + " - "@ + "Cancel Tool Length Compensation"@,
        gcode_text(GCode::MachineCoord(pos)) == "G"@ + pad2_digits(53) + " - "@ + ("Machine Position Move to: "@ + point_text(pos)),
        gcode_text(GCode::WorkCoord) == "G"@ + pad2_digits(54) + " - "@ + "Activate Work Coordinate offset"@,
        gcode_text(GCode::CancelCanned) == "G"@ + pad2_digits(80) + " - "@ + "Cancel Canned cycle"@,
        gcode_text(GCode::AbsoluteMode) == "G"@ + pad2_digits(90) + " - "@ + "Activate Absolute Positioning"@,
        gcode_text(GCode::IncrementalMode) == "G"@ + pad2_digits(91) + " - "@ + "Activate Incremental Positioning"@,
        gcode_text(GCode::FeedMinute) == "G"@ + pad2_digits(94) + " - "@ + "Activate Inverse Minute Feed mode"@,
        gcode_text(GCode::FeedRev) == "G"@ + pad2_digits(95) + " - "@ + "Activate Inverse Revolution Feed mode"@,
        gcode_text(GCode::InitialReturn) == "G"@ + pad2_digits(98) + " - "@ + "Activate Initial Level return in canned cycles"@,
        gcode_text(GCode::RetractReturn) == "G"@ + pad2_digits(99) + " - "@ + "Activate Retract Level return in canned cycles"@,
{
}

/// The line of each M-code: `M`, its number in two digits, ` - `, and what it does, with
/// the spindle speed or tool number it names.
pub proof fn lemma_mcode_lines(n: u32)
    ensures
        mcode_text(MCode::Stop) == "M"@ + pad2_digits(0) + " - "@ + "Program Stop"@,
        mcode_text(MCode::OptionalStop) == "M"@ + pad2_digits(1) + " - "@ + "Optional Stop"@,
        mcode_text(MCode::SpindleFwd(Some(n))) == "M"@ + pad2_digits(3) + " - "@ + ("Clockwise Spindle On, at "@ + nat_digits(n as nat) + " RPMs"@),
        mcode_text(MCode::SpindleFwd(None)) == "M"@ + pad2_digits(3) + " - "@ + "Clockwise Spindle On"@,
        mcode_text(MCode::SpindleRev(Some(n))) == "M"@ + pad2_digits(4) + " - "@ + ("Counter-Clockwise Spindle On, at "@ + nat_digits(n as nat) + " RPMs"@),
        mcode_text(MCode::SpindleRev(None)) == "M"@ + pad2_digits(4) + " - "@ + "Counter-Clockwise Spindle On"@,
        mcode_text(MCode::SpindleStop) == "M"@ + pad2_digits(5) + " - "@ + "Spindle Off"@,
        mcode_text(MCode::ToolChange(Some(n))) == "M"@ + pad2_digits(6) + " - "@ + ("Tool Change to tool number: "@ + nat_digits(n as nat)),
        mcode_text(MCode::ToolChange(None)) == "M"@ + pad2_digits(6) + " - "@ + "Tool Change to any preloaded tool"@,
        mcode_text(MCode::CoolantOn) == "M"@ + pad2_digits(8) + " - "@ + "Coolant On"@,
        mcode_text(MCode::CoolantOff) == "M"@ + pad2_digits(9) + " - "@ + "Coolant Off"@,
        mcode_text(MCode::End) == "M"@ + pad2_digits(30) + " - "@ + "Program End"@,
{
}

/// The text of the codes shown on their own: what each sets, with its value; the other
/// codes have none.
pub proof fn lemma_code_texts(f: Decimal, n: u32)
    ensures
        code_text(Code::F(f)) == "Set new feedrate: "@ + decimal_text(f),
        code_text(Code::N(n)) == "Line number: "@ + nat_digits(n as nat),
        code_text(Code::O(n)) == "Program number: "@ + nat_digits(n as nat),
        code_text(Code::S(n)) == "Set new spindle speed: "@ + nat_digits(n as nat),
        code_text(Code::T(n)) == "Preload tool number: "@ + nat_digits(n as nat),
        code_text(Code::D(n)).len() == 0,
        code_text(Code::X(f)).len() == 0,
{
}

} // verus!
