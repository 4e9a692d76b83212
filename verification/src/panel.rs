//! # Panel
//!
//! What the text interface shows beside the simulation: the summary of the current block,
//! a preview of the source around it, and the keys that can be pressed.
use vstd::prelude::*;
use crate::format::{code_text, gcode_text, mcode_text, push_str};
use crate::gcode::{GCode, MCode};
use crate::parser::{Code, CodeBlock, Codes};
use crate::source::Source;
use crate::geometry::view::view_name;
use crate::signal::DisplaySettings;
use crate::state::{Interrupt, interrupt_label};
use crate::text::string_from_chars;

verus! {

/// Number of lines previewed after the current one.
pub const MAX_PREVIEW_AHEAD: usize = 10;
/// Number of lines previewed before the current one.
pub const CONTEXT_COUNT: usize = 1;

/// The codes of an executed block, in the order they are shown.
#[derive(Debug)]
pub struct BlockSummary {
    pub gcodes: Vec<GCode>,
    pub mcode: Option<MCode>,
    pub codes: Vec<Code>,
}

/// The header of a list of `n` items: `single` for one, `plural` for more.
pub open spec fn heading(n: nat, single: Seq<char>, plural: Seq<char>) -> Seq<char> {
    if n > 1 {
        plural
    } else {
        single
    }
}

/// The lines of the summary: an interrupt takes precedence, asking for `Enter`; otherwise
/// the G-codes, the M-code and the other codes of the block, each list under a heading and
/// followed by an empty line (but the last one).
pub open spec fn summary_text(interrupt: Option<Interrupt>, gcodes: Seq<GCode>, mcode: Option<MCode>, codes: Seq<Code>) -> Seq<Seq<char>> {
    match interrupt {
        Some(i) => seq![
            interrupt_label(i) + " detected."@,
            Seq::<char>::empty(),
            "Press Enter to remove the interrupt."@,
        ],
        None => {
            let g: Seq<Seq<char>> = if gcodes.len() > 0 {
                seq![heading(gcodes.len(), "GCODE:"@, "GCODES:"@)] + gcodes.map_values(
                    |x: GCode| gcode_text(x),
                ) + seq![Seq::<char>::empty()]
            } else {
                Seq::empty()
            };
            let m: Seq<Seq<char>> = match mcode {
                Some(x) => seq!["MCODE:"@, mcode_text(x), Seq::<char>::empty()],
                None => Seq::empty(),
            };
            let c: Seq<Seq<char>> = if codes.len() > 0 {
                seq![heading(codes.len(), "Other CODE:"@, "Other CODES:"@)] + codes.map_values(
                    |x: Code| code_text(x),
                )
            } else {
                Seq::empty()
            };
            g + m + c
        },
    }
}

fn text_of(s: &str) -> (r: String)
    ensures
        r@ == s@,
{
    let mut v: Vec<char> = Vec::new();
    push_str(&mut v, s);
    assert(v@ =~= s@);
    string_from_chars(v)
}

fn empty_line() -> (r: String)
    ensures
        r@ == Seq::<char>::empty(),
{
    string_from_chars(Vec::new())
}

/// The lines of the block summary, as [`summary_text`] describes them.
pub fn summary_lines(interrupt: Option<Interrupt>, summary: &BlockSummary) -> (r: Vec<String>)
    ensures
        r@.map_values(|s: String| s@) == summary_text(
            interrupt,
            summary.gcodes@,
            summary.mcode,
            summary.codes@,
        ),
{
    let mut out: Vec<String> = Vec::new();
    if let Some(i) = interrupt {
        let mut v: Vec<char> = Vec::new();
        push_str(&mut v, i.label());
        push_str(&mut v, " detected.");
        out.push(string_from_chars(v));
        out.push(empty_line());
        out.push(text_of("Press Enter to remove the interrupt."));
        proof {
            reveal_strlit("");
        }
        assert(out@.map_values(|s: String| s@) =~= summary_text(
            interrupt,
            summary.gcodes@,
            summary.mcode,
            summary.codes@,
        ));
        return out;
    }
    let ghost gs = summary.gcodes@;
    let ghost cs = summary.codes@;
    let n = summary.gcodes.len();
    if n > 0 {
        out.push(text_of(if n > 1 { "GCODES:" } else { "GCODE:" }));
        let mut i: usize = 0;
        while i < n
            invariant
                i <= n == summary.gcodes.len(),
                gs == summary.gcodes@,
                out@.map_values(|s: String| s@) == seq![heading(n as nat, "GCODE:"@, "GCODES:"@)]
                    + gs.take(i as int).map_values(|x: GCode| gcode_text(x)),
            decreases n - i,
        {
            let t = summary.gcodes[i].to_text();
            let ghost prev = out@;
            out.push(t);
            proof {
                assert(out@.map_values(|s: String| s@) =~= prev.map_values(|s: String| s@).push(t@));
                assert(gs.take(i + 1).map_values(|x: GCode| gcode_text(x)) =~= gs.take(
                    i as int,
                ).map_values(|x: GCode| gcode_text(x)).push(gcode_text(gs[i as int])));
            }
            i = i + 1;
            assert(out@.map_values(|s: String| s@) =~= seq![heading(n as nat, "GCODE:"@, "GCODES:"@)]
                + gs.take(i as int).map_values(|x: GCode| gcode_text(x)));
        }
        out.push(empty_line());
        assert(gs.take(n as int) =~= gs);
    }
    let ghost after_g = out@.map_values(|s: String| s@);
    assert(after_g =~= (if gs.len() > 0 {
        seq![heading(gs.len(), "GCODE:"@, "GCODES:"@)] + gs.map_values(|x: GCode| gcode_text(x))
            + seq![Seq::<char>::empty()]
    } else {
        Seq::<Seq<char>>::empty()
    }));
    if let Some(m) = summary.mcode {
        out.push(text_of("MCODE:"));
        out.push(m.to_text());
        out.push(empty_line());
    }
    let ghost after_m = out@.map_values(|s: String| s@);
    assert(after_m =~= after_g + match summary.mcode {
        Some(x) => seq!["MCODE:"@, mcode_text(x), Seq::<char>::empty()],
        None => Seq::<Seq<char>>::empty(),
    });
    let k = summary.codes.len();
    if k > 0 {
        out.push(text_of(if k > 1 { "Other CODES:" } else { "Other CODE:" }));
        let mut i: usize = 0;
        while i < k
            invariant
                i <= k == summary.codes.len(),
                cs == summary.codes@,
                out@.map_values(|s: String| s@) == after_m + seq![heading(k as nat, "Other CODE:"@, "Other CODES:"@)]
                    + cs.take(i as int).map_values(|x: Code| code_text(x)),
            decreases k - i,
        {
            let t = summary.codes[i].to_text();
            let ghost prev = out@;
            out.push(t);
            proof {
                assert(out@.map_values(|s: String| s@) =~= prev.map_values(|s: String| s@).push(t@));
                assert(cs.take(i + 1).map_values(|x: Code| code_text(x)) =~= cs.take(
                    i as int,
                ).map_values(|x: Code| code_text(x)).push(code_text(cs[i as int])));
            }
            i = i + 1;
            assert(out@.map_values(|s: String| s@) =~= after_m + seq![heading(k as nat, "Other CODE:"@, "Other CODES:"@)]
                + cs.take(i as int).map_values(|x: Code| code_text(x)));
        }
        assert(cs.take(k as int) =~= cs);
    }
    assert(out@.map_values(|s: String| s@) =~= summary_text(
        interrupt,
        summary.gcodes@,
        summary.mcode,
        summary.codes@,
    ));
    out
}

/// The codes of a block that its summary lists, in the order the block hands them out:
/// feed, line number, program number, spindle speed and preloaded tool.
pub open spec fn summary_codes(c: Codes) -> Seq<Code> {
    let f: Seq<Code> = match c.f {
        Some(v) => seq![Code::F(v)],
        None => Seq::empty(),
    };
    let n: Seq<Code> = match c.n {
        Some(v) => seq![Code::N(v)],
        None => Seq::empty(),
    };
    let o: Seq<Code> = match c.o {
        Some(v) => seq![Code::O(v)],
        None => Seq::empty(),
    };
    let s: Seq<Code> = match c.s {
        Some(v) => seq![Code::S(v)],
        None => Seq::empty(),
    };
    let t: Seq<Code> = match c.t {
        Some(v) => seq![Code::T(v)],
        None => Seq::empty(),
    };
    f + n + o + s + t
}

impl CodeBlock {
    /// The summary of the block: its G-codes in the order the block hands them out (last
    /// first), its M-code, and the codes that [`summary_codes`] lists.
    pub fn summary(self) -> (r: BlockSummary)
        ensures
            r.gcodes@ == self.view_block().0.reverse(),
            r.mcode == self.view_block().1,
            r.codes@ == summary_codes(self.view_block().2),
    {
        let ghost orig = self.view_block();
        let mut block = self;
        let mut gcodes: Vec<GCode> = Vec::new();
        let gs = block.gcodes();
        assert(orig.0.skip(orig.0.len() as int) =~= Seq::<GCode>::empty());
        loop
            invariant
                gs.view_codes().len() <= orig.0.len(),
                gs.view_codes() == orig.0.take(gs.view_codes().len() as int),
                gcodes@ == orig.0.skip(gs.view_codes().len() as int).reverse(),
            ensures
                gs.view_codes().len() == 0,
                gcodes@ == orig.0.reverse(),
            decreases gs.view_codes().len(),
        {
            let ghost before = gs.view_codes();
            match gs.next() {
                None => {
                    assert(orig.0.skip(0) =~= orig.0);
                    break;
                },
                Some(g) => {
                    let ghost k = before.len() - 1;
                    assert(g == orig.0[k]);
                    gcodes.push(g);
                    assert(gs.view_codes() =~= orig.0.take(k));
                    assert(gcodes@ =~= orig.0.skip(k).reverse());
                },
            }
        }
        let mcode = block.mcode();
        let codes = block.codes();
        let mut shown: Vec<Code> = Vec::new();
        if let Some(v) = codes.f {
            shown.push(Code::F(v));
        }
        if let Some(v) = codes.n {
            shown.push(Code::N(v));
        }
        if let Some(v) = codes.o {
            shown.push(Code::O(v));
        }
        if let Some(v) = codes.s {
            shown.push(Code::S(v));
        }
        if let Some(v) = codes.t {
            shown.push(Code::T(v));
        }
        assert(shown@ =~= summary_codes(orig.2));
        BlockSummary { gcodes, mcode, codes: shown }
    }
}

/// A previewed source line: its index, and whether it is the highlighted current line.
#[derive(Clone, Copy, Debug, PartialEq, Eq, Structural)]
pub struct PreviewRow {
    pub index: usize,
    pub highlighted: bool,
}

/// The first previewed line: one line of context before the current one.
pub open spec fn preview_start(current: nat) -> nat {
    if current < CONTEXT_COUNT {
        current
    } else {
        (current - CONTEXT_COUNT) as nat
    }
}

/// The previewed lines of a source of `line_count` lines around the `current` one: from
/// [`preview_start`], at most `MAX_PREVIEW_AHEAD + CONTEXT_COUNT + 1` lines, up to the end
/// of the source. The current line is highlighted, unless the program waits to start.
pub open spec fn preview_rows_spec(line_count: nat, current: nat, waiting: bool) -> Seq<PreviewRow> {
    let start = preview_start(current);
    let count: nat = (MAX_PREVIEW_AHEAD + CONTEXT_COUNT + 1) as nat;
    let n: nat = if start >= line_count {
        0
    } else if line_count - start < count {
        (line_count - start) as nat
    } else {
        count
    };
    Seq::new(
        n,
        |k: int| PreviewRow { index: (start + k) as usize, highlighted: start + k == current && !waiting },
    )
}

/// The lines of `source` to preview while the block `current` executes; `waiting` is whether
/// the program waits to start, which leaves the current line plain.
pub fn preview_rows(source: &Source, current: usize, waiting: bool) -> (r: Vec<PreviewRow>)
    ensures
        r@ == preview_rows_spec(source.lines().len(), current as nat, waiting),
{
    let line_count = source.len();
    let start = if current < CONTEXT_COUNT {
        current
    } else {
        current - CONTEXT_COUNT
    };
    let count = MAX_PREVIEW_AHEAD + CONTEXT_COUNT + 1;
    let mut rows: Vec<PreviewRow> = Vec::new();
    let mut k: usize = 0;
    while k < count && start < line_count && k < line_count - start
        invariant
            k <= count == MAX_PREVIEW_AHEAD + CONTEXT_COUNT + 1,
            start == preview_start(current as nat),
            line_count == source.lines().len(),
            start >= line_count ==> k == 0,
            start < line_count ==> k <= line_count - start,
            rows@ == Seq::new(
                k as nat,
                |j: int| PreviewRow { index: (start + j) as usize, highlighted: start + j == current && !waiting },
            ),
        decreases count - k,
    {
        let index = start + k;
        rows.push(PreviewRow { index, highlighted: index == current && !waiting });
        k = k + 1;
        assert(rows@ =~= Seq::new(
            k as nat,
            |j: int| PreviewRow { index: (start + j) as usize, highlighted: start + j == current && !waiting },
        ));
    }
    assert(rows@ =~= preview_rows_spec(source.lines().len(), current as nat, waiting));
    rows
}

/// A key the text interface lists, with what it does.
#[derive(Clone, Copy, Debug, PartialEq, Eq, Structural)]
pub enum KeyHint {
    Quit,
    SwitchView,
    SpeedUp,
    SlowDown,
    NextBlock,
    FitView,
    ToggleSingle,
    ToggleTool,
    ToggleToolpath,
    ToggleStock,
}

impl KeyHint {
    /// The key, and what it does.
    pub fn text(&self) -> (r: (&'static str, &'static str))
        ensures
            *self == KeyHint::Quit ==> r.0@ == "Q"@ && r.1@ == "Quit"@,
            *self == KeyHint::SwitchView ==> r.0@ == "v"@ && r.1@ == "Switch View"@,
            *self == KeyHint::SpeedUp ==> r.0@ == "+"@ && r.1@ == "Speed Up"@,
            *self == KeyHint::SlowDown ==> r.0@ == "-"@ && r.1@ == "Slow Down"@,
            *self == KeyHint::NextBlock ==> r.0@ == "n"@ && r.1@ == "Next Block"@,
            *self == KeyHint::FitView ==> r.0@ == "f"@ && r.1@ == "Fit View"@,
            *self == KeyHint::ToggleSingle ==> r.0@ == "Space"@ && r.1@ == "Toggle Single"@,
            *self == KeyHint::ToggleTool ==> r.0@ == "t"@ && r.1@ == "Toggle Tool"@,
            *self == KeyHint::ToggleToolpath ==> r.0@ == "p"@ && r.1@ == "Toggle Toolpath"@,
            *self == KeyHint::ToggleStock ==> r.0@ == "s"@ && r.1@ == "Toggle Stock"@,
    {
        match self {
            KeyHint::Quit => ("Q", "Quit"),
            KeyHint::SwitchView => ("v", "Switch View"),
            KeyHint::SpeedUp => ("+", "Speed Up"),
            KeyHint::SlowDown => ("-", "Slow Down"),
            KeyHint::NextBlock => ("n", "Next Block"),
            KeyHint::FitView => ("f", "Fit View"),
            KeyHint::ToggleSingle => ("Space", "Toggle Single"),
            KeyHint::ToggleTool => ("t", "Toggle Tool"),
            KeyHint::ToggleToolpath => ("p", "Toggle Toolpath"),
            KeyHint::ToggleStock => ("s", "Toggle Stock"),
        }
    }
}

/// The first row of keys: always quit, view and speed; the next block while running in
/// single mode; fitting the view when it is not fitted.
pub open spec fn first_key_row(interrupt: Option<Interrupt>, single: bool, fit: bool) -> Seq<KeyHint> {
    seq![KeyHint::Quit, KeyHint::SwitchView, KeyHint::SpeedUp, KeyHint::SlowDown] + (if interrupt
        is None && single {
        seq![KeyHint::NextBlock]
    } else {
        Seq::empty()
    }) + (if !fit {
        seq![KeyHint::FitView]
    } else {
        Seq::empty()
    })
}

/// The second row of keys: the toggles.
pub open spec fn second_key_row() -> Seq<KeyHint> {
    seq![KeyHint::ToggleSingle, KeyHint::ToggleTool, KeyHint::ToggleToolpath, KeyHint::ToggleStock]
}

/// The keys to list, in two rows, as [`first_key_row`] and [`second_key_row`] describe them.
pub fn key_rows(interrupt: Option<Interrupt>, single: bool, fit: bool) -> (r: (Vec<KeyHint>, Vec<KeyHint>))
    ensures
        r.0@ == first_key_row(interrupt, single, fit),
        r.1@ == second_key_row(),
{
    let mut first = vec![KeyHint::Quit, KeyHint::SwitchView, KeyHint::SpeedUp, KeyHint::SlowDown];
    if interrupt.is_none() && single {
        first.push(KeyHint::NextBlock);
    }
    if !fit {
        first.push(KeyHint::FitView);
    }
    let second = vec![
        KeyHint::ToggleSingle,
        KeyHint::ToggleTool,
        KeyHint::ToggleToolpath,
        KeyHint::ToggleStock,
    ];
    assert(first@ =~= first_key_row(interrupt, single, fit));
    assert(second@ =~= second_key_row());
    (first, second)
}

/// The name of the view mode: the predefined view, or orbiting when the view is moved
/// freely.
pub open spec fn view_mode_name(d: DisplaySettings) -> Seq<char> {
    match d.view {
        Some(v) => view_name(v),
        None => "ORBITING"@,
    }
}

/// The modes the text interface lists, each with whether it is active: the view (always
/// active), fit, single, tool, toolpath and stock.
pub fn modes(d: &DisplaySettings) -> (r: Vec<(&'static str, bool)>)
    ensures
        r@.len() == 6,
        r@[0].0@ == view_mode_name(*d) && r@[0].1,
        r@[1].0@ == "FIT"@ && r@[1].1 == d.fit,
        r@[2].0@ == "SINGLE"@ && r@[2].1 == d.single,
        r@[3].0@ == "TOOL"@ && r@[3].1 == d.tool,
        r@[4].0@ == "TOOLPATH"@ && r@[4].1 == d.toolpath,
        r@[5].0@ == "STOCK"@ && r@[5].1 == d.stock,
{
    let view = match d.view {
        Some(v) => v.label(),
        None => "ORBITING",
    };
    vec![
        (view, true),
        ("FIT", d.fit),
        ("SINGLE", d.single),
        ("TOOL", d.tool),
        ("TOOLPATH", d.toolpath),
        ("STOCK", d.stock),
    ]
}


/// Number of the F, N, O, S and T codes in `c`.
pub open spec fn shown_count(c: Codes) -> nat {
    (if c.f is Some { 1nat } else { 0nat }) + (if c.n is Some { 1nat } else { 0nat }) + (if c.o
        is Some { 1nat } else { 0nat }) + (if c.s is Some { 1nat } else { 0nat }) + (if c.t
        is Some { 1nat } else { 0nat })
}

/// A block summary lists exactly the block's feed, line number, program number, spindle
/// speed and preloaded tool codes, each once with its value, in the order of their letters
/// F, N, O, S, T, and no other code.
pub proof fn lemma_summary_codes(c: Codes)
    ensures
        summary_codes(c).len() == shown_count(c),
        forall|v| #[trigger] summary_codes(c).contains(Code::F(v)) <==> c.f == Some(v),
        forall|v| #[trigger] summary_codes(c).contains(Code::N(v)) <==> c.n == Some(v),
        forall|v| #[trigger] summary_codes(c).contains(Code::O(v)) <==> c.o == Some(v),
        forall|v| #[trigger] summary_codes(c).contains(Code::S(v)) <==> c.s == Some(v),
        forall|v| #[trigger] summary_codes(c).contains(Code::T(v)) <==> c.t == Some(v),
        forall|i: int, j: int|
            0 <= i < j < summary_codes(c).len() ==> (#[trigger] summary_codes(c)[i]).spec_prefix()
                < (#[trigger] summary_codes(c)[j]).spec_prefix(),
{
    let l = summary_codes(c);
    let kf: int = if c.f is Some { 1 } else { 0 };
    let kn: int = kf + if c.n is Some { 1int } else { 0int };
    let ko: int = kn + if c.o is Some { 1int } else { 0int };
    let ks: int = ko + if c.s is Some { 1int } else { 0int };
    assert forall|v| #[trigger] l.contains(Code::F(v)) <==> c.f == Some(v) by {
        if c.f == Some(v) {
            assert(l[0] == Code::F(v));
        }
    }
    assert forall|v| #[trigger] l.contains(Code::N(v)) <==> c.n == Some(v) by {
        if c.n == Some(v) {
            assert(l[kf] == Code::N(v));
        }
    }
    assert forall|v| #[trigger] l.contains(Code::O(v)) <==> c.o == Some(v) by {
        if c.o == Some(v) {
            assert(l[kn] == Code::O(v));
        }
    }
    assert forall|v| #[trigger] l.contains(Code::S(v)) <==> c.s == Some(v) by {
        if c.s == Some(v) {
            assert(l[ko] == Code::S(v));
        }
    }
    assert forall|v| #[trigger] l.contains(Code::T(v)) <==> c.t == Some(v) by {
        if c.t == Some(v) {
            assert(l[ks] == Code::T(v));
        }
    }
}


/// Without an interrupt, the summary shows each G-code's line under a `GCODE:` or
/// `GCODES:` heading, then the M-code's under `MCODE:`, then the text of each other code
/// under `Other CODE:` or `Other CODES:`, every code in its order, a list of G-codes or an
/// M-code followed by an empty line; an interrupt shows only its label and how to remove it.
pub proof fn lemma_summary_lines(
    interrupt: Option<Interrupt>,
    gcodes: Seq<GCode>,
    mcode: Option<MCode>,
    codes: Seq<Code>,
)
    ensures
        ({
            let lines = summary_text(interrupt, gcodes, mcode, codes);
            let gn: int = if gcodes.len() > 0 { gcodes.len() + 2int } else { 0int };
            let mn: int = if mcode is Some { 3 } else { 0 };
            let cn: int = if codes.len() > 0 { codes.len() + 1int } else { 0int };
            &&& interrupt is Some ==> lines.len() == 3 && lines[2]
                == "Press Enter to remove the interrupt."@
            &&& interrupt is None ==> {
                &&& lines.len() == gn + mn + cn
                &&& gcodes.len() == 1 ==> lines[0] == "GCODE:"@
                &&& gcodes.len() > 1 ==> lines[0] == "GCODES:"@
                &&& forall|i: int| 0 <= i < gcodes.len() ==> lines[1 + i] == gcode_text(
                    #[trigger] gcodes[i],
                )
                &&& mcode is Some ==> lines[gn] == "MCODE:"@ && lines[gn + 1] == mcode_text(
                    mcode->0,
                )
                &&& codes.len() == 1 ==> lines[gn + mn] == "Other CODE:"@
                &&& codes.len() > 1 ==> lines[gn + mn] == "Other CODES:"@
                &&& forall|i: int| 0 <= i < codes.len() ==> lines[gn + mn + 1 + i] == code_text(
                    #[trigger] codes[i],
                )
            }
        }),
{
    if interrupt is None {
        let lines = summary_text(interrupt, gcodes, mcode, codes);
        let gn: int = if gcodes.len() > 0 { gcodes.len() + 2int } else { 0int };
        let mn: int = if mcode is Some { 3 } else { 0 };
        assert forall|i: int| 0 <= i < gcodes.len() implies lines[1 + i] == gcode_text(
            #[trigger] gcodes[i],
        ) by {}
        assert forall|i: int| 0 <= i < codes.len() implies lines[gn + mn + 1 + i] == code_text(
            #[trigger] codes[i],
        ) by {}
    }
}

} // verus!
