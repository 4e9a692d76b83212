//! Properties of block parsing that hold for every block.
use vstd::prelude::*;
use crate::gcode::{
    GCode, MCode, distinct_gcodes, spec_gcode_parse, lemma_gcode_parse_number, lemma_gcodes_push_distinct,
    lemma_mcode_parse_number, spec_gcodes_push,
};
use crate::lexer::Token;
use crate::parser::{
    Code, Codes, ParserError, spec_code_parse, spec_codes_next, spec_codes_push, spec_take_circular, spec_collect, spec_parse_block,
    spec_parse_gcodes,
};

verus! {

/// The numbers of the `G` words of a block, in order.
pub open spec fn g_numbers(tokens: Seq<Token>) -> Seq<u32>
    decreases tokens.len(),
{
    if tokens.len() == 0 {
        Seq::empty()
    } else {
        let r = g_numbers(tokens.drop_last());
        let t = tokens.last();
        if t.prefix == 'G' as u8 {
            match t.suffix.spec_int() {
                Some(v) => r.push(v),
                None => r,
            }
        } else {
            r
        }
    }
}

/// The number of the last `M` word of a block, if it has one.
pub open spec fn m_number(tokens: Seq<Token>) -> Option<u32>
    decreases tokens.len(),
{
    if tokens.len() == 0 {
        None
    } else {
        let t = tokens.last();
        if t.prefix == 'M' as u8 {
            t.suffix.spec_int()
        } else {
            m_number(tokens.drop_last())
        }
    }
}

/// Whether the collected codes `(m, c)` already hold a code with prefix `p`.
spec fn holds_prefix(m: Option<Code>, c: Codes, p: u8) -> bool {
    if p == 'M' as u8 {
        m is Some
    } else if p == 'D' as u8 {
        c.d is Some
    } else if p == 'F' as u8 {
        c.f is Some
    } else if p == 'H' as u8 {
        c.h is Some
    } else if p == 'I' as u8 {
        c.i is Some
    } else if p == 'J' as u8 {
        c.j is Some
    } else if p == 'K' as u8 {
        c.k is Some
    } else if p == 'N' as u8 {
        c.n is Some
    } else if p == 'O' as u8 {
        c.o is Some
    } else if p == 'P' as u8 {
        c.p is Some
    } else if p == 'Q' as u8 {
        c.q is Some
    } else if p == 'R' as u8 {
        c.r is Some
    } else if p == 'S' as u8 {
        c.s is Some
    } else if p == 'T' as u8 {
        c.t is Some
    } else if p == 'X' as u8 {
        c.x is Some
    } else if p == 'Y' as u8 {
        c.y is Some
    } else if p == 'Z' as u8 {
        c.z is Some
    } else {
        false
    }
}

proof fn lemma_codes_push_prefix(m: Option<Code>, c: Codes, code: Code)
    requires
        code !is G,
        code !is M,
        spec_codes_push(c, code) is Ok,
    ensures
        !holds_prefix(m, c, code.spec_prefix()),
        holds_prefix(m, spec_codes_push(c, code)->Ok_0, code.spec_prefix()),
        forall|p: u8|
            holds_prefix(m, c, p) ==> #[trigger] holds_prefix(
                m,
                spec_codes_push(c, code)->Ok_0,
                p,
            ),
{
}

/// What collecting the tokens of a block records: every word that is not a `G` word has
/// its prefix taken, no prefix but `G` occurs twice, and the `G` and `M` words are kept.
proof fn lemma_collect_words(t: Seq<Token>)
    requires
        spec_collect(t) is Ok,
    ensures
        ({
            let (gs, m, c) = spec_collect(t)->Ok_0;
            &&& forall|i: int|
                0 <= i < t.len() && t[i].prefix != 'G' as u8 ==> holds_prefix(
                    m,
                    c,
                    #[trigger] t[i].prefix,
                )
            &&& forall|k: int| 0 <= k < gs.len() ==> (#[trigger] gs[k]) is G
            &&& gs.map_values(|x: Code| x->G_0) == g_numbers(t)
            &&& m matches Some(mc) ==> mc is M && m_number(t) == Some(mc->M_0)
            &&& m is None ==> m_number(t) is None
        }),
        forall|i: int, j: int|
            #![trigger t[i], t[j]]
            0 <= i < j < t.len() && t[i].prefix == t[j].prefix ==> t[i].prefix == 'G' as u8,
    decreases t.len(),
{
    if t.len() > 0 {
        let u = t.drop_last();
        let x = t.last();
        assert(spec_collect(u) is Ok);
        lemma_collect_words(u);
        let (gs, m, c) = spec_collect(u)->Ok_0;
        let code = spec_code_parse(x)->Ok_0;
        assert(code.spec_prefix() == x.prefix);
        let (gs2, m2, c2) = spec_collect(t)->Ok_0;
        assert forall|i: int| 0 <= i < u.len() implies t[i] == u[i] by {}
        if x.prefix == 'G' as u8 {
            assert(gs2 == gs.push(code));
            assert(gs2.map_values(|y: Code| y->G_0) =~= gs.map_values(|y: Code| y->G_0).push(
                code->G_0,
            ));
        } else if x.prefix == 'M' as u8 {
            assert(m is None);
            assert forall|i: int| 0 <= i < t.len() && t[i].prefix != 'G' as u8 implies holds_prefix(
                m2,
                c2,
                #[trigger] t[i].prefix,
            ) by {
                if i < u.len() {
                    assert(holds_prefix(m, c, u[i].prefix));
                }
            }
        } else {
            lemma_codes_push_prefix(m, c, code);
            assert forall|i: int| 0 <= i < t.len() && t[i].prefix != 'G' as u8 implies holds_prefix(
                m2,
                c2,
                #[trigger] t[i].prefix,
            ) by {
                if i < u.len() {
                    assert(holds_prefix(m, c, u[i].prefix));
                }
            }
        }
        assert forall|i: int, j: int|
            #![trigger t[i], t[j]]
            0 <= i < j < t.len() && t[i].prefix == t[j].prefix implies t[i].prefix == 'G' as u8 by {
            if j == t.len() - 1 && t[i].prefix != 'G' as u8 {
                assert(holds_prefix(m, c, u[i].prefix));
                if x.prefix != 'M' as u8 {
                    lemma_codes_push_prefix(m, c, code);
                }
            } else if j < t.len() - 1 {
                assert(t[i] == u[i] && t[j] == u[j]);
            }
        }
    }
}

/// The G-codes parsed from `G` codes, in order, have the numbers of those codes and are
/// distinct in number and group.
proof fn lemma_parse_gcodes_words(gs: Seq<Code>, c: Codes)
    requires
        forall|k: int| 0 <= k < gs.len() ==> (#[trigger] gs[k]) is G,
        spec_parse_gcodes(gs, c) is Ok,
    ensures
        spec_parse_gcodes(gs, c)->Ok_0.0.map_values(|g: GCode| g.spec_suffix()) == gs.map_values(
            |x: Code| x->G_0,
        ),
        distinct_gcodes(spec_parse_gcodes(gs, c)->Ok_0.0),
    decreases gs.len(),
{
    if gs.len() > 0 {
        let hs = gs.drop_last();
        assert forall|k: int| 0 <= k < hs.len() implies (#[trigger] hs[k]) is G by {
            assert(hs[k] == gs[k]);
        }
        assert(spec_parse_gcodes(hs, c) is Ok);
        lemma_parse_gcodes_words(hs, c);
        let (l, c1) = spec_parse_gcodes(hs, c)->Ok_0;
        let g = gs.last()->G_0;
        lemma_gcode_parse_number(g, c1);
        let gc = crate::gcode::spec_gcode_parse(g, c1).1->Ok_0;
        lemma_gcodes_push_distinct(l, gc);
        let l2 = spec_gcodes_push(l, gc)->Ok_0;
        assert(l2 == l.push(gc));
        assert(l2.map_values(|x: GCode| x.spec_suffix()) =~= l.map_values(
            |x: GCode| x.spec_suffix(),
        ).push(g));
        assert(gs.map_values(|x: Code| x->G_0) =~= hs.map_values(|x: Code| x->G_0).push(g));
    }
}

/// Only `G` words may share a prefix: in a block that parses, two words with the same
/// prefix are both `G` words.
pub proof fn lemma_parsed_block_prefixes(tokens: Seq<Token>)
    requires
        spec_parse_block(tokens) is Ok,
    ensures
        forall|i: int, j: int|
            #![trigger tokens[i], tokens[j]]
            0 <= i < j < tokens.len() && tokens[i].prefix == tokens[j].prefix ==> tokens[i].prefix
                == 'G' as u8,
{
    assert(spec_collect(tokens) is Ok);
    lemma_collect_words(tokens);
}

/// The G-codes of a parsed block are its `G` words, in order, and no two of them share a
/// number or a modal group.
pub proof fn lemma_parsed_gcodes(tokens: Seq<Token>)
    requires
        spec_parse_block(tokens) is Ok,
    ensures
        spec_parse_block(tokens)->Ok_0.0.map_values(|g: GCode| g.spec_suffix()) == g_numbers(
            tokens,
        ),
        distinct_gcodes(spec_parse_block(tokens)->Ok_0.0),
{
    assert(spec_collect(tokens) is Ok);
    lemma_collect_words(tokens);
    let (gs, m, c) = spec_collect(tokens)->Ok_0;
    assert(spec_parse_gcodes(gs, c) is Ok);
    lemma_parse_gcodes_words(gs, c);
}

/// The M-code of a parsed block is its `M` word: a block has an M-code exactly when it has
/// an `M` word, with the same number.
pub proof fn lemma_parsed_mcode(tokens: Seq<Token>)
    requires
        spec_parse_block(tokens) is Ok,
    ensures
        (match spec_parse_block(tokens)->Ok_0.1 {
            Some(mc) => Some(mc.spec_suffix()),
            None => None::<u32>,
        }) == m_number(tokens),
{
    assert(spec_collect(tokens) is Ok);
    lemma_collect_words(tokens);
    let (gs, m, c) = spec_collect(tokens)->Ok_0;
    let c2 = spec_parse_gcodes(gs, c)->Ok_0.1;
    if let Some(mc) = m {
        lemma_mcode_parse_number(mc->M_0, c2);
    }
}

/// The letters that begin a supported word.
pub open spec fn supported_prefix(p: u8) -> bool {
    ||| p == 'D' as u8 || p == 'F' as u8 || p == 'G' as u8 || p == 'H' as u8 || p == 'I' as u8
    ||| p == 'J' as u8 || p == 'K' as u8 || p == 'M' as u8 || p == 'N' as u8 || p == 'O' as u8
    ||| p == 'P' as u8 || p == 'Q' as u8 || p == 'R' as u8 || p == 'S' as u8 || p == 'T' as u8
    ||| p == 'X' as u8 || p == 'Y' as u8 || p == 'Z' as u8
}

/// A word is rejected for exactly what is wrong with it: an unsupported letter as
/// [`ParserError::UnknownPrefix`] with that letter, and a supported letter with a suffix
/// of the wrong kind as [`ParserError::WrongSuffixType`] with that letter. An accepted word
/// keeps its letter.
pub proof fn lemma_word_errors(t: Token)
    ensures
        (spec_code_parse(t) == Err::<Code, ParserError>(ParserError::UnknownPrefix(t.prefix)))
            <==> !supported_prefix(t.prefix),
        spec_code_parse(t) matches Err(e) ==> e == ParserError::UnknownPrefix(t.prefix) || e
            == ParserError::WrongSuffixType(t.prefix),
        spec_code_parse(t) matches Ok(code) ==> code.spec_prefix() == t.prefix,
{
}


/// The code that `c` holds in its slot `i`, the slots in the order D, F, H, I, J, K, N, O,
/// P, Q, R, S, T, X, Y, Z.
pub open spec fn code_slot(c: Codes, i: int) -> Option<Code> {
    if i == 0 {
        match c.d { Some(v) => Some(Code::D(v)), None => None }
    } else if i == 1 {
        match c.f { Some(v) => Some(Code::F(v)), None => None }
    } else if i == 2 {
        match c.h { Some(v) => Some(Code::H(v)), None => None }
    } else if i == 3 {
        match c.i { Some(v) => Some(Code::I(v)), None => None }
    } else if i == 4 {
        match c.j { Some(v) => Some(Code::J(v)), None => None }
    } else if i == 5 {
        match c.k { Some(v) => Some(Code::K(v)), None => None }
    } else if i == 6 {
        match c.n { Some(v) => Some(Code::N(v)), None => None }
    } else if i == 7 {
        match c.o { Some(v) => Some(Code::O(v)), None => None }
    } else if i == 8 {
        match c.p { Some(v) => Some(Code::P(v)), None => None }
    } else if i == 9 {
        match c.q { Some(v) => Some(Code::Q(v)), None => None }
    } else if i == 10 {
        match c.r { Some(v) => Some(Code::R(v)), None => None }
    } else if i == 11 {
        match c.s { Some(v) => Some(Code::S(v)), None => None }
    } else if i == 12 {
        match c.t { Some(v) => Some(Code::T(v)), None => None }
    } else if i == 13 {
        match c.x { Some(v) => Some(Code::X(v)), None => None }
    } else if i == 14 {
        match c.y { Some(v) => Some(Code::Y(v)), None => None }
    } else if i == 15 {
        match c.z { Some(v) => Some(Code::Z(v)), None => None }
    } else {
        None
    }
}

/// The codes that `c` holds in its slots from `i` on, in slot order.
pub open spec fn codes_from(c: Codes, i: nat) -> Seq<Code>
    decreases 16 - i,
{
    if i >= 16 {
        Seq::empty()
    } else {
        (match code_slot(c, i as int) {
            Some(x) => seq![x],
            None => Seq::<Code>::empty(),
        }) + codes_from(c, i + 1)
    }
}

/// Every code that `c` holds, in the order D, F, H, I, J, K, N, O, P, Q, R, S, T, X, Y, Z.
pub open spec fn code_list(c: Codes) -> Seq<Code> {
    codes_from(c, 0)
}

/// The codes that repeated calls of [`Codes::next`](crate::parser::Codes::next) hand out,
/// until it returns `None`.
pub open spec fn drain_codes(c: Codes) -> Seq<Code>
    decreases code_list(c).len(),
{
    let (c2, r) = spec_codes_next(c);
    match r {
        None => Seq::empty(),
        Some(x) => if code_list(c2).len() < code_list(c).len() {
            seq![x] + drain_codes(c2)
        } else {
            Seq::empty()
        },
    }
}

proof fn lemma_codes_from_agree(c: Codes, c2: Codes, i: nat)
    requires
        forall|j: int| i <= j < 16 ==> code_slot(c, j) == code_slot(c2, j),
    ensures
        codes_from(c, i) == codes_from(c2, i),
    decreases 16 - i,
{
    if i < 16 {
        lemma_codes_from_agree(c, c2, i + 1);
    }
}

proof fn lemma_codes_from_none(c: Codes, i: nat)
    requires
        forall|j: int| i <= j < 16 ==> code_slot(c, j) is None,
    ensures
        codes_from(c, i) == Seq::<Code>::empty(),
    decreases 16 - i,
{
    if i < 16 {
        lemma_codes_from_none(c, i + 1);
        assert(codes_from(c, i) =~= codes_from(c, i + 1));
    }
}

/// Clearing the first filled slot `k` takes the first code off the list.
proof fn lemma_codes_from_first(c: Codes, c2: Codes, k: nat, i: nat)
    requires
        i <= k < 16,
        forall|j: int| i <= j < k ==> code_slot(c, j) is None,
        forall|j: int| i <= j < k ==> code_slot(c2, j) is None,
        code_slot(c, k as int) is Some,
        code_slot(c2, k as int) is None,
        forall|j: int| k < j < 16 ==> code_slot(c, j) == code_slot(c2, j),
    ensures
        codes_from(c, i) == seq![code_slot(c, k as int)->0] + codes_from(c2, i),
    decreases k - i,
{
    if i < k {
        lemma_codes_from_first(c, c2, k, i + 1);
        assert(codes_from(c, i) =~= codes_from(c, i + 1));
        assert(codes_from(c2, i) =~= codes_from(c2, i + 1));
    } else {
        lemma_codes_from_agree(c, c2, k + 1);
        assert(codes_from(c2, k) =~= codes_from(c2, k + 1));
    }
}

/// One call of [`Codes::next`](crate::parser::Codes::next) hands out the first code of
/// [`code_list`] and leaves the rest; with no code left it hands out `None` and changes
/// nothing.
#[verifier::spinoff_prover]
pub proof fn lemma_codes_next_step(c: Codes)
    ensures
        spec_codes_next(c).1 matches Some(x) ==> code_list(c) == seq![x] + code_list(
            spec_codes_next(c).0,
        ),
        spec_codes_next(c).1 is None <==> code_list(c).len() == 0,
        spec_codes_next(c).1 is None ==> spec_codes_next(c).0 == c,
{
    let c2 = spec_codes_next(c).0;
    if spec_codes_next(c).1 is Some {
        let k: nat = if c.d is Some { 0 } else if c.f is Some { 1 } else if c.h is Some { 2 }
            else if c.i is Some { 3 } else if c.j is Some { 4 } else if c.k is Some { 5 }
            else if c.n is Some { 6 } else if c.o is Some { 7 } else if c.p is Some { 8 }
            else if c.q is Some { 9 } else if c.r is Some { 10 } else if c.s is Some { 11 }
            else if c.t is Some { 12 } else if c.x is Some { 13 } else if c.y is Some { 14 }
            else { 15 };
        lemma_codes_from_first(c, c2, k, 0);
    } else {
        lemma_codes_from_none(c, 0);
    }
}

/// Repeated calls of [`Codes::next`](crate::parser::Codes::next) hand out every code held
/// exactly once, in the order D, F, H, I, J, K, N, O, P, Q, R, S, T, X, Y, Z, never a `G`
/// or `M` code, and then `None` on every further call.
pub proof fn lemma_drain_codes(c: Codes)
    ensures
        drain_codes(c) == code_list(c),
        forall|k: int| 0 <= k < drain_codes(c).len() ==> !(#[trigger] drain_codes(c)[k] is G)
            && !(drain_codes(c)[k] is M),
        code_list(c).len() == 0 ==> spec_codes_next(c) == (c, None::<Code>),
    decreases code_list(c).len(),
{
    lemma_codes_next_step(c);
    let (c2, r) = spec_codes_next(c);
    if let Some(x) = r {
        lemma_drain_codes(c2);
        assert forall|k: int| 0 <= k < drain_codes(c).len() implies !(#[trigger] drain_codes(
            c,
        )[k] is G) && !(drain_codes(c)[k] is M) by {
            if k > 0 {
                assert(drain_codes(c)[k] == drain_codes(c2)[k - 1]);
            }
        }
    }
}


/// Whether the G-code with number `g` reads the word with prefix `p` of its block: `X`,
/// `Y`, `Z` for G00 and G53; those and `F` for G01; those, `F`, and `I`, `J`, `K` or `R`
/// for G02 and G03; `P` or `X` for G04; `D` for G41 and G42; `H` for G43 and G44; none
/// for any other.
pub open spec fn gcode_reads(g: u32, p: u8) -> bool {
    let xyz = p == 'X' as u8 || p == 'Y' as u8 || p == 'Z' as u8;
    if g == 0 || g == 53 {
        xyz
    } else if g == 1 {
        xyz || p == 'F' as u8
    } else if g == 2 || g == 3 {
        xyz || p == 'F' as u8 || p == 'I' as u8 || p == 'J' as u8 || p == 'K' as u8 || p
            == 'R' as u8
    } else if g == 4 {
        p == 'P' as u8 || p == 'X' as u8
    } else if g == 41 || g == 42 {
        p == 'D' as u8
    } else if g == 43 || g == 44 {
        p == 'H' as u8
    } else {
        false
    }
}

/// A code slot that is unchanged, or emptied of a word that the G-code `g` reads.
pub open spec fn kept_or_read(g: u32, before: Option<Code>, after: Option<Code>) -> bool {
    ||| after == before
    ||| (after is None && before is Some && gcode_reads(g, before->0.spec_prefix()))
}

/// Building a G-code from the codes of its block, whether it succeeds or fails, takes out
/// only words that the G-code reads, and leaves every other code as it was.
pub proof fn lemma_gcode_takes_only_its_words(g: u32, c: Codes)
    ensures
        forall|i: int|
            0 <= i < 16 ==> kept_or_read(g, code_slot(c, i), #[trigger] code_slot(
                spec_gcode_parse(g, c).0,
                i,
            )),
{
    let c2 = spec_gcode_parse(g, c).0;
    assert forall|i: int| 0 <= i < 16 implies kept_or_read(g, code_slot(c, i), #[trigger] code_slot(c2, i)) by {
        if g == 2 || g == 3 {
            assert(c2 == spec_take_circular(c).0);
        }
    }
}

} // verus!
