//! # Parser
//!
//! Consumes a [`Lexer`], converting a sequence of G-code [`Block`]s
//! to a sequence of [`CodeBlock`]s (represented as [`Parser`]).
//!
//! This parser is **stateless** and does not deal with any state logic across blocks.
//!
//! Each lexer structure becomes a parser structure:
//! - [`Token`] -> [`Code`]
//! - [`Block`] -> [`CodeBlock`]
//! - [`Lexer`] -> [`Parser`]
use vstd::prelude::*;
use crate::decimal::Decimal;
use crate::gcode::{
    GCode, GCodes, MCode, spec_gcode_parse, spec_gcodes_push, spec_mcode_parse,
};
use crate::lexer::{Block, Lexer, LexerError, Token, spec_tokenize};

pub mod laws;

verus! {

/// Possible planes for a 3-axis machine.
#[derive(Clone, Copy, Debug, PartialEq, Eq, Structural)]
pub enum Plane {
    XY,
    XZ,
    YZ,
}

impl Default for Plane {
    fn default() -> (r: Self)
        ensures
            r == Plane::XY,
    {
        Plane::XY
    }
}

/// A point whose axis values are each optional.
#[derive(Clone, Copy, Debug, PartialEq, Eq, Structural)]
pub struct PartialPoint {
    pub x: Option<Decimal>,
    pub y: Option<Decimal>,
    pub z: Option<Decimal>,
}

impl PartialPoint {
    pub open spec fn spec_are_none(self) -> bool {
        self.x is None && self.y is None && self.z is None
    }

    pub open spec fn spec_are_some(self) -> bool {
        self.x is Some && self.y is Some && self.z is Some
    }

    /// Constructs a [`PartialPoint`] from an optional value for each axis.
    pub fn new(x: Option<Decimal>, y: Option<Decimal>, z: Option<Decimal>) -> (r: Self)
        ensures
            r == (PartialPoint { x, y, z }),
    {
        PartialPoint { x, y, z }
    }

    /// Check if all the axis are `None` variants.
    pub fn are_none(&self) -> (r: bool)
        ensures
            r == self.spec_are_none(),
    {
        self.x.is_none() && self.y.is_none() && self.z.is_none()
    }

    /// Check if all the axis are `Some` variants.
    pub fn are_some(&self) -> (r: bool)
        ensures
            r == self.spec_are_some(),
    {
        self.x.is_some() && self.y.is_some() && self.z.is_some()
    }
}

/// Circular interpolation method.
///
/// Ensures that both relative point and radius do not appear in the same block.
#[derive(Clone, Copy, Debug, PartialEq, Eq, Structural)]
pub enum CircleMethod {
    /// Relative coordinate of circle center with **I, J & K** from current position.
    RelativePoint(PartialPoint),
    /// Explicit radius specified with **R**.
    FixedRadius(Decimal),
}

/// A parsed & validated [`Token`]: each prefix is valid and grouped with a valid suffix type.
#[derive(Clone, Copy, Debug, PartialEq, Eq, Structural)]
pub enum Code {
    D(u32),
    G(u32),
    H(u32),
    M(u32),
    N(u32),
    O(u32),
    P(u32),
    S(u32),
    T(u32),
    F(Decimal),
    I(Decimal),
    J(Decimal),
    K(Decimal),
    Q(Decimal),
    R(Decimal),
    X(Decimal),
    Y(Decimal),
    Z(Decimal),
}

/// Possible errors that can happen during parsing.
#[derive(Clone, Copy, Debug, PartialEq, Eq, Structural)]
pub enum ParserError {
    /// This prefix does not support the type of suffix provided.
    WrongSuffixType(u8),
    /// The code prefix provided is invalid/unimplemented
    UnknownPrefix(u8),
    /// Same G-code found atleast twice.
    DuplicateGCode(u32),
    /// Prefix and suffix make an invalid G-code.
    InvalidGCode(u32),
    /// G-codes detected from the same group.
    DuplicateGCodeGroup(u8),
    /// Multiple codes of same prefix in the same line.
    /// Only multiple G-codes are allowed in one line.
    DuplicatePrefix(u8),
    /// The tokens passed along with a 'G' prefix token
    /// do not meet the requirements of the said GCode variant.
    InvalidParamForGCode(u32),
    /// Missing token required for a GCode variant.
    MissingCodeForGCode(u8),
    /// The code block contains codes for both variants of circle methods.
    AmbiguousCircleMethod,
    /// Conditions for a particular circle method were not met, or the end coords are missing.
    InvalidCircle(Option<CircleMethod>),
    /// Prefix and suffix make an invalid M-code.
    InvalidMCode(u32),
    /// Missing token required for a MCode variant.
    MissingCodeForMCode(u8),
    /// Prefix was found after parsing G & M Codes, but cannot be parsed on its own.
    UnexpectedPrefix(u8),
    /// Tokenization failed.
    Lexer(LexerError),
}

/// The code a token denotes, or why it denotes none.
pub open spec fn spec_code_parse(t: Token) -> Result<Code, ParserError> {
    let p = t.prefix;
    let i = t.suffix.spec_int();
    let f = t.suffix.spec_float();
    let wrong = Err(ParserError::WrongSuffixType(p));
    if p == 'D' as u8 {
        match i { Some(v) => Ok(Code::D(v)), None => wrong }
    } else if p == 'G' as u8 {
        match i { Some(v) => Ok(Code::G(v)), None => wrong }
    } else if p == 'H' as u8 {
        match i { Some(v) => Ok(Code::H(v)), None => wrong }
    } else if p == 'M' as u8 {
        match i { Some(v) => Ok(Code::M(v)), None => wrong }
    } else if p == 'N' as u8 {
        match i { Some(v) => Ok(Code::N(v)), None => wrong }
    } else if p == 'O' as u8 {
        match i { Some(v) => Ok(Code::O(v)), None => wrong }
    } else if p == 'P' as u8 {
        match i { Some(v) => Ok(Code::P(v)), None => wrong }
    } else if p == 'S' as u8 {
        match i { Some(v) => Ok(Code::S(v)), None => wrong }
    } else if p == 'T' as u8 {
        match i { Some(v) => Ok(Code::T(v)), None => wrong }
    } else if p == 'F' as u8 {
        match f { Some(v) => Ok(Code::F(v)), None => wrong }
    } else if p == 'I' as u8 {
        match f { Some(v) => Ok(Code::I(v)), None => wrong }
    } else if p == 'J' as u8 {
        match f { Some(v) => Ok(Code::J(v)), None => wrong }
    } else if p == 'K' as u8 {
        match f { Some(v) => Ok(Code::K(v)), None => wrong }
    } else if p == 'Q' as u8 {
        match f { Some(v) => Ok(Code::Q(v)), None => wrong }
    } else if p == 'R' as u8 {
        match f { Some(v) => Ok(Code::R(v)), None => wrong }
    } else if p == 'X' as u8 {
        match f { Some(v) => Ok(Code::X(v)), None => wrong }
    } else if p == 'Y' as u8 {
        match f { Some(v) => Ok(Code::Y(v)), None => wrong }
    } else if p == 'Z' as u8 {
        match f { Some(v) => Ok(Code::Z(v)), None => wrong }
    } else {
        Err(ParserError::UnknownPrefix(p))
    }
}

impl Code {
    pub open spec fn spec_prefix(self) -> u8 {
        match self {
            Code::D(_) => 'D' as u8,
            Code::G(_) => 'G' as u8,
            Code::H(_) => 'H' as u8,
            Code::M(_) => 'M' as u8,
            Code::N(_) => 'N' as u8,
            Code::O(_) => 'O' as u8,
            Code::P(_) => 'P' as u8,
            Code::S(_) => 'S' as u8,
            Code::T(_) => 'T' as u8,
            Code::F(_) => 'F' as u8,
            Code::I(_) => 'I' as u8,
            Code::J(_) => 'J' as u8,
            Code::K(_) => 'K' as u8,
            Code::Q(_) => 'Q' as u8,
            Code::R(_) => 'R' as u8,
            Code::X(_) => 'X' as u8,
            Code::Y(_) => 'Y' as u8,
            Code::Z(_) => 'Z' as u8,
        }
    }

    /// Tries to construct a [`Code`] from a [`Token`].
    ///
    /// # Errors
    /// - [`ParserError::UnknownPrefix`] when the prefix is not a supported code letter.
    /// - [`ParserError::WrongSuffixType`] when the suffix type does not suit the prefix.
    pub fn parse(token: &Token) -> (r: Result<Self, ParserError>)
        ensures
            r == spec_code_parse(*token),
    {
        let i = token.suffix.integer();
        let f = token.suffix.float();
        let p = token.prefix;
        let wrong = ParserError::WrongSuffixType(p);
        if p == ('D' as u8) {
            match i { Some(v) => Ok(Code::D(v)), None => Err(wrong) }
        } else if p == ('G' as u8) {
            match i { Some(v) => Ok(Code::G(v)), None => Err(wrong) }
        } else if p == ('H' as u8) {
            match i { Some(v) => Ok(Code::H(v)), None => Err(wrong) }
        } else if p == ('M' as u8) {
            match i { Some(v) => Ok(Code::M(v)), None => Err(wrong) }
        } else if p == ('N' as u8) {
            match i { Some(v) => Ok(Code::N(v)), None => Err(wrong) }
        } else if p == ('O' as u8) {
            match i { Some(v) => Ok(Code::O(v)), None => Err(wrong) }
        } else if p == ('P' as u8) {
            match i { Some(v) => Ok(Code::P(v)), None => Err(wrong) }
        } else if p == ('S' as u8) {
            match i { Some(v) => Ok(Code::S(v)), None => Err(wrong) }
        } else if p == ('T' as u8) {
            match i { Some(v) => Ok(Code::T(v)), None => Err(wrong) }
        } else if p == ('F' as u8) {
            match f { Some(v) => Ok(Code::F(v)), None => Err(wrong) }
        } else if p == ('I' as u8) {
            match f { Some(v) => Ok(Code::I(v)), None => Err(wrong) }
        } else if p == ('J' as u8) {
            match f { Some(v) => Ok(Code::J(v)), None => Err(wrong) }
        } else if p == ('K' as u8) {
            match f { Some(v) => Ok(Code::K(v)), None => Err(wrong) }
        } else if p == ('Q' as u8) {
            match f { Some(v) => Ok(Code::Q(v)), None => Err(wrong) }
        } else if p == ('R' as u8) {
            match f { Some(v) => Ok(Code::R(v)), None => Err(wrong) }
        } else if p == ('X' as u8) {
            match f { Some(v) => Ok(Code::X(v)), None => Err(wrong) }
        } else if p == ('Y' as u8) {
            match f { Some(v) => Ok(Code::Y(v)), None => Err(wrong) }
        } else if p == ('Z' as u8) {
            match f { Some(v) => Ok(Code::Z(v)), None => Err(wrong) }
        } else {
            Err(ParserError::UnknownPrefix(p))
        }
    }

    /// Returns the **ASCII** prefix of `self` as `u8`.
    pub fn prefix(&self) -> (r: u8)
        ensures
            r == self.spec_prefix(),
    {
        match self {
            Code::D(_) => ('D' as u8),
            Code::G(_) => ('G' as u8),
            Code::H(_) => ('H' as u8),
            Code::M(_) => ('M' as u8),
            Code::N(_) => ('N' as u8),
            Code::O(_) => ('O' as u8),
            Code::P(_) => ('P' as u8),
            Code::S(_) => ('S' as u8),
            Code::T(_) => ('T' as u8),
            Code::F(_) => ('F' as u8),
            Code::I(_) => ('I' as u8),
            Code::J(_) => ('J' as u8),
            Code::K(_) => ('K' as u8),
            Code::Q(_) => ('Q' as u8),
            Code::R(_) => ('R' as u8),
            Code::X(_) => ('X' as u8),
            Code::Y(_) => ('Y' as u8),
            Code::Z(_) => ('Z' as u8),
        }
    }
}

/// A collection of **unique** [`Code`]s **without 'G' or 'M'** prefixes: at most one value
/// per prefix.
#[derive(Clone, Copy, Debug, PartialEq, Eq, Structural)]
pub struct Codes {
    pub d: Option<u32>,
    pub f: Option<Decimal>,
    pub h: Option<u32>,
    pub i: Option<Decimal>,
    pub j: Option<Decimal>,
    pub k: Option<Decimal>,
    pub n: Option<u32>,
    pub o: Option<u32>,
    pub p: Option<u32>,
    pub q: Option<Decimal>,
    pub r: Option<Decimal>,
    pub s: Option<u32>,
    pub t: Option<u32>,
    pub x: Option<Decimal>,
    pub y: Option<Decimal>,
    pub z: Option<Decimal>,
}

pub open spec fn empty_codes() -> Codes {
    Codes {
        d: None,
        f: None,
        h: None,
        i: None,
        j: None,
        k: None,
        n: None,
        o: None,
        p: None,
        q: None,
        r: None,
        s: None,
        t: None,
        x: None,
        y: None,
        z: None,
    }
}

/// Adds `code` to `c`, failing when its prefix is already present.
pub open spec fn spec_codes_push(c: Codes, code: Code) -> Result<Codes, ParserError> {
    let dup = Err(ParserError::DuplicatePrefix(code.spec_prefix()));
    match code {
        Code::D(v) => if c.d is None { Ok(Codes { d: Some(v), ..c }) } else { dup },
        Code::H(v) => if c.h is None { Ok(Codes { h: Some(v), ..c }) } else { dup },
        Code::N(v) => if c.n is None { Ok(Codes { n: Some(v), ..c }) } else { dup },
        Code::O(v) => if c.o is None { Ok(Codes { o: Some(v), ..c }) } else { dup },
        Code::P(v) => if c.p is None { Ok(Codes { p: Some(v), ..c }) } else { dup },
        Code::S(v) => if c.s is None { Ok(Codes { s: Some(v), ..c }) } else { dup },
        Code::T(v) => if c.t is None { Ok(Codes { t: Some(v), ..c }) } else { dup },
        Code::F(v) => if c.f is None { Ok(Codes { f: Some(v), ..c }) } else { dup },
        Code::I(v) => if c.i is None { Ok(Codes { i: Some(v), ..c }) } else { dup },
        Code::J(v) => if c.j is None { Ok(Codes { j: Some(v), ..c }) } else { dup },
        Code::K(v) => if c.k is None { Ok(Codes { k: Some(v), ..c }) } else { dup },
        Code::Q(v) => if c.q is None { Ok(Codes { q: Some(v), ..c }) } else { dup },
        Code::R(v) => if c.r is None { Ok(Codes { r: Some(v), ..c }) } else { dup },
        Code::X(v) => if c.x is None { Ok(Codes { x: Some(v), ..c }) } else { dup },
        Code::Y(v) => if c.y is None { Ok(Codes { y: Some(v), ..c }) } else { dup },
        Code::Z(v) => if c.z is None { Ok(Codes { z: Some(v), ..c }) } else { dup },
        Code::G(_) => dup,
        Code::M(_) => dup,
    }
}

/// The next code that [`Codes::next`] hands out, and what remains: the first present
/// prefix in the order D, F, H, I, J, K, N, O, P, Q, R, S, T, X, Y, Z.
pub open spec fn spec_codes_next(c: Codes) -> (Codes, Option<Code>) {
    if c.d is Some {
        (Codes { d: None, ..c }, Some(Code::D(c.d->0)))
    } else if c.f is Some {
        (Codes { f: None, ..c }, Some(Code::F(c.f->0)))
    } else if c.h is Some {
        (Codes { h: None, ..c }, Some(Code::H(c.h->0)))
    } else if c.i is Some {
        (Codes { i: None, ..c }, Some(Code::I(c.i->0)))
    } else if c.j is Some {
        (Codes { j: None, ..c }, Some(Code::J(c.j->0)))
    } else if c.k is Some {
        (Codes { k: None, ..c }, Some(Code::K(c.k->0)))
    } else if c.n is Some {
        (Codes { n: None, ..c }, Some(Code::N(c.n->0)))
    } else if c.o is Some {
        (Codes { o: None, ..c }, Some(Code::O(c.o->0)))
    } else if c.p is Some {
        (Codes { p: None, ..c }, Some(Code::P(c.p->0)))
    } else if c.q is Some {
        (Codes { q: None, ..c }, Some(Code::Q(c.q->0)))
    } else if c.r is Some {
        (Codes { r: None, ..c }, Some(Code::R(c.r->0)))
    } else if c.s is Some {
        (Codes { s: None, ..c }, Some(Code::S(c.s->0)))
    } else if c.t is Some {
        (Codes { t: None, ..c }, Some(Code::T(c.t->0)))
    } else if c.x is Some {
        (Codes { x: None, ..c }, Some(Code::X(c.x->0)))
    } else if c.y is Some {
        (Codes { y: None, ..c }, Some(Code::Y(c.y->0)))
    } else if c.z is Some {
        (Codes { z: None, ..c }, Some(Code::Z(c.z->0)))
    } else {
        (c, None)
    }
}

/// The destination point `X`, `Y`, `Z` of `c`.
pub open spec fn spec_xyz(c: Codes) -> PartialPoint {
    PartialPoint { x: c.x, y: c.y, z: c.z }
}

/// The relative arc center `I`, `J`, `K` of `c`.
pub open spec fn spec_ijk(c: Codes) -> PartialPoint {
    PartialPoint { x: c.i, y: c.j, z: c.k }
}

pub open spec fn without_xyz(c: Codes) -> Codes {
    Codes { x: None, y: None, z: None, ..c }
}

/// Removes the arc codes from `c`: the destination, the feed and the circle method.
pub open spec fn spec_take_circular(c: Codes) -> (
    Codes,
    Result<(PartialPoint, CircleMethod, Option<Decimal>), ParserError>,
) {
    let pos = spec_xyz(c);
    let feed = c.f;
    let c2 = Codes { f: None, ..without_xyz(c) };
    if c.r is Some && (c.i is Some || c.j is Some || c.k is Some) {
        (c2, Err(ParserError::AmbiguousCircleMethod))
    } else {
        let method = if c.r is Some {
            CircleMethod::FixedRadius(c.r->0)
        } else {
            CircleMethod::RelativePoint(spec_ijk(c))
        };
        let c3 = if c.r is Some {
            Codes { r: None, ..c2 }
        } else {
            Codes { i: None, j: None, k: None, ..c2 }
        };
        if pos.spec_are_none() {
            (c3, Err(ParserError::InvalidCircle(None)))
        } else {
            match method {
                CircleMethod::RelativePoint(rel) => if rel.spec_are_some() || rel.spec_are_none() {
                    (c3, Err(ParserError::InvalidCircle(Some(method))))
                } else {
                    (c3, Ok((pos, method, feed)))
                },
                CircleMethod::FixedRadius(rad) => if rad.abs_below_pow10_neg(5) {
                    (c3, Err(ParserError::InvalidCircle(Some(method))))
                } else {
                    (c3, Ok((pos, method, feed)))
                },
            }
        }
    }
}

impl Codes {
    /// Constructs a new [`Codes`], ready to store non 'G' or non 'M' prefixed, unique codes.
    pub fn new() -> (r: Self)
        ensures
            r == empty_codes(),
    {
        Codes {
            d: None,
            f: None,
            h: None,
            i: None,
            j: None,
            k: None,
            n: None,
            o: None,
            p: None,
            q: None,
            r: None,
            s: None,
            t: None,
            x: None,
            y: None,
            z: None,
        }
    }

    /// Tries to add a new [`Code`] to `self`. The code **must not** be [`Code::G`] or [`Code::M`] variant.
    ///
    /// # Errors
    /// Returns [`ParserError::DuplicatePrefix`] if a code with same prefix is already present.
    pub fn push(&mut self, code: Code) -> (r: Result<(), ParserError>)
        requires
            !(code is G),
            !(code is M),
        ensures
            match spec_codes_push(*old(self), code) {
                Ok(c) => r is Ok && *final(self) == c,
                Err(e) => r == Err::<(), ParserError>(e) && *final(self) == *old(self),
            },
    {
        let dup = ParserError::DuplicatePrefix(code.prefix());
        match code {
            Code::D(v) => if self.d.is_none() {
                self.d = Some(v);
            } else {
                return Err(dup);
            },
            Code::H(v) => if self.h.is_none() {
                self.h = Some(v);
            } else {
                return Err(dup);
            },
            Code::N(v) => if self.n.is_none() {
                self.n = Some(v);
            } else {
                return Err(dup);
            },
            Code::O(v) => if self.o.is_none() {
                self.o = Some(v);
            } else {
                return Err(dup);
            },
            Code::P(v) => if self.p.is_none() {
                self.p = Some(v);
            } else {
                return Err(dup);
            },
            Code::S(v) => if self.s.is_none() {
                self.s = Some(v);
            } else {
                return Err(dup);
            },
            Code::T(v) => if self.t.is_none() {
                self.t = Some(v);
            } else {
                return Err(dup);
            },
            Code::F(v) => if self.f.is_none() {
                self.f = Some(v);
            } else {
                return Err(dup);
            },
            Code::I(v) => if self.i.is_none() {
                self.i = Some(v);
            } else {
                return Err(dup);
            },
            Code::J(v) => if self.j.is_none() {
                self.j = Some(v);
            } else {
                return Err(dup);
            },
            Code::K(v) => if self.k.is_none() {
                self.k = Some(v);
            } else {
                return Err(dup);
            },
            Code::Q(v) => if self.q.is_none() {
                self.q = Some(v);
            } else {
                return Err(dup);
            },
            Code::R(v) => if self.r.is_none() {
                self.r = Some(v);
            } else {
                return Err(dup);
            },
            Code::X(v) => if self.x.is_none() {
                self.x = Some(v);
            } else {
                return Err(dup);
            },
            Code::Y(v) => if self.y.is_none() {
                self.y = Some(v);
            } else {
                return Err(dup);
            },
            Code::Z(v) => if self.z.is_none() {
                self.z = Some(v);
            } else {
                return Err(dup);
            },
            Code::G(_) | Code::M(_) => return Err(dup),
        }
        Ok(())
    }

    /// Constructs a new [`PartialPoint`] by **consuming** `x`, `y`, & `z` field values from `self`.
    pub fn take_partial_point(&mut self) -> (r: PartialPoint)
        ensures
            r == spec_xyz(*old(self)),
            *final(self) == without_xyz(*old(self)),
    {
        PartialPoint::new(self.x.take(), self.y.take(), self.z.take())
    }

    /// Constructs a new [`PartialPoint`] by **consuming** `i`, `j`, & `k` field values from `self`.
    fn take_partial_point_ijk(&mut self) -> (r: PartialPoint)
        ensures
            r == spec_ijk(*old(self)),
            *final(self) == (Codes { i: None, j: None, k: None, ..*old(self) }),
    {
        PartialPoint::new(self.i.take(), self.j.take(), self.k.take())
    }

    /// Removes the `f` field from `self` and returns it.
    fn take_feed(&mut self) -> (r: Option<Decimal>)
        ensures
            r == old(self).f,
            *final(self) == (Codes { f: None, ..*old(self) }),
    {
        self.f.take()
    }

    /// Tries to parse a [`Codes`] for circular interpolation codes,
    /// by removing any information regarding circular interpolation from it.
    ///
    /// Returns the destination coordinates, the method to use for the circle,
    /// and the feedrate, if provided.
    ///
    /// # Errors
    /// Returns [`ParserError::AmbiguousCircleMethod`] or [`ParserError::InvalidCircle`] on
    /// failure.
    pub fn take_circular(&mut self) -> (r: Result<(PartialPoint, CircleMethod, Option<Decimal>), ParserError>)
        ensures
            (*final(self), r) == spec_take_circular(*old(self)),
    {
        let pos = self.take_partial_point();
        let feed = self.take_feed();

        // both circle methods mean invalid input
        if self.r.is_some() && (self.i.is_some() || self.j.is_some() || self.k.is_some()) {
            return Err(ParserError::AmbiguousCircleMethod);
        }
        // branch based on if 'R' prefix exists or not
        let method = if let Some(r) = self.r.take() {
            CircleMethod::FixedRadius(r)
        } else {
            CircleMethod::RelativePoint(self.take_partial_point_ijk())
        };
        // destination coords are required for arcs.
        if pos.are_none() {
            return Err(ParserError::InvalidCircle(None));
        }
        match &method {
            // relative center must be on a single plane only, that is,
            // at most 2 axis can be specified, and at least one axis should be present
            CircleMethod::RelativePoint(rel_point) => {
                if rel_point.are_some() || rel_point.are_none() {
                    return Err(ParserError::InvalidCircle(Some(method)));
                }
            },
            // R must not be 0.
            CircleMethod::FixedRadius(rad) => {
                if rad.abs_below_pow10_neg_exec(5) {
                    return Err(ParserError::InvalidCircle(Some(method)));
                }
            },
        }
        Ok((pos, method, feed))
    }

    /// **Optionally** returns the next [`Code`], removing it from `self`;
    /// [`None`] when every code has been handed out.
    ///
    /// Never returns the [`Code::G`] or [`Code::M`] variants.
    #[allow(clippy::should_implement_trait)]
    pub fn next(&mut self) -> (r: Option<Code>)
        ensures
            (*final(self), r) == spec_codes_next(*old(self)),
    {
        if let Some(v) = self.d {
            self.d = None;
            Some(Code::D(v))
        } else if let Some(v) = self.f {
            self.f = None;
            Some(Code::F(v))
        } else if let Some(v) = self.h {
            self.h = None;
            Some(Code::H(v))
        } else if let Some(v) = self.i {
            self.i = None;
            Some(Code::I(v))
        } else if let Some(v) = self.j {
            self.j = None;
            Some(Code::J(v))
        } else if let Some(v) = self.k {
            self.k = None;
            Some(Code::K(v))
        } else if let Some(v) = self.n {
            self.n = None;
            Some(Code::N(v))
        } else if let Some(v) = self.o {
            self.o = None;
            Some(Code::O(v))
        } else if let Some(v) = self.p {
            self.p = None;
            Some(Code::P(v))
        } else if let Some(v) = self.q {
            self.q = None;
            Some(Code::Q(v))
        } else if let Some(v) = self.r {
            self.r = None;
            Some(Code::R(v))
        } else if let Some(v) = self.s {
            self.s = None;
            Some(Code::S(v))
        } else if let Some(v) = self.t {
            self.t = None;
            Some(Code::T(v))
        } else if let Some(v) = self.x {
            self.x = None;
            Some(Code::X(v))
        } else if let Some(v) = self.y {
            self.y = None;
            Some(Code::Y(v))
        } else if let Some(v) = self.z {
            self.z = None;
            Some(Code::Z(v))
        } else {
            None
        }
    }
}

/// The codes of a block sorted out: the `G` codes in order, the `M` code if any, and the
/// other codes.
pub type Collected = (Seq<Code>, Option<Code>, Codes);

/// Sorts the tokens of a block into [`Collected`] codes, or the first error.
pub open spec fn spec_collect(tokens: Seq<Token>) -> Result<Collected, ParserError>
    decreases tokens.len(),
{
    if tokens.len() == 0 {
        Ok((Seq::empty(), None, empty_codes()))
    } else {
        match spec_collect(tokens.drop_last()) {
            Err(e) => Err(e),
            Ok((gs, m, c)) => {
                let t = tokens.last();
                match spec_code_parse(t) {
                    Err(e) => Err(e),
                    Ok(code) => if t.prefix == 'G' as u8 {
                        Ok((gs.push(code), m, c))
                    } else if t.prefix == 'M' as u8 {
                        if m is Some {
                            Err(ParserError::DuplicatePrefix('M' as u8))
                        } else {
                            Ok((gs, Some(code), c))
                        }
                    } else {
                        match spec_codes_push(c, code) {
                            Err(e) => Err(e),
                            Ok(c2) => Ok((gs, m, c2)),
                        }
                    },
                }
            },
        }
    }
}

/// Parses the `G` codes `gs` in order against the codes `c`, or the first error.
pub open spec fn spec_parse_gcodes(gs: Seq<Code>, c: Codes) -> Result<(Seq<GCode>, Codes), ParserError>
    decreases gs.len(),
{
    if gs.len() == 0 {
        Ok((Seq::empty(), c))
    } else {
        match spec_parse_gcodes(gs.drop_last(), c) {
            Err(e) => Err(e),
            Ok((l, c1)) => {
                let (c2, r) = spec_gcode_parse(gs.last()->G_0, c1);
                match r {
                    Err(e) => Err(e),
                    Ok(g) => match spec_gcodes_push(l, g) {
                        Err(e) => Err(e),
                        Ok(l2) => Ok((l2, c2)),
                    },
                }
            },
        }
    }
}

/// A parsed block: its G-codes in order, its M-code, and the codes left over.
pub type ParsedBlock = (Seq<GCode>, Option<MCode>, Codes);

/// The parse of the tokens of a block: codes are sorted out first, then the `G` codes are
/// parsed in order, then the `M` code, each taking the values it needs from the other codes.
pub open spec fn spec_parse_block(tokens: Seq<Token>) -> Result<ParsedBlock, ParserError> {
    match spec_collect(tokens) {
        Err(e) => Err(e),
        Ok((gs, m, c)) => match spec_parse_gcodes(gs, c) {
            Err(e) => Err(e),
            Ok((l, c2)) => match m {
                None => Ok((l, None, c2)),
                Some(mc) => {
                    let (c3, r) = spec_mcode_parse(mc->M_0, c2);
                    match r {
                        Err(e) => Err(e),
                        Ok(mm) => Ok((l, Some(mm), c3)),
                    }
                },
            },
        },
    }
}

/// The parse of one sanitized source line.
pub open spec fn spec_parse_line(line: Seq<char>) -> Result<ParsedBlock, ParserError> {
    match spec_tokenize(line) {
        Err(e) => Err(ParserError::Lexer(e)),
        Ok(tokens) => spec_parse_block(tokens),
    }
}

proof fn lemma_code_prefix(t: Token)
    ensures
        spec_code_parse(t) matches Ok(code) ==> code.spec_prefix() == t.prefix,
{
}

proof fn lemma_collect_err_persists(t: Seq<Token>, k: int)
    requires
        0 <= k <= t.len(),
        spec_collect(t.take(k)) is Err,
    ensures
        spec_collect(t) == spec_collect(t.take(k)),
    decreases t.len() - k,
{
    if k < t.len() {
        assert(t.take(k + 1).drop_last() =~= t.take(k));
        lemma_collect_err_persists(t, k + 1);
    } else {
        assert(t.take(k) =~= t);
    }
}

proof fn lemma_parse_gcodes_err_persists(gs: Seq<Code>, c: Codes, k: int)
    requires
        0 <= k <= gs.len(),
        spec_parse_gcodes(gs.take(k), c) is Err,
    ensures
        spec_parse_gcodes(gs, c) == spec_parse_gcodes(gs.take(k), c),
    decreases gs.len() - k,
{
    if k < gs.len() {
        assert(gs.take(k + 1).drop_last() =~= gs.take(k));
        lemma_parse_gcodes_err_persists(gs, c, k + 1);
    } else {
        assert(gs.take(k) =~= gs);
    }
}

/// A **parsed** [`Block`].
#[derive(Debug)]
pub struct CodeBlock {
    /// Sequence of unique GCodes, with unique Groups.
    gcodes: GCodes,
    /// At most one parsed MCode per block.
    mcode: Option<MCode>,
    /// Collection of unique Codes, suffixed by the appropriate type.
    codes: Codes,
}

impl CodeBlock {
    /// The G-codes, M-code and other codes of the block.
    pub closed spec fn view_block(&self) -> ParsedBlock {
        (self.gcodes.view_codes(), self.mcode, self.codes)
    }

    /// The G-codes of the block.
    pub closed spec fn spec_gcodes(&self) -> GCodes {
        self.gcodes
    }

    /// Tries to construct a [`CodeBlock`] by parsing the tokens of a [`Block`].
    ///
    /// Returns a [`ParserError`] on failure.
    pub fn parse(block: Block) -> (r: Result<Self, ParserError>)
        ensures
            match spec_parse_block(block.remaining()) {
                Ok(v) => r is Ok && r->Ok_0.view_block() == v,
                Err(e) => r == Err::<CodeBlock, ParserError>(e),
            },
    {
        let ghost toks = block.remaining();
        let mut blk = block;
        let mut gs: Vec<Code> = Vec::new();
        let mut m: Option<Code> = None;
        let mut codes = Codes::new();
        let ghost mut n: int = 0;
        assert(toks.take(0) =~= Seq::<Token>::empty());
        assert(toks.skip(0) =~= toks);
        // do not parse G or M codes until every other code is parsed
        loop
            invariant
                0 <= n <= toks.len(),
                blk.remaining() == toks.skip(n),
                toks == block.remaining(),
                spec_collect(toks.take(n)) == Ok::<Collected, ParserError>((gs@, m, codes)),
            ensures
                n == toks.len(),
                spec_collect(toks.take(n)) == Ok::<Collected, ParserError>((gs@, m, codes)),
            decreases toks.len() - n,
        {
            let ghost before = blk.remaining();
            let token = match blk.next() {
                None => break,
                Some(t) => t,
            };
            proof {
                assert(toks[n] == before[0]);
                assert(toks.take(n + 1).drop_last() =~= toks.take(n));
                assert(toks.take(n + 1).last() == token);
                assert(toks.skip(n + 1) =~= before.drop_first());
                lemma_code_prefix(token);
            }
            let code = match Code::parse(&token) {
                Ok(c) => c,
                Err(e) => {
                    proof {
                        lemma_collect_err_persists(toks, n + 1);
                    }
                    return Err(e);
                },
            };
            if token.prefix == ('G' as u8) {
                gs.push(code);
            } else if token.prefix == ('M' as u8) {
                if m.is_some() {
                    proof {
                        lemma_collect_err_persists(toks, n + 1);
                    }
                    return Err(ParserError::DuplicatePrefix('M' as u8));
                }
                m = Some(code);
            } else {
                match codes.push(code) {
                    Ok(()) => {},
                    Err(e) => {
                        proof {
                            lemma_collect_err_persists(toks, n + 1);
                        }
                        return Err(e);
                    },
                }
            }
            proof {
                n = n + 1;
            }
        }
        proof {
            assert(toks.take(n) =~= toks);
            lemma_collect_codes_shape(toks);
        }
        // parse any gcode(s) & mcode
        let ghost codes0 = codes;
        let mut gcodes = GCodes::new();
        let mut i: usize = 0;
        assert(gs@.take(0) =~= Seq::<Code>::empty());
        while i < gs.len()
            invariant
                i <= gs.len(),
                forall|k: int| 0 <= k < gs@.len() ==> (#[trigger] gs@[k]) is G,
                toks == block.remaining(),
                spec_collect(toks) == Ok::<Collected, ParserError>((gs@, m, codes0)),
                spec_parse_gcodes(gs@.take(i as int), codes0) == Ok::<(Seq<GCode>, Codes), ParserError>(
                    (gcodes.view_codes(), codes),
                ),
            decreases gs.len() - i,
        {
            proof {
                assert(gs@.take(i + 1).drop_last() =~= gs@.take(i as int));
                assert(gs@.take(i + 1).last() == gs@[i as int]);
            }
            let g = match GCode::parse(gs[i], &mut codes) {
                Ok(g) => g,
                Err(e) => {
                    proof {
                        lemma_parse_gcodes_err_persists(gs@, codes0, i + 1);
                    }
                    return Err(e);
                },
            };
            match gcodes.push(g) {
                Ok(()) => {},
                Err(e) => {
                    proof {
                        lemma_parse_gcodes_err_persists(gs@, codes0, i + 1);
                    }
                    return Err(e);
                },
            }
            i = i + 1;
        }
        assert(gs@.take(gs.len() as int) =~= gs@);
        let mut mcode = None;
        if let Some(code) = m {
            match MCode::parse(code, &mut codes) {
                Ok(mc) => mcode = Some(mc),
                Err(e) => return Err(e),
            }
        }
        Ok(CodeBlock { gcodes, mcode, codes })
    }

    /// Returns a **mutable reference** to the parsed [`GCodes`].
    pub fn gcodes(&mut self) -> (r: &mut GCodes)
        ensures
            *r == old(self).spec_gcodes(),
            r.view_codes() == old(self).view_block().0,
            final(self).spec_gcodes() == *final(r),
            final(self).view_block().0 == final(r).view_codes(),
            final(self).view_block().1 == old(self).view_block().1,
            final(self).view_block().2 == old(self).view_block().2,
    {
        &mut self.gcodes
    }

    /// [`Option`]ally returns the parsed [`MCode`], removing it from the block.
    pub fn mcode(&mut self) -> (r: Option<MCode>)
        ensures
            r == old(self).view_block().1,
            final(self).view_block() == (old(self).view_block().0, None::<MCode>, old(self).view_block().2),
    {
        self.mcode.take()
    }

    /// Returns a **mutable reference** to the parsed [`Codes`].
    pub fn codes(&mut self) -> (r: &mut Codes)
        ensures
            *r == old(self).view_block().2,
            final(self).view_block() == (old(self).view_block().0, old(self).view_block().1, *final(r)),
    {
        &mut self.codes
    }
}

proof fn lemma_collect_codes_shape(t: Seq<Token>)
    requires
        spec_collect(t) is Ok,
    ensures
        ({
            let (gs, m, c) = spec_collect(t)->Ok_0;
            &&& forall|k: int| 0 <= k < gs.len() ==> (#[trigger] gs[k]) is G
            &&& m matches Some(mc) ==> mc is M
        }),
    decreases t.len(),
{
    if t.len() > 0 {
        lemma_collect_codes_shape(t.drop_last());
        lemma_code_prefix(t.last());
        let (gs, m, c) = spec_collect(t.drop_last())->Ok_0;
        let (gs2, m2, c2) = spec_collect(t)->Ok_0;
        assert forall|k: int| 0 <= k < gs2.len() implies (#[trigger] gs2[k]) is G by {
            if k < gs.len() {
                assert(gs2[k] == gs[k]);
            }
        }
    }
}

/// The whole G-code as **parsed** [`CodeBlock`]s, one per line of the [`Lexer`]'s source.
///
/// Each [`CodeBlock`] is parsed **lazily**, on request.
#[derive(Debug)]
pub struct Parser(Lexer);

impl Parser {
    /// The lexer being parsed.
    pub closed spec fn lexer(&self) -> Lexer {
        self.0
    }

    /// Constructs [`Parser`] from a [`Lexer`].
    ///
    /// This function **does not parse** any [`Block`]s.
    /// Parsing is done on demand with a call to [`Parser::next`].
    pub fn new(lexer: Lexer) -> (r: Self)
        ensures
            r.lexer() == lexer,
    {
        Parser(lexer)
    }

    /// Reloads the [`Parser`] to start from beginning of the [`Lexer`].
    pub fn reload(&mut self)
        ensures
            final(self).lexer().source().lines() == old(self).lexer().source().lines(),
            final(self).lexer().source().spec_index() == 0,
    {
        self.0.reload();
    }

    /// **Optionally** returns the line at `index` from the [`Source`](crate::source::Source).
    pub fn get_line(&self, index: usize) -> (r: Option<&str>)
        ensures
            r is Some <==> index < self.lexer().source().lines().len(),
            r matches Some(s) ==> s@ == self.lexer().source().lines()[index as int],
    {
        self.0.get_line(index)
    }

    /// **Optionally** parses the next line of the source.
    ///
    /// Returns [`None`] when every line has been parsed, otherwise the [`CodeBlock`] of the
    /// line or the [`ParserError`] found in it.
    #[allow(clippy::should_implement_trait)]
    pub fn next(&mut self) -> (r: Option<Result<CodeBlock, ParserError>>)
        ensures
            final(self).lexer().source().lines() == old(self).lexer().source().lines(),
            ({
                let src = old(self).lexer().source();
                let i = src.spec_index();
                if i < src.lines().len() {
                    &&& final(self).lexer().source().spec_index() == i + 1
                    &&& r is Some
                    &&& match spec_parse_line(src.lines()[i as int]) {
                        Ok(v) => r->0 is Ok && r->0->Ok_0.view_block() == v,
                        Err(e) => r->0 == Err::<CodeBlock, ParserError>(e),
                    }
                } else {
                    &&& final(self).lexer().source().spec_index() == i
                    &&& r is None
                }
            }),
    {
        match self.0.next() {
            None => None,
            Some(Ok(block)) => Some(CodeBlock::parse(block)),
            Some(Err(e)) => Some(Err(ParserError::Lexer(e))),
        }
    }
}

/// Message for [`ParserError::InvalidCircle`].
pub fn invalid_circle_msg(opt: &Option<CircleMethod>) -> (r: &'static str)
    ensures
        r@ == (match opt {
            Some(CircleMethod::RelativePoint(_)) => "relative center of arc not on a single plane"@,
            Some(CircleMethod::FixedRadius(_)) => "zero radius arc requested"@,
            None => "end coordinates not found for the requested arc"@,
        }),
{
    match opt {
        Some(method) => match method {
            CircleMethod::RelativePoint(_) => "relative center of arc not on a single plane",
            CircleMethod::FixedRadius(_) => "zero radius arc requested",
        },
        None => "end coordinates not found for the requested arc",
    }
}

} // verus!
