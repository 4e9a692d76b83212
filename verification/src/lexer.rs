//! # Lexer
//!
//! Converts a sanitized G-code line (a *block*) into [`Token`]s.
//!
//! A token is one G-code *word*: an alphabetic prefix followed by a numeric suffix,
//! either an integer (`G01`) or a decimal with a point (`X-1.5`, `Y.0`, `Z2.`).
//! Prefixes are case-insensitive and are stored in upper case; spaces between words
//! are optional.
use vstd::prelude::*;
use crate::decimal::{
    Decimal, all_digits, decimal_from_digits, decimal_from_digits_exec, digits_value,
    lemma_decimal_from_digits_wf,
};
use crate::source::Source;
use crate::text::{
    ascii_upper, char_is_whitespace, is_ascii, is_ascii_alphabetic, is_ascii_control,
    is_ascii_digit, is_ascii_lower, is_ascii_upper, is_whitespace, lemma_same_case_drop_last,
    lemma_same_upper, lemma_trim_insert_space, lemma_trim_len, lemma_trim_same_case, same_up_to_case, str_chars,
    trim, trim_bounds, trim_end, trim_start,
};

verus! {

/// Numeric suffix of a [`Token`].
#[derive(Clone, Copy, Debug, PartialEq, Eq, Structural)]
pub enum Suffix {
    /// A suffix without a decimal point.
    Int(isize),
    /// A suffix with a decimal point.
    Float(Decimal),
}

impl Suffix {
    /// The suffix as a `u32`, if it is an integer suffix in range.
    pub open spec fn spec_int(self) -> Option<u32> {
        match self {
            Suffix::Int(v) => if 0 <= v && v <= u32::MAX {
                Some(v as u32)
            } else {
                None
            },
            Suffix::Float(_) => None,
        }
    }

    /// The suffix as a decimal, if it is a decimal suffix.
    pub open spec fn spec_float(self) -> Option<Decimal> {
        match self {
            Suffix::Int(_) => None,
            Suffix::Float(d) => Some(d),
        }
    }

    /// Returns the suffix as a `u32`, if it is an integer suffix within `0..=u32::MAX`.
    pub fn integer(&self) -> (r: Option<u32>)
        ensures
            r == self.spec_int(),
    {
        match self {
            Suffix::Int(v) => if 0 <= *v && *v as i128 <= u32::MAX as i128 {
                Some(*v as u32)
            } else {
                None
            },
            Suffix::Float(_) => None,
        }
    }

    /// Returns the decimal value, if it is a decimal suffix.
    pub fn float(&self) -> (r: Option<Decimal>)
        ensures
            r == self.spec_float(),
    {
        match self {
            Suffix::Int(_) => None,
            Suffix::Float(d) => Some(*d),
        }
    }
}

/// A single G-code word: `G` and `1` in `G01`, `X` and `1.2345` in `X1.2345`.
#[derive(Clone, Copy, Debug, PartialEq, Eq, Structural)]
pub struct Token {
    /// Upper-case ASCII prefix letter.
    pub prefix: u8,
    /// Numeric suffix.
    pub suffix: Suffix,
}

/// Possible errors that can happen during tokenization.
#[derive(Clone, Copy, Debug, PartialEq, Eq, Structural)]
pub enum LexerError {
    /// A non-ASCII char is detected.
    IllegalChar,
    /// An invalid ASCII G-code char is detected.
    NonUsableChar,
    /// Semicolon (`;`) is detected.
    EOBFound,
    /// No numeric suffix found.
    NoSuffix,
    /// Error while parsing numeric suffix.
    ParseSuffix,
}

/// Index of the first `c` in `s`, or `s.len()` when there is none.
pub open spec fn first_index(s: Seq<char>, c: char) -> int
    decreases s.len(),
{
    if s.len() == 0 {
        0
    } else if s[0] == c {
        0
    } else {
        1 + first_index(s.drop_first(), c)
    }
}

pub open spec fn count_char(s: Seq<char>, c: char) -> nat
    decreases s.len(),
{
    if s.len() == 0 {
        0
    } else {
        count_char(s.drop_last(), c) + if s.last() == c {
            1nat
        } else {
            0nat
        }
    }
}

/// Digits and exactly one decimal point.
pub open spec fn float_body_ok(body: Seq<char>) -> bool {
    &&& count_char(body, '.') == 1
    &&& body.len() >= 2
    &&& forall|i: int| 0 <= i < body.len() && body[i] != '.' ==> is_ascii_digit(#[trigger] body[i])
}

/// The suffix text without its leading minus sign.
pub open spec fn suffix_body(s: Seq<char>) -> Seq<char> {
    if s.len() > 0 && s[0] == '-' {
        s.drop_first()
    } else {
        s
    }
}

pub open spec fn suffix_negative(s: Seq<char>) -> bool {
    s.len() > 0 && s[0] == '-'
}

/// Value of an integer suffix text, as `isize::from_str` reads it.
pub open spec fn int_suffix(s: Seq<char>) -> Result<Suffix, LexerError> {
    let body = suffix_body(s);
    let v: int = if suffix_negative(s) {
        -digits_value(body)
    } else {
        digits_value(body) as int
    };
    if body.len() == 0 || !all_digits(body) {
        Err(LexerError::ParseSuffix)
    } else if v < isize::MIN || v > isize::MAX {
        Err(LexerError::ParseSuffix)
    } else {
        Ok(Suffix::Int(v as isize))
    }
}

/// Value of a decimal suffix text (one holding a `.`).
pub open spec fn float_suffix(s: Seq<char>) -> Result<Suffix, LexerError> {
    let body = suffix_body(s);
    let k = first_index(body, '.');
    let digits = body.take(k) + body.skip(k + 1);
    if !float_body_ok(body) {
        Err(LexerError::ParseSuffix)
    } else {
        Ok(Suffix::Float(decimal_from_digits(suffix_negative(s), digits, (body.len() - k - 1) as nat)))
    }
}

/// Suffix parsing: decimal when the text holds a `.`, integer otherwise.
pub open spec fn parse_suffix(s: Option<Seq<char>>) -> Result<Suffix, LexerError> {
    match s {
        None => Err(LexerError::NoSuffix),
        Some(s) => if s.len() == 0 {
            Err(LexerError::NoSuffix)
        } else if count_char(s, '.') > 0 {
            float_suffix(s)
        } else {
            int_suffix(s)
        },
    }
}

/// Lexer state after a prefix of a block: the pending prefix, the pending suffix text,
/// and the tokens completed so far.
pub type LexState = (Option<u8>, Option<Seq<char>>, Seq<Token>);

pub open spec fn lex_init() -> LexState {
    (None, None, Seq::empty())
}

/// One character of a block.
pub open spec fn lex_step(st: LexState, c: char) -> Result<LexState, LexerError> {
    let (prefix, suffix, tokens) = st;
    if !is_ascii(c) {
        Err(LexerError::IllegalChar)
    } else if is_ascii_control(c) {
        Err(LexerError::NonUsableChar)
    } else if c == ';' {
        Err(LexerError::EOBFound)
    } else {
        match prefix {
            None => if c == ' ' {
                Ok(st)
            } else if is_ascii_alphabetic(c) {
                Ok((Some(ascii_upper(c) as u8), suffix, tokens))
            } else {
                Err(LexerError::NonUsableChar)
            },
            Some(p) => if c == ' ' || is_ascii_alphabetic(c) {
                match parse_suffix(suffix) {
                    Err(e) => Err(e),
                    Ok(sfx) => Ok(
                        (
                            if is_ascii_alphabetic(c) {
                                Some(ascii_upper(c) as u8)
                            } else {
                                None
                            },
                            None,
                            tokens.push(Token { prefix: p, suffix: sfx }),
                        ),
                    ),
                }
            } else if is_ascii_digit(c) || c == '.' || c == '-' {
                match suffix {
                    None => Ok((prefix, Some(seq![c]), tokens)),
                    Some(s) => if c == '-' {
                        Err(LexerError::NonUsableChar)
                    } else {
                        Ok((prefix, Some(s.push(c)), tokens))
                    },
                }
            } else {
                Err(LexerError::NonUsableChar)
            },
        }
    }
}

/// The lexer state after reading all of `s`, or the first error.
pub open spec fn lex(s: Seq<char>) -> Result<LexState, LexerError>
    decreases s.len(),
{
    if s.len() == 0 {
        Ok(lex_init())
    } else {
        match lex(s.drop_last()) {
            Err(e) => Err(e),
            Ok(st) => lex_step(st, s.last()),
        }
    }
}

/// Completes the last word of a block.
pub open spec fn lex_finish(st: LexState) -> Result<Seq<Token>, LexerError> {
    let (prefix, suffix, tokens) = st;
    match prefix {
        None => Ok(tokens),
        Some(p) => match parse_suffix(suffix) {
            Err(e) => Err(e),
            Ok(sfx) => Ok(tokens.push(Token { prefix: p, suffix: sfx })),
        },
    }
}

/// The tokens of a G-code block, or the first error found in it.
pub open spec fn spec_tokenize(block: Seq<char>) -> Result<Seq<Token>, LexerError> {
    match lex(trim(block)) {
        Err(e) => Err(e),
        Ok(st) => lex_finish(st),
    }
}

proof fn lemma_lex_err_persists(t: Seq<char>, k: int)
    requires
        0 <= k <= t.len(),
        lex(t.take(k)) is Err,
    ensures
        lex(t) == lex(t.take(k)),
    decreases t.len() - k,
{
    if k < t.len() {
        assert(t.take(k + 1).drop_last() =~= t.take(k));
        lemma_lex_err_persists(t, k + 1);
    } else {
        assert(t.take(k) =~= t);
    }
}

proof fn lemma_count_char_push(s: Seq<char>, c: char, d: char)
    ensures
        count_char(s.push(d), c) == count_char(s, c) + if d == c {
            1nat
        } else {
            0nat
        },
{
    assert(s.push(d).drop_last() =~= s);
}

proof fn lemma_first_index(s: Seq<char>, c: char, k: int)
    requires
        0 <= k <= s.len(),
        forall|i: int| 0 <= i < k ==> s[i] != c,
        k == s.len() || s[k] == c,
    ensures
        first_index(s, c) == k,
    decreases k,
{
    if k > 0 {
        let t = s.drop_first();
        assert forall|i: int| 0 <= i < k - 1 implies t[i] != c by {
            assert(t[i] == s[i + 1]);
        }
        if k < s.len() {
            assert(t[k - 1] == s[k]);
        }
        lemma_first_index(t, c, k - 1);
    }
}

/// `isize::from_str` on a suffix text made of digits and at most a leading `-`.
fn parse_int_suffix(s: &Vec<char>) -> (r: Result<Suffix, LexerError>)
    requires
        s.len() > 0,
        count_char(s@, '.') == 0,
    ensures
        r == int_suffix(s@),
{
    let neg = s[0] == '-';
    let start: usize = if neg {
        1
    } else {
        0
    };
    let ghost body = suffix_body(s@);
    assert(body =~= s@.skip(start as int));
    if start == s.len() {
        return Err(LexerError::ParseSuffix);
    }
    // magnitude, exact while `!big`
    let mut acc: u128 = 0;
    let mut big = false;
    let mut i = start;
    let limit: u128 = (isize::MAX as u128) + 1;
    assert(s@.subrange(start as int, start as int) =~= Seq::<char>::empty());
    while i < s.len()
        invariant
            start <= i <= s.len(),
            start == 0 || start == 1,
            body == s@.skip(start as int),
            body == suffix_body(s@),
            limit == isize::MAX + 1,
            all_digits(s@.subrange(start as int, i as int)),
            !big ==> acc == digits_value(s@.subrange(start as int, i as int)),
            !big ==> acc <= limit,
            big ==> digits_value(s@.subrange(start as int, i as int)) > limit,
        decreases s.len() - i,
    {
        let c = s[i];
        let ghost pre = s@.subrange(start as int, i as int);
        assert(s@.subrange(start as int, i + 1) =~= pre.push(c));
        if !('0' <= c && c <= '9') {
            proof {
                assert(body[i - start] == c);
                assert(!is_ascii_digit(body[i - start]));
                assert(!all_digits(body));
            }
            return Err(LexerError::ParseSuffix);
        }
        proof {
            crate::decimal::lemma_digits_value_push(pre, c);
            assert(all_digits(pre.push(c))) by {
                assert forall|k: int| 0 <= k < pre.len() + 1 implies is_ascii_digit(
                    #[trigger] pre.push(c)[k],
                ) by {
                    if k < pre.len() {
                        assert(pre.push(c)[k] == pre[k]);
                    }
                }
            }
        }
        let d = ((c as u32) - ('0' as u32)) as u128;
        if !big {
            let next = acc * 10 + d;
            if next > limit {
                big = true;
            } else {
                acc = next;
            }
        }
        i = i + 1;
    }
    assert(s@.subrange(start as int, s.len() as int) =~= body);
    if big {
        return Err(LexerError::ParseSuffix);
    }
    if neg {
        let v = -(acc as i128);
        if v < isize::MIN as i128 {
            Err(LexerError::ParseSuffix)
        } else {
            Ok(Suffix::Int(v as isize))
        }
    } else {
        if acc > isize::MAX as u128 {
            Err(LexerError::ParseSuffix)
        } else {
            Ok(Suffix::Int(acc as isize))
        }
    }
}

/// `f64::from_str` on a suffix text made of digits, `.` and at most a leading `-`,
/// kept as an exact decimal.
fn parse_float_suffix(s: &Vec<char>) -> (r: Result<Suffix, LexerError>)
    requires
        s.len() > 0,
        count_char(s@, '.') > 0,
        forall|i: int| 1 <= i < s.len() ==> s@[i] != '-',
    ensures
        r == float_suffix(s@),
{
    let neg = s[0] == '-';
    let start: usize = if neg {
        1
    } else {
        0
    };
    let ghost body = suffix_body(s@);
    assert(body =~= s@.skip(start as int));
    let mut digits: Vec<char> = Vec::new();
    let mut dots: usize = 0;
    let mut dot_at: usize = 0;
    let mut i = start;
    assert(s@.subrange(start as int, start as int) =~= Seq::<char>::empty());
    while i < s.len()
        invariant
            start <= i <= s.len(),
            start == 0 || start == 1,
            start == 1 <==> s@[0] == '-',
            forall|k: int| 1 <= k < s.len() ==> s@[k] != '-',
            body == s@.skip(start as int),
            body == suffix_body(s@),
            dots == count_char(s@.subrange(start as int, i as int), '.'),
            dots <= 1,
            dots == 0 ==> digits@ == s@.subrange(start as int, i as int),
            dots == 0 ==> dot_at == 0,
            dots == 1 ==> start <= dot_at < i,
            dots == 1 ==> s@[dot_at as int] == '.',
            dots == 1 ==> digits@ == s@.subrange(start as int, dot_at as int) + s@.subrange(
                dot_at + 1,
                i as int,
            ),
            forall|k: int|
                start <= k < i && (dots == 0 || k != dot_at) ==> is_ascii_digit(#[trigger] s@[k]),
            forall|k: int| start <= k < i && dots == 0 ==> s@[k] != '.',
            forall|k: int| start <= k < dot_at && dots == 1 ==> s@[k] != '.',
            digits.len() <= i,
        decreases s.len() - i,
    {
        let c = s[i];
        let ghost pre = s@.subrange(start as int, i as int);
        proof {
            assert(s@.subrange(start as int, i + 1) =~= pre.push(c));
            lemma_count_char_push(pre, '.', c);
        }
        if c == '.' {
            if dots == 1 {
                proof {
                    let b = body;
                    assert(b.take(i + 1 - start) =~= s@.subrange(start as int, i + 1));
                    lemma_count_prefix_le(b, (i + 1 - start) as int, '.');
                    assert(!float_body_ok(body));
                }
                return Err(LexerError::ParseSuffix);
            }
            dots = 1;
            dot_at = i;
            proof {
                assert(digits@ == s@.subrange(start as int, dot_at as int) + s@.subrange(
                    dot_at + 1,
                    i + 1,
                ));
            }
        } else if '0' <= c && c <= '9' {
            proof {
                if dots == 1 {
                    assert(s@.subrange(dot_at + 1, i + 1) =~= s@.subrange(dot_at + 1, i as int).push(
                        c,
                    ));
                }
            }
            digits.push(c);
        } else {
            proof {
                if i >= 1 {
                    assert(s@[i as int] != '-');
                }
                assert(c != '-');
                assert(body[i - start] == c);
                assert(!is_ascii_digit(body[i - start]) && body[i - start] != '.');
                assert(!float_body_ok(body));
            }
            return Err(LexerError::ParseSuffix);
        }
        i = i + 1;
    }
    assert(s@.subrange(start as int, s.len() as int) =~= body);
    if dots == 0 || body_len(s.len(), start) < 2 {
        proof {
            if dots == 0 {
                lemma_count_body(s@);
            }
        }
        return Err(LexerError::ParseSuffix);
    }
    let k = dot_at - start;
    let frac_len = s.len() - dot_at - 1;
    proof {
        assert forall|j: int| 0 <= j < k implies body[j] != '.' by {
            assert(body[j] == s@[j + start]);
        }
        assert(body[k as int] == '.');
        lemma_first_index(body, '.', k as int);
        assert(body.take(k as int) =~= s@.subrange(start as int, dot_at as int));
        assert(body.skip(k + 1) =~= s@.subrange(dot_at + 1, s.len() as int));
        assert(float_body_ok(body)) by {
            assert forall|j: int| 0 <= j < body.len() && body[j] != '.' implies is_ascii_digit(
                #[trigger] body[j],
            ) by {
                assert(body[j] == s@[j + start]);
            }
        }
        assert(all_digits(digits@)) by {
            assert forall|j: int| 0 <= j < digits@.len() implies is_ascii_digit(
                #[trigger] digits@[j],
            ) by {
                if j < k {
                    assert(digits@[j] == s@[j + start]);
                } else {
                    assert(digits@[j] == s@[j - k + dot_at + 1]);
                }
            }
        }
    }
    Ok(Suffix::Float(decimal_from_digits_exec(neg, &digits, frac_len)))
}

fn body_len(len: usize, start: usize) -> (r: usize)
    requires
        start <= len,
    ensures
        r == len - start,
{
    len - start
}

proof fn lemma_count_prefix_le(b: Seq<char>, n: int, c: char)
    requires
        0 <= n <= b.len(),
    ensures
        count_char(b.take(n), c) <= count_char(b, c),
    decreases b.len() - n,
{
    if n < b.len() {
        lemma_count_prefix_le(b, n + 1, c);
        assert(b.take(n + 1).drop_last() =~= b.take(n));
    } else {
        assert(b.take(n) =~= b);
    }
}

proof fn lemma_count_body(s: Seq<char>)
    requires
        s.len() > 0,
    ensures
        count_char(s, '.') == count_char(suffix_body(s), '.'),
{
    if s[0] == '-' {
        lemma_count_drop_first(s, '.');
    }
}

proof fn lemma_count_drop_first(s: Seq<char>, c: char)
    requires
        s.len() > 0,
    ensures
        count_char(s, c) == count_char(s.drop_first(), c) + if s[0] == c {
            1nat
        } else {
            0nat
        },
    decreases s.len(),
{
    if s.len() > 1 {
        lemma_count_drop_first(s.drop_last(), c);
        assert(s.drop_last().drop_first() =~= s.drop_first().drop_last());
        assert(s.drop_first().last() == s.last());
    } else {
        assert(s.drop_first() =~= Seq::<char>::empty());
        assert(s.drop_last() =~= Seq::<char>::empty());
    }
}

/// Parses a completed suffix text.
fn parse_suffix_exec(present: bool, s: &Vec<char>) -> (r: Result<Suffix, LexerError>)
    requires
        present ==> forall|i: int| 1 <= i < s.len() ==> s@[i] != '-',
    ensures
        r == parse_suffix(if present {
            Some(s@)
        } else {
            None
        }),
{
    if !present || s.len() == 0 {
        return Err(LexerError::NoSuffix);
    }
    let mut i: usize = 0;
    let mut found = false;
    assert(s@.take(0) =~= Seq::<char>::empty());
    while i < s.len()
        invariant
            i <= s.len(),
            found == (count_char(s@.take(i as int), '.') > 0),
        decreases s.len() - i,
    {
        proof {
            assert(s@.take(i + 1) =~= s@.take(i as int).push(s@[i as int]));
            lemma_count_char_push(s@.take(i as int), '.', s@[i as int]);
        }
        if s[i] == '.' {
            found = true;
        }
        i = i + 1;
    }
    assert(s@.take(s.len() as int) =~= s@);
    if found {
        parse_float_suffix(s)
    } else {
        parse_int_suffix(s)
    }
}

fn ascii_alpha(c: char) -> (r: bool)
    ensures
        r == is_ascii_alphabetic(c),
{
    ('a' <= c && c <= 'z') || ('A' <= c && c <= 'Z')
}

fn upper_byte(c: char) -> (r: u8)
    requires
        is_ascii_alphabetic(c),
    ensures
        r == ascii_upper(c) as u8,
        'A' as u8 <= r <= 'Z' as u8,
{
    if 'a' <= c && c <= 'z' {
        ((c as u32) - 32) as u8
    } else {
        (c as u32) as u8
    }
}

/// Tokenizes a single G-code block.
///
/// Returns the [`Token`]s of the block, which may be *empty*, or the first error:
/// - [`LexerError::IllegalChar`] -- The block contains a non-ASCII character.
/// - [`LexerError::NonUsableChar`] -- The block contains an ASCII character that is not
///   usable in G-code.
/// - [`LexerError::EOBFound`] -- The block contains a semicolon.
/// - [`LexerError::NoSuffix`] -- The block contains a word that has no numeric suffix.
/// - [`LexerError::ParseSuffix`] -- A numeric suffix is not a number.
pub fn tokenize(block: &str) -> (r: Result<Vec<Token>, LexerError>)
    ensures
        match r {
            Ok(v) => spec_tokenize(block@) == Ok::<Seq<Token>, LexerError>(v@),
            Err(e) => spec_tokenize(block@) == Err::<Seq<Token>, LexerError>(e),
        },
{
    let chars = str_chars(block);
    let (a, b) = trim_bounds(&chars, 0, chars.len());
    let ghost t = trim(block@);
    assert(chars@.subrange(0, chars@.len() as int) =~= chars@);
    let mut prefix: Option<u8> = None;
    let mut suffix: Vec<char> = Vec::new();
    let mut has_suffix = false;
    let mut tokens: Vec<Token> = Vec::new();
    let mut i = a;
    assert(t.take(0) =~= Seq::<char>::empty());
    while i < b
        invariant
            a <= i <= b <= chars.len(),
            t == chars@.subrange(a as int, b as int),
            t == trim(block@),
            lex(t.take(i - a)) == Ok::<LexState, LexerError>(
                (
                    prefix,
                    if has_suffix {
                        Some(suffix@)
                    } else {
                        None
                    },
                    tokens@,
                ),
            ),
            has_suffix ==> forall|k: int| 1 <= k < suffix.len() ==> suffix@[k] != '-',
            has_suffix ==> prefix is Some,
            !has_suffix ==> suffix@.len() == 0,
        decreases b - i,
    {
        let c = chars[i];
        let ghost st = (
            prefix,
            if has_suffix {
                Some(suffix@)
            } else {
                None
            },
            tokens@,
        );
        proof {
            assert(t.take(i - a + 1).drop_last() =~= t.take(i - a));
            assert(t.take(i - a + 1).last() == c);
        }
        let code = c as u32;
        if code >= 128 {
            proof {
                assert(!is_ascii(c));
                assert(lex_step(st, c) == Err::<LexState, LexerError>(LexerError::IllegalChar));
                assert(lex(t.take(i - a + 1)) == Err::<LexState, LexerError>(LexerError::IllegalChar));
                lemma_lex_err_persists(t, i - a + 1);
            }
            return Err(LexerError::IllegalChar);
        } else if code < 32 || code == 127 {
            proof {
                lemma_lex_err_persists(t, i - a + 1);
            }
            return Err(LexerError::NonUsableChar);
        } else if c == ';' {
            proof {
                assert(is_ascii(c) && !is_ascii_control(c));
                assert(lex_step(st, c) == Err::<LexState, LexerError>(LexerError::EOBFound));
                lemma_lex_err_persists(t, i - a + 1);
            }
            return Err(LexerError::EOBFound);
        }
        match prefix {
            None => {
                if c == ' ' {
                } else if ascii_alpha(c) {
                    prefix = Some(upper_byte(c));
                } else {
                    proof {
                        lemma_lex_err_persists(t, i - a + 1);
                    }
                    return Err(LexerError::NonUsableChar);
                }
            },
            Some(p) => {
                if c == ' ' || ascii_alpha(c) {
                    match parse_suffix_exec(has_suffix, &suffix) {
                        Err(e) => {
                            proof {
                                lemma_lex_err_persists(t, i - a + 1);
                            }
                            return Err(e);
                        },
                        Ok(sfx) => {
                            tokens.push(Token { prefix: p, suffix: sfx });
                            if ascii_alpha(c) {
                                prefix = Some(upper_byte(c));
                            } else {
                                prefix = None;
                            }
                            suffix = Vec::new();
                            has_suffix = false;
                        },
                    }
                } else if ('0' <= c && c <= '9') || c == '.' || c == '-' {
                    if !has_suffix {
                        suffix = Vec::new();
                        suffix.push(c);
                        has_suffix = true;
                        proof {
                            assert(suffix@ =~= seq![c]);
                        }
                    } else if c == '-' {
                        proof {
                            lemma_lex_err_persists(t, i - a + 1);
                        }
                        return Err(LexerError::NonUsableChar);
                    } else {
                        suffix.push(c);
                    }
                } else {
                    proof {
                        lemma_lex_err_persists(t, i - a + 1);
                    }
                    return Err(LexerError::NonUsableChar);
                }
            },
        }
        i = i + 1;
    }
    assert(t.take(b - a) =~= t);
    match prefix {
        None => Ok(tokens),
        Some(p) => match parse_suffix_exec(has_suffix, &suffix) {
            Err(e) => Err(e),
            Ok(sfx) => {
                tokens.push(Token { prefix: p, suffix: sfx });
                Ok(tokens)
            },
        },
    }
}

/// A tokenized G-code block, handing out its [`Token`]s in order.
#[derive(Debug)]
pub struct Block {
    tokens: Vec<Token>,
    next: usize,
}

impl Block {
    #[verifier::type_invariant]
    spec fn inv(&self) -> bool {
        self.next <= self.tokens.len()
    }

    /// The tokens that [`Block::next`] has not handed out yet.
    pub closed spec fn remaining(&self) -> Seq<Token> {
        self.tokens@.skip(self.next as int)
    }

    /// A block that hands out `tokens`, first to last.
    pub fn new(tokens: Vec<Token>) -> (r: Block)
        ensures
            r.remaining() == tokens@,
    {
        let r = Block { tokens, next: 0 };
        assert(r.tokens@.skip(0) =~= r.tokens@);
        r
    }

    /// **Optionally** returns the next [`Token`] of the block.
    #[allow(clippy::should_implement_trait)]
    pub fn next(&mut self) -> (r: Option<Token>)
        ensures
            old(self).remaining().len() == 0 ==> r is None && final(self).remaining() == old(
                self,
            ).remaining(),
            old(self).remaining().len() > 0 ==> r == Some(old(self).remaining()[0])
                && final(self).remaining() == old(self).remaining().drop_first(),
    {
        proof {
            use_type_invariant(&*self);
        }
        if self.next < self.tokens.len() {
            let t = self.tokens[self.next];
            assert(t == old(self).remaining()[0]);
            self.next = self.next + 1;
            assert(self.tokens@.skip(self.next as int) =~= old(self).remaining().drop_first());
            Some(t)
        } else {
            None
        }
    }
}

/// Tokenizes the lines of a [`Source`], one [`Block`] per line, on demand.
#[derive(Clone, Debug)]
pub struct Lexer(Source);

impl Lexer {
    /// The source being tokenized.
    pub closed spec fn source(&self) -> Source {
        self.0
    }

    /// Constructs a [`Lexer`] over `source`. No line is tokenized until [`Lexer::next`].
    pub fn new(source: Source) -> (r: Lexer)
        ensures
            r.source() == source,
    {
        Lexer(source)
    }

    /// Restarts tokenization from the first line of the source.
    pub fn reload(&mut self)
        ensures
            final(self).source().lines() == old(self).source().lines(),
            final(self).source().spec_index() == 0,
    {
        self.0.reload();
    }

    /// **Optionally** returns the line at `index` of the source.
    pub fn get_line(&self, index: usize) -> (r: Option<&str>)
        ensures
            r is Some <==> index < self.source().lines().len(),
            r matches Some(s) ==> s@ == self.source().lines()[index as int],
    {
        self.0.get(index)
    }

    /// Tokenizes the next line of the source.
    ///
    /// Returns [`None`] when every line has been read, otherwise the [`Block`] of the
    /// line or the [`LexerError`] found in it.
    #[allow(clippy::should_implement_trait)]
    pub fn next(&mut self) -> (r: Option<Result<Block, LexerError>>)
        ensures
            final(self).source().lines() == old(self).source().lines(),
            ({
                let src = old(self).source();
                let i = src.spec_index();
                if i < src.lines().len() {
                    &&& final(self).source().spec_index() == i + 1
                    &&& r is Some
                    &&& match r->0 {
                        Ok(b) => spec_tokenize(src.lines()[i as int]) == Ok::<
                            Seq<Token>,
                            LexerError,
                        >(b.remaining()),
                        Err(e) => spec_tokenize(src.lines()[i as int]) == Err::<
                            Seq<Token>,
                            LexerError,
                        >(e),
                    }
                } else {
                    &&& final(self).source().spec_index() == i
                    &&& r is None
                }
            }),
    {
        match self.0.next() {
            None => None,
            Some(line) => match tokenize(line) {
                Ok(tokens) => Some(Ok(Block::new(tokens))),
                Err(e) => Some(Err(e)),
            },
        }
    }
}

/// A lexer step reads an ASCII letter the same in either case.
proof fn lemma_lex_step_same_case(st: LexState, a: char, b: char)
    requires
        ascii_upper(a) == ascii_upper(b),
    ensures
        lex_step(st, a) == lex_step(st, b),
{
    lemma_same_upper(a, b);
}

proof fn lemma_lex_same_case(a: Seq<char>, b: Seq<char>)
    requires
        same_up_to_case(a, b),
    ensures
        lex(a) == lex(b),
    decreases a.len(),
{
    if a.len() > 0 {
        lemma_same_case_drop_last(a, b);
        lemma_lex_same_case(a.drop_last(), b.drop_last());
        match lex(a.drop_last()) {
            Err(_) => {},
            Ok(st) => lemma_lex_step_same_case(st, a.last(), b.last()),
        }
    }
}

/// Tokenizing ignores the case of ASCII letters: two blocks that differ only in the case
/// of their letters give the same tokens, or the same error.
pub proof fn lemma_tokenize_ignores_case(a: Seq<char>, b: Seq<char>)
    requires
        same_up_to_case(a, b),
    ensures
        spec_tokenize(a) == spec_tokenize(b),
{
    lemma_trim_same_case(a, b);
    lemma_lex_same_case(trim(a), trim(b));
}

/// Reading a space and then a letter is reading the letter.
proof fn lemma_space_then_letter(st: LexState, c: char)
    requires
        is_ascii_alphabetic(c),
    ensures
        (match lex_step(st, ' ') {
            Err(e) => Err(e),
            Ok(s2) => lex_step(s2, c),
        }) == lex_step(st, c),
{
}

proof fn lemma_lex_insert_space(s: Seq<char>, j: int)
    requires
        0 <= j < s.len(),
        is_ascii_alphabetic(s[j]),
    ensures
        lex(s.insert(j, ' ')) == lex(s),
    decreases s.len(),
{
    let t = s.insert(j, ' ');
    assert(t.last() == s.last());
    if j == s.len() - 1 {
        let x = s.drop_last();
        assert(t.drop_last() =~= x.push(' '));
        assert(x.push(' ').drop_last() =~= x);
        assert(s.drop_last() == x);
        assert(lex(x.push(' ')) == match lex(x) {
            Err(e) => Err(e),
            Ok(st) => lex_step(st, ' '),
        });
        match lex(x) {
            Err(_) => {},
            Ok(st) => lemma_space_then_letter(st, s.last()),
        }
    } else {
        assert(t.drop_last() =~= s.drop_last().insert(j, ' '));
        lemma_lex_insert_space(s.drop_last(), j);
    }
}

/// Spaces between words are optional: a space inserted before a letter leaves the tokens,
/// or the error, unchanged.
pub proof fn lemma_tokenize_space_before_letter(a: Seq<char>, i: int)
    requires
        0 <= i < a.len(),
        is_ascii_alphabetic(a[i]),
    ensures
        spec_tokenize(a.insert(i, ' ')) == spec_tokenize(a),
{
    let (inner, j) = lemma_trim_insert_space(a, i);
    if inner {
        lemma_lex_insert_space(trim(a), j);
    }
}

/// A token as the lexer makes it: an upper-case ASCII prefix, and a canonical decimal when
/// the suffix has a point.
pub open spec fn token_wf(t: Token) -> bool {
    &&& 'A' as u8 <= t.prefix <= 'Z' as u8
    &&& (t.suffix matches Suffix::Float(d) ==> d.wf())
}

proof fn lemma_first_index_props(s: Seq<char>, c: char)
    ensures
        0 <= first_index(s, c) <= s.len(),
        forall|j: int| 0 <= j < first_index(s, c) ==> s[j] != c,
        first_index(s, c) < s.len() ==> s[first_index(s, c)] == c,
    decreases s.len(),
{
    if s.len() > 0 && s[0] != c {
        let t = s.drop_first();
        lemma_first_index_props(t, c);
        assert forall|j: int| 0 <= j < first_index(s, c) implies s[j] != c by {
            if j > 0 {
                assert(s[j] == t[j - 1]);
            }
        }
    }
}

proof fn lemma_count_pos(s: Seq<char>, c: char, i: int)
    requires
        0 <= i < s.len(),
        s[i] == c,
    ensures
        count_char(s, c) >= 1,
    decreases s.len(),
{
    if i < s.len() - 1 {
        lemma_count_pos(s.drop_last(), c, i);
    }
}

proof fn lemma_count_two(s: Seq<char>, c: char, i: int, j: int)
    requires
        0 <= i < j < s.len(),
        s[i] == c,
        s[j] == c,
    ensures
        count_char(s, c) >= 2,
    decreases s.len(),
{
    if j == s.len() - 1 {
        lemma_count_pos(s.drop_last(), c, i);
    } else {
        lemma_count_two(s.drop_last(), c, i, j);
    }
}

/// A decimal suffix is read into a canonical decimal.
proof fn lemma_float_suffix_wf(s: Seq<char>)
    requires
        s.len() <= usize::MAX,
        float_suffix(s) is Ok,
    ensures
        float_suffix(s)->Ok_0 matches Suffix::Float(d) && d.wf(),
{
    let body = suffix_body(s);
    let k = first_index(body, '.');
    let digits = body.take(k) + body.skip(k + 1);
    lemma_first_index_props(body, '.');
    assert(float_body_ok(body));
    if k == body.len() {
        assert forall|j: int| 0 <= j < body.len() implies body[j] != '.' by {}
        if count_char(body, '.') >= 1 {
            lemma_count_char_none(body, '.');
        }
    }
    assert(k < body.len());
    assert(all_digits(digits)) by {
        assert forall|j: int| 0 <= j < digits.len() implies is_ascii_digit(#[trigger] digits[j]) by {
            if j < k {
                assert(digits[j] == body[j]);
            } else {
                assert(digits[j] == body[j + 1]);
                if body[j + 1] == '.' {
                    lemma_count_two(body, '.', k, j + 1);
                }
            }
        }
    }
    lemma_decimal_from_digits_wf(suffix_negative(s), digits, (body.len() - k - 1) as nat);
}

proof fn lemma_count_char_none(s: Seq<char>, c: char)
    requires
        forall|j: int| 0 <= j < s.len() ==> s[j] != c,
    ensures
        count_char(s, c) == 0,
    decreases s.len(),
{
    if s.len() > 0 {
        lemma_count_char_none(s.drop_last(), c);
    }
}

/// A completed suffix is read into an integer or a canonical decimal.
proof fn lemma_parse_suffix_wf(s: Option<Seq<char>>)
    requires
        s matches Some(x) ==> x.len() <= usize::MAX,
        parse_suffix(s) is Ok,
    ensures
        parse_suffix(s)->Ok_0 matches Suffix::Float(d) ==> d.wf(),
{
    if let Some(x) = s {
        if count_char(x, '.') > 0 {
            lemma_float_suffix_wf(x);
        }
    }
}

proof fn lemma_lex_wf(s: Seq<char>)
    requires
        s.len() <= usize::MAX,
        lex(s) is Ok,
    ensures
        ({
            let (prefix, suffix, tokens) = lex(s)->Ok_0;
            &&& prefix matches Some(p) ==> 'A' as u8 <= p <= 'Z' as u8
            &&& suffix matches Some(x) ==> x.len() <= s.len()
            &&& forall|i: int| 0 <= i < tokens.len() ==> token_wf(#[trigger] tokens[i])
        }),
    decreases s.len(),
{
    if s.len() > 0 {
        let u = s.drop_last();
        assert(lex(u) is Ok);
        lemma_lex_wf(u);
        let st = lex(u)->Ok_0;
        let (prefix, suffix, tokens) = st;
        let c = s.last();
        if prefix is Some && (c == ' ' || is_ascii_alphabetic(c)) {
            lemma_parse_suffix_wf(suffix);
            let t = Token { prefix: prefix->0, suffix: parse_suffix(suffix)->Ok_0 };
            assert forall|i: int| 0 <= i < tokens.push(t).len() implies token_wf(
                #[trigger] tokens.push(t)[i],
            ) by {
                if i < tokens.len() {
                    assert(tokens.push(t)[i] == tokens[i]);
                }
            }
        }
    }
}

/// Every token of a block has an upper-case ASCII prefix, and every decimal suffix is
/// canonical.
pub proof fn lemma_tokens_wf(block: Seq<char>)
    requires
        block.len() <= usize::MAX,
        spec_tokenize(block) is Ok,
    ensures
        forall|i: int|
            0 <= i < spec_tokenize(block)->Ok_0.len() ==> token_wf(
                #[trigger] spec_tokenize(block)->Ok_0[i],
            ),
{
    let t = trim(block);
    lemma_trim_len(block);
    assert(lex(t) is Ok);
    lemma_lex_wf(t);
    let (prefix, suffix, tokens) = lex(t)->Ok_0;
    if let Some(p) = prefix {
        lemma_parse_suffix_wf(suffix);
        let tk = Token { prefix: p, suffix: parse_suffix(suffix)->Ok_0 };
        assert forall|i: int| 0 <= i < tokens.push(tk).len() implies token_wf(
            #[trigger] tokens.push(tk)[i],
        ) by {
            if i < tokens.len() {
                assert(tokens.push(tk)[i] == tokens[i]);
            }
        }
    }
}

} // verus!
