use gsim_rs::decimal::Decimal;
use gsim_rs::lexer::{tokenize, Block, Lexer, LexerError, Suffix, Token};
use gsim_rs::source::Source;

fn zero() -> Decimal {
    Decimal::zero()
}

fn expected_g01_xyz() -> Vec<Token> {
    vec![
        Token { prefix: b'G', suffix: Suffix::Int(1) },
        Token { prefix: b'X', suffix: Suffix::Float(zero()) },
        Token { prefix: b'Y', suffix: Suffix::Float(zero()) },
        Token { prefix: b'Z', suffix: Suffix::Float(Decimal::new(true, 1, 0)) },
    ]
}

#[test]
fn tokenize_upper() {
    let whitespace = String::from("G01 X0.0 Y.0 Z-1.");
    let tokens = tokenize(&whitespace);
    let expected = expected_g01_xyz();
    assert_eq!(tokens.unwrap(), expected);

    let no_whitespace = String::from("G01X0.0Y.0Z-1.");
    let tokens = tokenize(&no_whitespace);
    assert_eq!(tokens.unwrap(), expected);
}

#[test]
fn tokenize_lower() {
    let whitespace = String::from("g01 x0.0 y.0 z-1.");
    let tokens = tokenize(&whitespace);
    let expected = expected_g01_xyz();
    assert_eq!(tokens.unwrap(), expected);

    let no_whitespace = String::from("g01x0.0y.0z-1.");
    let tokens = tokenize(&no_whitespace);
    assert_eq!(tokens.unwrap(), expected);
}

#[test]
fn tokenize_semicolon() {
    assert_eq!(tokenize("G01;").unwrap_err(), LexerError::EOBFound);
}

#[test]
fn tokenize_non_usable() {
    assert_eq!(tokenize("G53 {").unwrap_err(), LexerError::NonUsableChar);
    assert_eq!(tokenize("G53 X1-1.").unwrap_err(), LexerError::NonUsableChar);
}

#[test]
fn tokenize_non_ascii() {
    assert_eq!(tokenize("G53 नमस्ते").unwrap_err(), LexerError::IllegalChar);
}

#[test]
fn tokenize_no_suffix() {
    assert_eq!(tokenize("G53 X0.Y Z-1.").unwrap_err(), LexerError::NoSuffix);
}

#[test]
fn tokenize_invalid_suffix() {
    assert_eq!(tokenize("G53 X.").unwrap_err(), LexerError::ParseSuffix);
}

#[test]
fn tokenize_doc_examples() {
    let expected = vec![
        Token { prefix: b'G', suffix: Suffix::Int(0) },
        Token { prefix: b'X', suffix: Suffix::Float(zero()) },
        Token { prefix: b'Y', suffix: Suffix::Float(zero()) },
        Token { prefix: b'Z', suffix: Suffix::Float(Decimal::new(true, 5, 0)) },
    ];
    assert_eq!(tokenize("G00 X.0 Y.0 Z-5.").unwrap(), expected);
    assert_eq!(tokenize("g00x.0y.0z-5.").unwrap(), expected);
}

#[test]
fn tokenize_empty_and_spaces() {
    assert_eq!(tokenize("").unwrap(), vec![]);
    assert_eq!(tokenize("   \t ").unwrap(), vec![]);
    // inner tab is a control character
    assert_eq!(tokenize("G1\tX1.").unwrap_err(), LexerError::NonUsableChar);
    // a digit without a prefix
    assert_eq!(tokenize("1 G1").unwrap_err(), LexerError::NonUsableChar);
    // trailing prefix without suffix
    assert_eq!(tokenize("G1 X").unwrap_err(), LexerError::NoSuffix);
    // '+' is not usable
    assert_eq!(tokenize("X+1.").unwrap_err(), LexerError::NonUsableChar);
}

#[test]
fn tokenize_decimal_values() {
    let toks = tokenize("X12.500 Y-0.0250 Z1200. F.5").unwrap();
    assert_eq!(toks[0].suffix, Suffix::Float(Decimal::new(false, 125, -1)));
    assert_eq!(toks[0].suffix, Suffix::Float(Decimal { negative: false, mantissa: 125, exponent: -1 }));
    assert_eq!(toks[1].suffix, Suffix::Float(Decimal { negative: true, mantissa: 25, exponent: -3 }));
    assert_eq!(toks[2].suffix, Suffix::Float(Decimal { negative: false, mantissa: 12, exponent: 2 }));
    assert_eq!(toks[3].suffix, Suffix::Float(Decimal { negative: false, mantissa: 5, exponent: -1 }));
    // negative zero is zero
    let toks = tokenize("X-0.0").unwrap();
    assert_eq!(toks[0].suffix, Suffix::Float(zero()));
    // two decimal points
    assert_eq!(tokenize("X1.2.3").unwrap_err(), LexerError::ParseSuffix);
    // a lone minus sign
    assert_eq!(tokenize("G-").unwrap_err(), LexerError::ParseSuffix);
    assert_eq!(tokenize("X-.").unwrap_err(), LexerError::ParseSuffix);
}

#[test]
fn tokenize_integer_values() {
    let toks = tokenize("G-1 N007 S12000").unwrap();
    assert_eq!(toks[0].suffix, Suffix::Int(-1));
    assert_eq!(toks[1].suffix, Suffix::Int(7));
    assert_eq!(toks[2].suffix, Suffix::Int(12000));
    assert_eq!(toks[0].suffix.integer(), None);
    assert_eq!(toks[2].suffix.integer(), Some(12000));
    assert_eq!(toks[2].suffix.float(), None);
    // beyond isize
    assert_eq!(tokenize("N99999999999999999999").unwrap_err(), LexerError::ParseSuffix);
    let max = format!("N{}", isize::MAX);
    assert_eq!(tokenize(&max).unwrap()[0].suffix, Suffix::Int(isize::MAX));
    let min = format!("N{}", isize::MIN);
    assert_eq!(tokenize(&min).unwrap()[0].suffix, Suffix::Int(isize::MIN));
}

#[test]
fn tokenize_rounds_long_numerals() {
    let float = |text: &str| match tokenize(text).unwrap()[0].suffix {
        Suffix::Float(d) => d,
        other => panic!("not a decimal: {:?}", other),
    };
    // 38 significant digits are kept as they are
    assert_eq!(
        float("X12345678901234567890123456789012345678."),
        Decimal { negative: false, mantissa: 12345678901234567890123456789012345678, exponent: 0 }
    );
    // a 39th rounds the 38 before it to the nearest
    assert_eq!(
        float("X123456789012345678901234567890123456789."),
        Decimal { negative: false, mantissa: 12345678901234567890123456789012345679, exponent: 1 }
    );
    assert_eq!(
        float("X-1.23456789012345678901234567890123456784"),
        Decimal { negative: true, mantissa: 12345678901234567890123456789012345678, exponent: -37 }
    );
    // a tie goes to the even neighbour
    assert_eq!(
        float("X12345678901234567890123456789012345678.5"),
        Decimal { negative: false, mantissa: 12345678901234567890123456789012345678, exponent: 0 }
    );
    assert_eq!(
        float("X12345678901234567890123456789012345677.5"),
        Decimal { negative: false, mantissa: 12345678901234567890123456789012345678, exponent: 0 }
    );
    // anything after the five breaks the tie upwards
    assert_eq!(
        float("X12345678901234567890123456789012345678.50001"),
        Decimal { negative: false, mantissa: 12345678901234567890123456789012345679, exponent: 0 }
    );
    // a carry through nines leaves a shorter canonical mantissa
    assert_eq!(
        float("X99999999999999999999999999999999999999.9"),
        Decimal { negative: false, mantissa: 1, exponent: 38 }
    );
    // zeros around the significant digits do not count
    assert_eq!(
        float("X000000000000000000001000000000000000000000000000000.00000000000000"),
        Decimal { negative: false, mantissa: 1, exponent: 30 }
    );
}

#[test]
fn tokenize_source() {
    let src = Source::from_str("G01 X.0;\n%\n(COMMENT)\n/DELETEDBLOCK");
    let mut lex = Lexer::new(src);
    let mut block = lex.next().unwrap().unwrap();
    assert_eq!(block.next().unwrap(), Token { prefix: b'G', suffix: Suffix::Int(1) });
    assert_eq!(block.next().unwrap(), Token { prefix: b'X', suffix: Suffix::Float(zero()) });
    assert!(block.next().is_none());
    assert!(lex.next().is_none());
}

#[test]
fn lexer_reload_and_lines() {
    let mut lex = Lexer::new(Source::from_str("G0 X1.\nG1 Y;\n"));
    assert_eq!(lex.get_line(0), Some("G0 X1."));
    assert_eq!(lex.get_line(1), Some("G1 Y"));
    assert_eq!(lex.get_line(2), None);
    assert!(lex.next().unwrap().is_ok());
    assert_eq!(lex.next().unwrap().unwrap_err(), LexerError::NoSuffix);
    assert!(lex.next().is_none());
    lex.reload();
    let mut block = lex.next().unwrap().unwrap();
    assert_eq!(block.next().unwrap().prefix, b'G');
}

#[test]
fn block_hands_out_in_order() {
    let t1 = Token { prefix: b'A', suffix: Suffix::Int(1) };
    let t2 = Token { prefix: b'B', suffix: Suffix::Int(2) };
    let mut b = Block::new(vec![t1, t2]);
    assert_eq!(b.next(), Some(t1));
    assert_eq!(b.next(), Some(t2));
    assert_eq!(b.next(), None);
}
