use elixir_lexer::lexer::Lexer;
use elixir_lexer::natural::Natural;
use elixir_lexer::token::{LexicalError, Tok};

#[test]
fn hex_literal_value() {
    // 0xf1A in base 16 is 15*256 + 1*16 + 10.
    let mut lexer = Lexer::new("0xf1A");
    assert_eq!(
        lexer.next(),
        Some(Ok((
            0,
            Tok::IntLiteral {
                value: Natural::from_u64(3866)
            },
            5
        )))
    );
    assert_eq!(lexer.next(), None);
}

#[test]
fn binary_literal_value() {
    let mut lexer = Lexer::new("0b110");
    assert_eq!(
        lexer.next(),
        Some(Ok((
            0,
            Tok::IntLiteral {
                value: Natural::from_u64(6)
            },
            5
        )))
    );
    assert_eq!(lexer.next(), None);
}

#[test]
fn octal_literal_value() {
    let mut lexer = Lexer::new("0o73");
    assert_eq!(
        lexer.next(),
        Some(Ok((
            0,
            Tok::IntLiteral {
                value: Natural::from_u64(59)
            },
            4
        )))
    );
    assert_eq!(lexer.next(), None);
}

#[test]
fn bare_hex_prefix_is_not_a_literal() {
    // `0x` with no digit falls through: the `0` is skipped and `x` scans as
    // a function name.
    let mut lexer = Lexer::new("0x");
    assert_eq!(
        lexer.next(),
        Some(Ok((
            1,
            Tok::FunctionName {
                name: "x".to_string()
            },
            2
        )))
    );
    assert_eq!(lexer.next(), None);
}

#[test]
fn binary_literal_stops_at_invalid_digit() {
    let mut lexer = Lexer::new("0b1102");
    assert_eq!(
        lexer.next(),
        Some(Ok((
            0,
            Tok::IntLiteral {
                value: Natural::from_u64(6)
            },
            5
        )))
    );
    // The stray `2` is claimed by no rule and is skipped.
    assert_eq!(lexer.next(), None);
}

#[test]
fn two_literals_in_a_row() {
    let mut lexer = Lexer::new("0xff 0o10");
    assert_eq!(
        lexer.next(),
        Some(Ok((
            0,
            Tok::IntLiteral {
                value: Natural::from_u64(255)
            },
            4
        )))
    );
    assert_eq!(
        lexer.next(),
        Some(Ok((
            5,
            Tok::IntLiteral {
                value: Natural::from_u64(8)
            },
            9
        )))
    );
    assert_eq!(lexer.next(), None);
}

#[test]
fn naturals_compare_by_value() {
    assert_eq!(Natural::from_u64(0), Natural::from_u64(0));
    assert_eq!(Natural::from_u64(3866), Natural::from_u64(3866));
    assert_ne!(Natural::from_u64(5), Natural::from_u64(6));
}

#[test]
fn vc_marker_then_recovery() {
    let mut lexer = Lexer::new("<<<<<<< conflict\n*");
    assert_eq!(lexer.next(), Some(Err(LexicalError::VersionControlMarker)));
    assert_eq!(lexer.next(), Some(Ok((17, Tok::Star, 18))));
    assert_eq!(lexer.next(), None);
}

#[test]
fn vc_marker_only_at_column_zero() {
    let mut lexer = Lexer::new(" <<<<<<< x");
    assert_eq!(
        lexer.next(),
        Some(Ok((
            9,
            Tok::FunctionName {
                name: "x".to_string()
            },
            10
        )))
    );
    assert_eq!(lexer.next(), None);
}

#[test]
fn vc_marker_at_end_of_input() {
    let mut lexer = Lexer::new("<<<<<<<");
    assert_eq!(lexer.next(), Some(Err(LexicalError::VersionControlMarker)));
    assert_eq!(lexer.next(), None);
}

#[test]
fn invalid_sigil() {
    // A sigil name followed by a non-delimiter.
    let mut lexer = Lexer::new("~Q9");
    assert_eq!(lexer.next(), Some(Err(LexicalError::InvalidSigil)));
    assert_eq!(lexer.next(), None);
}

#[test]
fn inline_sigil_introducer_is_consumed() {
    // `~r/` is a recognized introducer; body extraction is delegated to a
    // stub sub-scanner, so the text after it scans normally.
    let mut lexer = Lexer::new("~r/abc");
    assert_eq!(
        lexer.next(),
        Some(Ok((
            3,
            Tok::FunctionName {
                name: "abc".to_string()
            },
            6
        )))
    );
    assert_eq!(lexer.next(), None);
}

#[test]
fn heredoc_sigil_introducer_is_consumed() {
    let mut lexer = Lexer::new("~S\"\"\"rest");
    assert_eq!(
        lexer.next(),
        Some(Ok((
            5,
            Tok::FunctionName {
                name: "rest".to_string()
            },
            9
        )))
    );
    assert_eq!(lexer.next(), None);
}

#[test]
fn bare_heredoc_opener_is_consumed() {
    let mut lexer = Lexer::new("'''abc");
    assert_eq!(
        lexer.next(),
        Some(Ok((
            3,
            Tok::FunctionName {
                name: "abc".to_string()
            },
            6
        )))
    );
    assert_eq!(lexer.next(), None);
}

#[test]
fn char_literal_verbatim() {
    let mut lexer = Lexer::new("?a");
    assert_eq!(lexer.next(), Some(Ok((0, Tok::CharLiteral { code: 'a' }, 2))));
    assert_eq!(lexer.next(), None);
}

#[test]
fn char_literal_escaped_placeholder() {
    // The escaped form carries the escaped character verbatim; decoding is
    // delegated.
    let mut lexer = Lexer::new("?\\n");
    assert_eq!(lexer.next(), Some(Ok((0, Tok::CharLiteral { code: 'n' }, 3))));
    assert_eq!(lexer.next(), None);
}
