use elixir_lexer::lexer::Lexer;
use elixir_lexer::token::Tok;

#[test]
fn longest_match_three_char_operator() {
    // `:===` yields the 3-character operator, never a shorter atom and a
    // stray `=`.
    let mut lexer = Lexer::new(":===");
    assert_eq!(
        lexer.next(),
        Some(Ok((
            0,
            Tok::OperatorAtom {
                text: "===".to_string()
            },
            4
        )))
    );
    assert_eq!(lexer.next(), None);
}

#[test]
fn two_char_operator_atoms() {
    let mut lexer = Lexer::new(":<= :|> :.. :->");
    assert_eq!(
        lexer.next(),
        Some(Ok((
            0,
            Tok::OperatorAtom {
                text: "<=".to_string()
            },
            3
        )))
    );
    assert_eq!(
        lexer.next(),
        Some(Ok((
            4,
            Tok::OperatorAtom {
                text: "|>".to_string()
            },
            7
        )))
    );
    assert_eq!(
        lexer.next(),
        Some(Ok((
            8,
            Tok::OperatorAtom {
                text: "..".to_string()
            },
            11
        )))
    );
    assert_eq!(
        lexer.next(),
        Some(Ok((
            12,
            Tok::OperatorAtom {
                text: "->".to_string()
            },
            15
        )))
    );
    assert_eq!(lexer.next(), None);
}

#[test]
fn relational_two_char_atoms() {
    // The relational two-character category holds `<=` and `>~`.
    let mut lexer = Lexer::new(":>~");
    assert_eq!(
        lexer.next(),
        Some(Ok((
            0,
            Tok::OperatorAtom {
                text: ">~".to_string()
            },
            3
        )))
    );
    assert_eq!(lexer.next(), None);
}

#[test]
fn type_operator_atom() {
    // The atom of the type operator: a colon introducing `::`.
    let mut lexer = Lexer::new(":::");
    assert_eq!(
        lexer.next(),
        Some(Ok((
            0,
            Tok::OperatorAtom {
                text: "::".to_string()
            },
            3
        )))
    );
    assert_eq!(lexer.next(), None);
}

#[test]
fn backslash_pair_operator_atom() {
    let mut lexer = Lexer::new(":\\\\");
    assert_eq!(
        lexer.next(),
        Some(Ok((
            0,
            Tok::OperatorAtom {
                text: "\\\\".to_string()
            },
            3
        )))
    );
    assert_eq!(lexer.next(), None);
}

#[test]
fn single_char_operator_atoms() {
    let mut lexer = Lexer::new(":= :@ :. :*");
    assert_eq!(
        lexer.next(),
        Some(Ok((
            0,
            Tok::OperatorAtom {
                text: "=".to_string()
            },
            2
        )))
    );
    assert_eq!(
        lexer.next(),
        Some(Ok((
            3,
            Tok::OperatorAtom {
                text: "@".to_string()
            },
            5
        )))
    );
    assert_eq!(
        lexer.next(),
        Some(Ok((
            6,
            Tok::OperatorAtom {
                text: ".".to_string()
            },
            8
        )))
    );
    assert_eq!(
        lexer.next(),
        Some(Ok((
            9,
            Tok::OperatorAtom {
                text: "*".to_string()
            },
            11
        )))
    );
    assert_eq!(lexer.next(), None);
}

#[test]
fn bare_keyword_identifier_atoms() {
    let mut lexer = Lexer::new(":... :<<>> :%{} :% :{}");
    assert_eq!(
        lexer.next(),
        Some(Ok((
            0,
            Tok::KeywordIdentifierAtom {
                text: "...".to_string()
            },
            4
        )))
    );
    assert_eq!(
        lexer.next(),
        Some(Ok((
            5,
            Tok::KeywordIdentifierAtom {
                text: "<<>>".to_string()
            },
            10
        )))
    );
    assert_eq!(
        lexer.next(),
        Some(Ok((
            11,
            Tok::KeywordIdentifierAtom {
                text: "%{}".to_string()
            },
            15
        )))
    );
    assert_eq!(
        lexer.next(),
        Some(Ok((
            16,
            Tok::KeywordIdentifierAtom {
                text: "%".to_string()
            },
            18
        )))
    );
    assert_eq!(
        lexer.next(),
        Some(Ok((
            19,
            Tok::KeywordIdentifierAtom {
                text: "{}".to_string()
            },
            22
        )))
    );
    assert_eq!(lexer.next(), None);
}

#[test]
fn space_disambiguated_keyword_identifier_forms() {
    let mut lexer = Lexer::new("%{}: x");
    assert_eq!(
        lexer.next(),
        Some(Ok((
            0,
            Tok::KeywordIdentifierAtom {
                text: "%{}:".to_string()
            },
            4
        )))
    );
    assert_eq!(
        lexer.next(),
        Some(Ok((
            5,
            Tok::FunctionName {
                name: "x".to_string()
            },
            6
        )))
    );
    assert_eq!(lexer.next(), None);
}

#[test]
fn space_disambiguated_dots_form() {
    let mut lexer = Lexer::new("...: x");
    assert_eq!(
        lexer.next(),
        Some(Ok((
            0,
            Tok::KeywordIdentifierAtom {
                text: "...:".to_string()
            },
            4
        )))
    );
    assert_eq!(
        lexer.next(),
        Some(Ok((
            5,
            Tok::FunctionName {
                name: "x".to_string()
            },
            6
        )))
    );
    assert_eq!(lexer.next(), None);
}

#[test]
fn keyword_identifier_form_needs_trailing_space() {
    // Without the required trailing whitespace the form does not match, and
    // its characters are claimed by no other rule.
    let mut lexer = Lexer::new("%{}:");
    assert_eq!(lexer.next(), None);
}
