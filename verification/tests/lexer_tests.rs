use elixir_lexer::classify::{is_valid_function_name_char, is_valid_module_name_char};
use elixir_lexer::lexer::Lexer;
use elixir_lexer::token::Tok;

#[test]
fn lex1() {
    let mut lexer = Lexer::new("defmodule Foo.Baz do\n  def bar? do\n  end\nend\n");
    assert_eq!(lexer.next(), Some(Ok((0, Tok::DefModule, 9))));
    assert_eq!(
        lexer.next(),
        Some(Ok((
            10,
            Tok::ModuleName {
                name: "Foo.Baz".to_string()
            },
            17
        )))
    );
    assert_eq!(lexer.next(), Some(Ok((18, Tok::Do, 20))));
    assert_eq!(lexer.next(), Some(Ok((23, Tok::Def, 26))));
    assert_eq!(
        lexer.next(),
        Some(Ok((
            27,
            Tok::FunctionName {
                name: "bar?".to_string()
            },
            31
        )))
    );
    assert_eq!(lexer.next(), Some(Ok((32, Tok::Do, 34))));
    assert_eq!(lexer.next(), Some(Ok((37, Tok::End, 40))));
    assert_eq!(lexer.next(), Some(Ok((41, Tok::End, 44))));
}

#[test]
fn lex_comments() {
    let mut lexer = Lexer::new("# this is a comment to end of line\ntrue");
    assert!(matches!(lexer.next(), Some(Ok((_, Tok::True, _)))));
}

#[test]
fn keyword_vs_identifier_precedence() {
    // One DefModule token, never Def followed by a function name.
    let mut lexer = Lexer::new("defmodule");
    assert_eq!(lexer.next(), Some(Ok((0, Tok::DefModule, 9))));
    assert_eq!(lexer.next(), None);
}

#[test]
fn keywords_and_brackets() {
    let mut lexer = Lexer::new("[true]");
    assert_eq!(lexer.next(), Some(Ok((0, Tok::LBracket, 1))));
    assert_eq!(lexer.next(), Some(Ok((1, Tok::True, 5))));
    assert_eq!(lexer.next(), Some(Ok((5, Tok::RBracket, 6))));
    assert_eq!(lexer.next(), None);
}

#[test]
fn keywords_defp_use_do_end() {
    let mut lexer = Lexer::new("defp use do end");
    assert_eq!(lexer.next(), Some(Ok((0, Tok::Defp, 4))));
    assert_eq!(lexer.next(), Some(Ok((5, Tok::Use, 8))));
    assert_eq!(lexer.next(), Some(Ok((9, Tok::Do, 11))));
    assert_eq!(lexer.next(), Some(Ok((12, Tok::End, 15))));
    assert_eq!(lexer.next(), None);
}

#[test]
fn no_word_boundary_after_keyword() {
    // The keyword scanner performs no trailing-boundary check: a literal
    // match consumes exactly the keyword, and the identifier scanner takes
    // what follows.
    let mut lexer = Lexer::new("define");
    assert_eq!(lexer.next(), Some(Ok((0, Tok::Def, 3))));
    assert_eq!(
        lexer.next(),
        Some(Ok((
            3,
            Tok::FunctionName {
                name: "ine".to_string()
            },
            6
        )))
    );
    assert_eq!(lexer.next(), None);
}

#[test]
fn module_and_function_classification() {
    let mut lexer = Lexer::new("defmodule Foo.Baz do def bar? do end end");
    assert_eq!(lexer.next(), Some(Ok((0, Tok::DefModule, 9))));
    assert_eq!(
        lexer.next(),
        Some(Ok((
            10,
            Tok::ModuleName {
                name: "Foo.Baz".to_string()
            },
            17
        )))
    );
    assert_eq!(lexer.next(), Some(Ok((18, Tok::Do, 20))));
    assert_eq!(lexer.next(), Some(Ok((21, Tok::Def, 24))));
    assert_eq!(
        lexer.next(),
        Some(Ok((
            25,
            Tok::FunctionName {
                name: "bar?".to_string()
            },
            29
        )))
    );
    assert_eq!(lexer.next(), Some(Ok((30, Tok::Do, 32))));
    assert_eq!(lexer.next(), Some(Ok((33, Tok::End, 36))));
    assert_eq!(lexer.next(), Some(Ok((37, Tok::End, 40))));
    assert_eq!(lexer.next(), None);
}

#[test]
fn module_name_with_underscore_and_digit() {
    let mut lexer = Lexer::new("Foo.Bar_2");
    assert_eq!(
        lexer.next(),
        Some(Ok((
            0,
            Tok::ModuleName {
                name: "Foo.Bar_2".to_string()
            },
            9
        )))
    );
    assert_eq!(lexer.next(), None);
}

#[test]
fn function_name_single_trailing_question() {
    // A `?` ends the name: the run is the body plus at most one trailing
    // `?` or `!`, so the rest is scanned as a fresh name.
    let mut lexer = Lexer::new("ab?cd");
    assert_eq!(
        lexer.next(),
        Some(Ok((
            0,
            Tok::FunctionName {
                name: "ab?".to_string()
            },
            3
        )))
    );
    assert_eq!(
        lexer.next(),
        Some(Ok((
            3,
            Tok::FunctionName {
                name: "cd".to_string()
            },
            5
        )))
    );
    assert_eq!(lexer.next(), None);
}

#[test]
fn module_name_beyond_ascii() {
    // Alphanumeric classification is Unicode: an accented letter belongs
    // to the name's run, and a non-ASCII uppercase letter triggers the
    // module-name rule itself.
    let mut lexer = Lexer::new("Caf\u{e9} \u{394}elta");
    assert_eq!(
        lexer.next(),
        Some(Ok((
            0,
            Tok::ModuleName {
                name: "Caf\u{e9}".to_string()
            },
            4
        )))
    );
    assert_eq!(
        lexer.next(),
        Some(Ok((
            5,
            Tok::ModuleName {
                name: "\u{394}elta".to_string()
            },
            10
        )))
    );
    assert_eq!(lexer.next(), None);
}

#[test]
fn function_name_beyond_ascii() {
    // A non-ASCII lowercase letter triggers the function-name rule, and
    // non-ASCII alphanumerics belong to its run.
    let mut lexer = Lexer::new("\u{fc}ber caf\u{e9}?");
    assert_eq!(
        lexer.next(),
        Some(Ok((
            0,
            Tok::FunctionName {
                name: "\u{fc}ber".to_string()
            },
            4
        )))
    );
    assert_eq!(
        lexer.next(),
        Some(Ok((
            5,
            Tok::FunctionName {
                name: "caf\u{e9}?".to_string()
            },
            10
        )))
    );
    assert_eq!(lexer.next(), None);
}

#[test]
fn identifier_character_classes() {
    // The public character predicates follow Unicode alphanumeric
    // classification, with the set's own extras.
    assert!(is_valid_module_name_char(&'a'));
    assert!(is_valid_module_name_char(&'Z'));
    assert!(is_valid_module_name_char(&'7'));
    assert!(is_valid_module_name_char(&'.'));
    assert!(is_valid_module_name_char(&'_'));
    assert!(is_valid_module_name_char(&'\u{e9}'));
    assert!(!is_valid_module_name_char(&'?'));
    assert!(!is_valid_module_name_char(&' '));
    assert!(is_valid_function_name_char(&'a'));
    assert!(is_valid_function_name_char(&'_'));
    assert!(is_valid_function_name_char(&'?'));
    assert!(is_valid_function_name_char(&'!'));
    assert!(is_valid_function_name_char(&'\u{e9}'));
    assert!(!is_valid_function_name_char(&'.'));
    assert!(!is_valid_function_name_char(&'-'));
}

#[test]
fn function_name_trailing_bang() {
    let mut lexer = Lexer::new("save!");
    assert_eq!(
        lexer.next(),
        Some(Ok((
            0,
            Tok::FunctionName {
                name: "save!".to_string()
            },
            5
        )))
    );
    assert_eq!(lexer.next(), None);
}
