use elixir_lexer::lexer::Lexer;
use elixir_lexer::token::Tok;

#[test]
fn comment_is_transparent() {
    // The comment yields no token; what follows tokenizes as it would
    // alone, only at shifted offsets.
    let mut with_comment = Lexer::new("# comment\n*");
    let mut alone = Lexer::new("*");
    assert_eq!(with_comment.next(), Some(Ok((10, Tok::Star, 11))));
    assert_eq!(alone.next(), Some(Ok((0, Tok::Star, 1))));
    assert_eq!(with_comment.next(), None);
    assert_eq!(alone.next(), None);
}

#[test]
fn comment_with_crlf_terminator() {
    let mut lexer = Lexer::new("# c\r\ntrue");
    assert_eq!(lexer.next(), Some(Ok((5, Tok::True, 9))));
    assert_eq!(lexer.next(), None);
}

#[test]
fn comment_at_end_of_input() {
    let mut lexer = Lexer::new("true # trailing words");
    assert_eq!(lexer.next(), Some(Ok((0, Tok::True, 4))));
    assert_eq!(lexer.next(), None);
}

#[test]
fn end_of_stream_is_idempotent() {
    let mut lexer = Lexer::new("*");
    assert_eq!(lexer.next(), Some(Ok((0, Tok::Star, 1))));
    assert_eq!(lexer.next(), None);
    assert_eq!(lexer.next(), None);
    assert_eq!(lexer.next(), None);
}

#[test]
fn empty_input_is_exhausted_at_once() {
    let mut lexer = Lexer::new("");
    assert_eq!(lexer.next(), None);
    assert_eq!(lexer.next(), None);
}

#[test]
fn spans_are_ordered_and_disjoint() {
    // Over a mixed input, each emitted span ends at or before the next one
    // begins, and all lie within the input.
    let input = "defmodule Foo do # c\n 0x10 :=== ?a [x] end";
    let mut lexer = Lexer::new(input);
    let mut last_end = 0usize;
    let mut count = 0usize;
    loop {
        match lexer.next() {
            None => break,
            Some(Ok((a, _, b))) => {
                assert!(last_end <= a);
                assert!(a < b);
                assert!(b <= input.chars().count());
                last_end = b;
                count += 1;
            }
            Some(Err(_)) => {
                count += 1;
            }
        }
    }
    assert_eq!(count, 10);
}

#[test]
fn line_and_column_tracking() {
    let mut lexer = Lexer::new("true\ntrue x");
    assert_eq!(lexer.current_line(), 0);
    assert_eq!(lexer.current_column(), 0);
    assert_eq!(lexer.next(), Some(Ok((0, Tok::True, 4))));
    assert_eq!(lexer.offset(), 4);
    assert_eq!(lexer.current_line(), 0);
    assert_eq!(lexer.current_column(), 4);
    assert_eq!(lexer.next(), Some(Ok((5, Tok::True, 9))));
    assert_eq!(lexer.current_line(), 1);
    assert_eq!(lexer.current_column(), 4);
}

#[test]
fn whitespace_kinds_are_skipped() {
    let mut lexer = Lexer::new(" \t\r\n*");
    assert_eq!(lexer.next(), Some(Ok((4, Tok::Star, 5))));
    assert_eq!(lexer.next(), None);
}

#[test]
fn unmatched_characters_are_skipped_permissively() {
    // Characters no rule claims are consumed silently, one at a time.
    let mut lexer = Lexer::new("$;&*");
    assert_eq!(lexer.next(), Some(Ok((3, Tok::Star, 4))));
    assert_eq!(lexer.next(), None);
}
