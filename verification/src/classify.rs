//! Classifier tables: pure, static predicates over characters.
//!
//! The tokenizer's rules are driven by membership tests in named character
//! categories: whitespace, ASCII letter classes, digit classes for each
//! numeric base, identifier character sets, sigil delimiters, and the one-,
//! two- and three-character operator categories used by the quoted-operator
//! atom scanner.  Each category exists once as a `spec` predicate (the
//! mathematical table) and once as an executable function proved to agree
//! with it.  The tables hold no mutable state.
//!
//! Keywords, digits and sigil names are drawn from the ASCII range, so
//! their tables are spelled out here character by character.  The
//! identifier character sets follow the standard library's Unicode
//! classification: within ASCII the classes are stated exactly, beyond it
//! they are named and left to `char`'s own tables.

use vstd::prelude::*;

verus! {

// --- Whitespace and line structure ---

/// Characters skipped as trivia outside comments: space, tab, carriage
/// return, newline.
pub open spec fn is_space_char(c: char) -> bool {
    c == ' ' || c == '\t' || c == '\r' || c == '\n'
}

pub fn space_char(c: char) -> (r: bool)
    ensures
        r == is_space_char(c),
{
    c == ' ' || c == '\t' || c == '\r' || c == '\n'
}

/// A character that ends the free text of a line (used by the comment
/// skipper and the conflict-marker guard).
pub open spec fn is_line_terminator(c: char) -> bool {
    c == '\n' || c == '\r'
}

pub fn line_terminator(c: char) -> (r: bool)
    ensures
        r == is_line_terminator(c),
{
    c == '\n' || c == '\r'
}

// --- ASCII letter and digit classes ---

pub open spec fn is_ascii_upper(c: char) -> bool {
    'A' <= c && c <= 'Z'
}

pub fn ascii_upper(c: char) -> (r: bool)
    ensures
        r == is_ascii_upper(c),
{
    'A' <= c && c <= 'Z'
}

pub open spec fn is_ascii_lower(c: char) -> bool {
    'a' <= c && c <= 'z'
}

pub fn ascii_lower(c: char) -> (r: bool)
    ensures
        r == is_ascii_lower(c),
{
    'a' <= c && c <= 'z'
}

pub open spec fn is_ascii_letter(c: char) -> bool {
    is_ascii_upper(c) || is_ascii_lower(c)
}

pub fn ascii_letter(c: char) -> (r: bool)
    ensures
        r == is_ascii_letter(c),
{
    ascii_upper(c) || ascii_lower(c)
}

pub open spec fn is_ascii_digit(c: char) -> bool {
    '0' <= c && c <= '9'
}

pub fn ascii_digit(c: char) -> (r: bool)
    ensures
        r == is_ascii_digit(c),
{
    '0' <= c && c <= '9'
}

pub open spec fn is_ascii_alphanumeric(c: char) -> bool {
    is_ascii_letter(c) || is_ascii_digit(c)
}

// --- Unicode classification, through the standard library ---

/// Whether a character beyond ASCII is alphanumeric in the sense of
/// `char::is_alphanumeric`.  The Unicode tables behind that call are not
/// restated here: beyond ASCII the class has a name and nothing more.
pub uninterp spec fn unicode_alnum(c: char) -> bool;

/// Whether a character beyond ASCII has the Unicode `Uppercase` property,
/// in the sense of `char::is_uppercase`.
pub uninterp spec fn unicode_upper(c: char) -> bool;

/// Whether a character beyond ASCII has the Unicode `Lowercase` property,
/// in the sense of `char::is_lowercase`.
pub uninterp spec fn unicode_lower(c: char) -> bool;

/// Relies on char::is_alphanumeric: within ASCII it holds exactly of the
/// letters and digits; beyond ASCII it is the Unicode class, named by
/// [`unicode_alnum`].  The result depends on the character alone.
#[verifier::external_body]
fn char_alphanumeric(c: char) -> (r: bool)
    ensures
        c <= '\u{7f}' ==> r == is_ascii_alphanumeric(c),
        c > '\u{7f}' ==> r == unicode_alnum(c),
{
    c.is_alphanumeric()
}

/// Relies on char::is_uppercase: within ASCII it holds exactly of `A`-`Z`;
/// beyond ASCII it is the Unicode property, named by [`unicode_upper`].
#[verifier::external_body]
fn char_uppercase(c: char) -> (r: bool)
    ensures
        c <= '\u{7f}' ==> r == is_ascii_upper(c),
        c > '\u{7f}' ==> r == unicode_upper(c),
{
    c.is_uppercase()
}

/// Relies on char::is_lowercase: within ASCII it holds exactly of `a`-`z`;
/// beyond ASCII it is the Unicode property, named by [`unicode_lower`].
#[verifier::external_body]
fn char_lowercase(c: char) -> (r: bool)
    ensures
        c <= '\u{7f}' ==> r == is_ascii_lower(c),
        c > '\u{7f}' ==> r == unicode_lower(c),
{
    c.is_lowercase()
}

/// An alphanumeric character: the ASCII letters and digits, and the
/// Unicode class beyond them.
pub open spec fn is_alphanumeric_char(c: char) -> bool {
    is_ascii_alphanumeric(c) || (c > '\u{7f}' && unicode_alnum(c))
}

pub fn alphanumeric_char(c: char) -> (r: bool)
    ensures
        r == is_alphanumeric_char(c),
{
    char_alphanumeric(c)
}

/// An uppercase letter: `A`-`Z`, and the Unicode property beyond ASCII.
pub open spec fn is_uppercase_char(c: char) -> bool {
    is_ascii_upper(c) || (c > '\u{7f}' && unicode_upper(c))
}

pub fn uppercase_char(c: char) -> (r: bool)
    ensures
        r == is_uppercase_char(c),
{
    char_uppercase(c)
}

/// A lowercase letter: `a`-`z`, and the Unicode property beyond ASCII.
pub open spec fn is_lowercase_char(c: char) -> bool {
    is_ascii_lower(c) || (c > '\u{7f}' && unicode_lower(c))
}

pub fn lowercase_char(c: char) -> (r: bool)
    ensures
        r == is_lowercase_char(c),
{
    char_lowercase(c)
}

// --- Digit classes for the numeric-literal scanner ---

pub open spec fn is_bin_digit(c: char) -> bool {
    c == '0' || c == '1'
}

pub fn bin_digit(c: char) -> (r: bool)
    ensures
        r == is_bin_digit(c),
{
    c == '0' || c == '1'
}

pub open spec fn is_oct_digit(c: char) -> bool {
    '0' <= c && c <= '7'
}

pub fn oct_digit(c: char) -> (r: bool)
    ensures
        r == is_oct_digit(c),
{
    '0' <= c && c <= '7'
}

pub open spec fn is_hex_digit(c: char) -> bool {
    is_ascii_digit(c) || ('a' <= c && c <= 'f') || ('A' <= c && c <= 'F')
}

pub fn hex_digit(c: char) -> (r: bool)
    ensures
        r == is_hex_digit(c),
{
    ascii_digit(c) || ('a' <= c && c <= 'f') || ('A' <= c && c <= 'F')
}

/// The numeric value of one digit character; digits beyond `9` follow the
/// hexadecimal convention in either letter case.
pub open spec fn digit_val(c: char) -> nat {
    if is_ascii_digit(c) {
        (c as u32 - '0' as u32) as nat
    } else if 'a' <= c && c <= 'f' {
        (c as u32 - 'a' as u32 + 10) as nat
    } else if 'A' <= c && c <= 'F' {
        (c as u32 - 'A' as u32 + 10) as nat
    } else {
        0
    }
}

pub fn digit_value(c: char) -> (r: u8)
    ensures
        r == digit_val(c),
        is_hex_digit(c) ==> r < 16,
        is_oct_digit(c) ==> r < 8,
        is_bin_digit(c) ==> r < 2,
{
    if ascii_digit(c) {
        (c as u32 - '0' as u32) as u8
    } else if 'a' <= c && c <= 'f' {
        (c as u32 - 'a' as u32 + 10) as u8
    } else if 'A' <= c && c <= 'F' {
        (c as u32 - 'A' as u32 + 10) as u8
    } else {
        0
    }
}

/// The base selector characters admitted after a leading `0`.
pub open spec fn is_base_char(c: char) -> bool {
    c == 'x' || c == 'b' || c == 'o'
}

/// The numeric base selected by the character after the leading `0`.
pub open spec fn base_of(c: char) -> nat {
    if c == 'x' {
        16
    } else if c == 'o' {
        8
    } else {
        2
    }
}

pub open spec fn is_base_digit(base: nat, c: char) -> bool {
    if base == 16 {
        is_hex_digit(c)
    } else if base == 8 {
        is_oct_digit(c)
    } else {
        is_bin_digit(c)
    }
}

pub fn base_digit(base: u8, c: char) -> (r: bool)
    requires
        base == 2 || base == 8 || base == 16,
    ensures
        r == is_base_digit(base as nat, c),
{
    if base == 16 {
        hex_digit(c)
    } else if base == 8 {
        oct_digit(c)
    } else {
        bin_digit(c)
    }
}

// --- Identifier character sets ---

/// A character of a function name's body, before any trailing `?` or `!`.
pub open spec fn is_fn_core_char(c: char) -> bool {
    is_alphanumeric_char(c) || c == '_'
}

pub fn fn_core_char(c: char) -> (r: bool)
    ensures
        r == is_fn_core_char(c),
{
    alphanumeric_char(c) || c == '_'
}

/// Characters that may appear in a dotted module-path name.
pub open spec fn is_module_name_char(c: char) -> bool {
    is_alphanumeric_char(c) || c == '.' || c == '_'
}

/// Characters that may appear in a function name; `?` and `!` are admitted
/// by the set, though the identifier scanner only accepts one of them, as
/// the final character of the name.
pub open spec fn is_function_name_char(c: char) -> bool {
    is_alphanumeric_char(c) || c == '_' || c == '?' || c == '!'
}

pub fn is_valid_module_name_char(c: &char) -> (r: bool)
    ensures
        r == is_module_name_char(*c),
{
    alphanumeric_char(*c) || *c == '.' || *c == '_'
}

pub fn is_valid_function_name_char(c: &char) -> (r: bool)
    ensures
        r == is_function_name_char(*c),
{
    alphanumeric_char(*c) || *c == '_' || *c == '?' || *c == '!'
}

// --- Sigil and quote sets ---

/// The quote characters that can triple up into a heredoc opener.
pub open spec fn is_quote_char(c: char) -> bool {
    c == '"' || c == '\''
}

pub fn quote_char(c: char) -> (r: bool)
    ensures
        r == is_quote_char(c),
{
    c == '"' || c == '\''
}

/// The delimiters accepted after a sigil name for an inline sigil.
pub open spec fn is_sigil_delimiter(c: char) -> bool {
    c == '/' || c == '<' || c == '"' || c == '\'' || c == '[' || c == '(' || c == '{' || c == '|'
}

pub fn sigil_delimiter(c: char) -> (r: bool)
    ensures
        r == is_sigil_delimiter(c),
{
    c == '/' || c == '<' || c == '"' || c == '\'' || c == '[' || c == '(' || c == '{' || c == '|'
}

// --- Single-character operator categories ---

pub open spec fn is_at_op(c: char) -> bool {
    c == '@'
}

pub open spec fn is_unary_op(c: char) -> bool {
    c == '!' || c == '^'
}

pub open spec fn is_capture_op(c: char) -> bool {
    c == '&'
}

pub open spec fn is_dual_op(c: char) -> bool {
    c == '+' || c == '-'
}

pub open spec fn is_mult_op(c: char) -> bool {
    c == '*' || c == '/'
}

pub open spec fn is_relational_op(c: char) -> bool {
    c == '<' || c == '>'
}

pub open spec fn is_match_op(c: char) -> bool {
    c == '='
}

pub open spec fn is_pipe_op(c: char) -> bool {
    c == '|'
}

/// Membership in any single-character operator category, or the literal dot.
pub open spec fn is_single_op(c: char) -> bool {
    is_at_op(c) || is_unary_op(c) || is_capture_op(c) || is_dual_op(c) || is_mult_op(c)
        || is_relational_op(c) || is_match_op(c) || is_pipe_op(c) || c == '.'
}

pub fn single_op(c: char) -> (r: bool)
    ensures
        r == is_single_op(c),
{
    c == '@' || c == '!' || c == '^' || c == '&' || c == '+' || c == '-' || c == '*' || c == '/'
        || c == '<' || c == '>' || c == '=' || c == '|' || c == '.'
}

// --- Two-character operator categories ---

pub open spec fn is_comparison2_op(a: char, b: char) -> bool {
    (a == '=' && b == '=') || (a == '=' && b == '~') || (a == '!' && b == '=')
}

pub open spec fn is_relational2_op(a: char, b: char) -> bool {
    (a == '<' && b == '=') || (a == '>' && b == '~')
}

pub open spec fn is_and2_op(a: char, b: char) -> bool {
    a == '&' && b == '&'
}

pub open spec fn is_or2_op(a: char, b: char) -> bool {
    a == '|' && b == '|'
}

pub open spec fn is_arrow2_op(a: char, b: char) -> bool {
    (a == '|' && b == '>') || (a == '~' && b == '>') || (a == '<' && b == '~')
}

pub open spec fn is_in_match2_op(a: char, b: char) -> bool {
    (a == '<' && b == '-') || (a == '\\' && b == '\\')
}

pub open spec fn is_misc2_op(a: char, b: char) -> bool {
    (a == '<' && b == '>') || (a == '.' && b == '.')
}

pub open spec fn is_list2_op(a: char, b: char) -> bool {
    (a == '+' && b == '+') || (a == '-' && b == '-')
}

pub open spec fn is_stab2_op(a: char, b: char) -> bool {
    a == '-' && b == '>'
}

pub open spec fn is_type2_op(a: char, b: char) -> bool {
    a == ':' && b == ':'
}

/// Membership in any two-character operator category.
pub open spec fn is_double_op(a: char, b: char) -> bool {
    is_comparison2_op(a, b) || is_relational2_op(a, b) || is_and2_op(a, b) || is_or2_op(a, b)
        || is_arrow2_op(a, b) || is_in_match2_op(a, b) || is_misc2_op(a, b) || is_list2_op(a, b)
        || is_stab2_op(a, b) || is_type2_op(a, b)
}

pub fn double_op(a: char, b: char) -> (r: bool)
    ensures
        r == is_double_op(a, b),
{
    (a == '=' && b == '=') || (a == '=' && b == '~') || (a == '!' && b == '=') || (a == '<' && b
        == '=') || (a == '>' && b == '~') || (a == '&' && b == '&') || (a == '|' && b == '|') || (a
        == '|' && b == '>') || (a == '~' && b == '>') || (a == '<' && b == '~') || (a == '<' && b
        == '-') || (a == '\\' && b == '\\') || (a == '<' && b == '>') || (a == '.' && b == '.') || (
    a == '+' && b == '+') || (a == '-' && b == '-') || (a == '-' && b == '>') || (a == ':' && b
        == ':')
}

// --- Three-character operator categories ---

pub open spec fn is_unary3_op(a: char, b: char, c: char) -> bool {
    a == '~' && b == '~' && c == '~'
}

pub open spec fn is_comparison3_op(a: char, b: char, c: char) -> bool {
    (a == '=' && b == '=' && c == '=') || (a == '!' && b == '=' && c == '=')
}

pub open spec fn is_and3_op(a: char, b: char, c: char) -> bool {
    a == '&' && b == '&' && c == '&'
}

pub open spec fn is_or3_op(a: char, b: char, c: char) -> bool {
    a == '|' && b == '|' && c == '|'
}

pub open spec fn is_arrow3_op(a: char, b: char, c: char) -> bool {
    (a == '<' && b == '<' && c == '<') || (a == '>' && b == '>' && c == '>') || (a == '~' && b
        == '>' && c == '>') || (a == '<' && b == '<' && c == '~') || (a == '<' && b == '~' && c
        == '>') || (a == '<' && b == '|' && c == '>')
}

pub open spec fn is_bitwise3_op(a: char, b: char, c: char) -> bool {
    a == '^' && b == '^' && c == '^'
}

/// Membership in any three-character operator category.
pub open spec fn is_triple_op(a: char, b: char, c: char) -> bool {
    is_unary3_op(a, b, c) || is_comparison3_op(a, b, c) || is_and3_op(a, b, c) || is_or3_op(
        a,
        b,
        c,
    ) || is_arrow3_op(a, b, c) || is_bitwise3_op(a, b, c)
}

pub fn triple_op(a: char, b: char, c: char) -> (r: bool)
    ensures
        r == is_triple_op(a, b, c),
{
    (a == '~' && b == '~' && c == '~') || (a == '=' && b == '=' && c == '=') || (a == '!' && b
        == '=' && c == '=') || (a == '&' && b == '&' && c == '&') || (a == '|' && b == '|' && c
        == '|') || (a == '<' && b == '<' && c == '<') || (a == '>' && b == '>' && c == '>') || (a
        == '~' && b == '>' && c == '>') || (a == '<' && b == '<' && c == '~') || (a == '<' && b
        == '~' && c == '>') || (a == '<' && b == '|' && c == '>') || (a == '^' && b == '^' && c
        == '^')
}

} // verus!
