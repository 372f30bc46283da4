//! The specification model of the tokenizer.
//!
//! Everything the lexer does is defined here as pure functions over the
//! source character sequence and a cursor position.  [`step`] gives the
//! single rule, in strict priority order, that fires at a position: either a
//! trivia skip of some length, or an emitted token or error of some length.
//! [`lex_next`] iterates [`step`] until something is emitted or the input is
//! exhausted; the executable [`crate::lexer::Lexer::next`] is proved to
//! return exactly what `lex_next` says.

use vstd::prelude::*;
use crate::classify::{
    is_space_char, is_line_terminator, is_uppercase_char, is_lowercase_char, is_ascii_letter,
    digit_val, is_module_name_char, is_quote_char, is_sigil_delimiter, is_single_op,
    is_double_op, is_triple_op, is_base_char, base_of, is_base_digit, is_fn_core_char,
};
use crate::token::LexicalError;

verus! {

/// The abstract form of a token: strings as character sequences, a numeric
/// literal as the natural number it denotes.
pub enum STok {
    Def,
    Defp,
    DefModule,
    Do,
    End,
    Use,
    True,
    LBracket,
    RBracket,
    ModuleName(Seq<char>),
    FunctionName(Seq<char>),
    IntLiteral(nat),
    CharLiteral(char),
    OperatorAtom(Seq<char>),
    KeywordIdentifierAtom(Seq<char>),
    Star,
}

/// What one pull of the stream emits.
pub enum SEmit {
    Token(STok),
    Error(LexicalError),
}

/// The outcome of the rule that fires at a position: trivia consuming `n`
/// characters without emitting, or an emission consuming `n` characters.
pub enum Step {
    Skip(nat),
    Give(SEmit, nat),
}

pub open spec fn step_len(st: Step) -> nat {
    match st {
        Step::Skip(n) => n,
        Step::Give(_, n) => n,
    }
}

// --- Line and column bookkeeping ---

/// The column of a position: the distance to the character just after the
/// last newline before it.  A newline resets the column to 0.
pub open spec fn col_of(s: Seq<char>, pos: nat) -> nat
    decreases pos,
{
    if pos == 0 {
        0
    } else if s[pos - 1] == '\n' {
        0
    } else {
        col_of(s, (pos - 1) as nat) + 1
    }
}

/// The line of a position: the number of newlines before it.
pub open spec fn line_of(s: Seq<char>, pos: nat) -> nat
    decreases pos,
{
    if pos == 0 {
        0
    } else if s[pos - 1] == '\n' {
        line_of(s, (pos - 1) as nat) + 1
    } else {
        line_of(s, (pos - 1) as nat)
    }
}

pub proof fn lemma_col_line_le(s: Seq<char>, pos: nat)
    ensures
        col_of(s, pos) <= pos,
        line_of(s, pos) <= pos,
    decreases pos,
{
    if pos > 0 {
        lemma_col_line_le(s, (pos - 1) as nat);
    }
}

// --- Literal prefix matching ---

/// The characters of `lit` stand at `pos` in `s`.
pub open spec fn lit_at(s: Seq<char>, pos: nat, lit: Seq<char>) -> bool {
    &&& pos + lit.len() <= s.len()
    &&& forall|j: int| 0 <= j < lit.len() ==> s[pos + j] == #[trigger] lit[j]
}

// --- Rest-of-line measurement (comments and the conflict-marker guard) ---

/// The number of characters from `pos` up to, and not including, the next
/// line terminator (or to the end of input if none follows).
pub open spec fn line_rest_len(s: Seq<char>, pos: nat) -> nat
    decreases s.len() - pos,
{
    if pos < s.len() && !is_line_terminator(s[pos as int]) {
        1 + line_rest_len(s, pos + 1)
    } else {
        0
    }
}

/// How many characters the terminator at `pos` occupies: a CRLF pair counts
/// as one two-character line break; at end of input there is nothing.
pub open spec fn terminator_len(s: Seq<char>, pos: nat) -> nat {
    if pos < s.len() && s[pos as int] == '\r' && pos + 1 < s.len() && s[pos as int + 1] == '\n' {
        2
    } else if pos < s.len() {
        1
    } else {
        0
    }
}

/// The characters consumed when skipping from `pos` through the end of the
/// line, terminator included.
pub open spec fn skip_line_len(s: Seq<char>, pos: nat) -> nat {
    line_rest_len(s, pos) + terminator_len(s, pos + line_rest_len(s, pos))
}

pub proof fn lemma_line_rest_le(s: Seq<char>, pos: nat)
    requires
        pos <= s.len(),
    ensures
        pos + line_rest_len(s, pos) <= s.len(),
    decreases s.len() - pos,
{
    if pos < s.len() && !is_line_terminator(s[pos as int]) {
        lemma_line_rest_le(s, pos + 1);
    }
}

pub proof fn lemma_skip_line_le(s: Seq<char>, pos: nat)
    requires
        pos <= s.len(),
    ensures
        pos + skip_line_len(s, pos) <= s.len(),
{
    lemma_line_rest_le(s, pos);
}

// --- The version-control conflict guard ---

/// An unresolved merge marker: seven `<` characters starting at column 0.
pub open spec fn vc_marker_at(s: Seq<char>, pos: nat) -> bool {
    col_of(s, pos) == 0 && lit_at(s, pos, "<<<<<<<"@)
}

/// The guard consumes the seven markers and the rest of their line,
/// terminator included.
pub open spec fn vc_len(s: Seq<char>, pos: nat) -> nat {
    7 + skip_line_len(s, pos + 7)
}

// --- The numeric-literal scanner ---

/// The length of the maximal run of base-`base` digits at `pos`.
pub open spec fn digit_run_len(s: Seq<char>, pos: nat, base: nat) -> nat
    decreases s.len() - pos,
{
    if pos < s.len() && is_base_digit(base, s[pos as int]) {
        1 + digit_run_len(s, pos + 1, base)
    } else {
        0
    }
}

pub proof fn lemma_digit_run_le(s: Seq<char>, pos: nat, base: nat)
    requires
        pos <= s.len(),
    ensures
        pos + digit_run_len(s, pos, base) <= s.len(),
    decreases s.len() - pos,
{
    if pos < s.len() && is_base_digit(base, s[pos as int]) {
        lemma_digit_run_le(s, pos + 1, base);
    }
}

/// The value of the `n` digits at `pos`, read most significant first.
pub open spec fn digits_val(s: Seq<char>, pos: nat, n: nat, base: nat) -> nat
    decreases n,
{
    if n == 0 {
        0
    } else {
        digits_val(s, pos, (n - 1) as nat, base) * base + digit_val(s[pos + n - 1])
    }
}

/// The scanner triggers only on `0`, a base selector, and at least one valid
/// digit of that base; a bare prefix such as `0x` is left untouched.
pub open spec fn num_at(s: Seq<char>, pos: nat) -> bool {
    &&& pos + 2 < s.len()
    &&& s[pos as int] == '0'
    &&& is_base_char(s[pos as int + 1])
    &&& is_base_digit(base_of(s[pos as int + 1]), s[pos as int + 2])
}

pub open spec fn num_len(s: Seq<char>, pos: nat) -> nat {
    2 + digit_run_len(s, pos + 2, base_of(s[pos as int + 1]))
}

pub open spec fn num_val(s: Seq<char>, pos: nat) -> nat {
    digits_val(s, pos + 2, digit_run_len(s, pos + 2, base_of(s[pos as int + 1])), base_of(s[pos as int + 1]))
}

// --- The comment skipper ---

/// A comment consumes its `#`, the rest of the line, and the terminator.
pub open spec fn comment_len(s: Seq<char>, pos: nat) -> nat {
    1 + skip_line_len(s, pos + 1)
}

// --- The sigil / heredoc / char-literal introducers ---

/// After `~` and a sigil name: three identical quote characters open a
/// heredoc sigil.
pub open spec fn heredoc_sigil_at(s: Seq<char>, pos: nat) -> bool {
    &&& pos + 5 <= s.len()
    &&& is_quote_char(s[pos as int + 2])
    &&& s[pos as int + 3] == s[pos as int + 2]
    &&& s[pos as int + 4] == s[pos as int + 2]
}

/// After `~` and a sigil name: one delimiter opens an inline sigil.
pub open spec fn inline_sigil_at(s: Seq<char>, pos: nat) -> bool {
    pos + 3 <= s.len() && is_sigil_delimiter(s[pos as int + 2])
}

/// A bare tripled quote outside the sigil form.
pub open spec fn heredoc_open_at(s: Seq<char>, pos: nat) -> bool {
    &&& pos + 3 <= s.len()
    &&& is_quote_char(s[pos as int])
    &&& s[pos as int + 1] == s[pos as int]
    &&& s[pos as int + 2] == s[pos as int]
}

// --- The quoted-operator-atom scanner ---

/// A space-disambiguated keyword-identifier form: the form's characters
/// followed by a required whitespace character, which is not consumed.
/// End of input after the form does not qualify as the disambiguator: the
/// form then simply does not match.
pub open spec fn kw_space_form_at(s: Seq<char>, pos: nat, form: Seq<char>) -> bool {
    &&& lit_at(s, pos, form)
    &&& pos + form.len() < s.len()
    &&& is_space_char(s[pos + form.len() as int])
}

/// The space-disambiguated tier, longest form first.  The token text is the
/// full consumed form, trailing colon included.
pub open spec fn kw_ident_space_step(s: Seq<char>, pos: nat) -> Option<(Seq<char>, nat)> {
    if kw_space_form_at(s, pos, "<<>>:"@) {
        Some(("<<>>:"@, "<<>>:"@.len()))
    } else if kw_space_form_at(s, pos, "...:"@) {
        Some(("...:"@, "...:"@.len()))
    } else if kw_space_form_at(s, pos, "%{}:"@) {
        Some(("%{}:"@, "%{}:"@.len()))
    } else if kw_space_form_at(s, pos, "{}:"@) {
        Some(("{}:"@, "{}:"@.len()))
    } else if kw_space_form_at(s, pos, "%:"@) {
        Some(("%:"@, "%:"@.len()))
    } else {
        None
    }
}

/// The bare colon-led tier, longest form first; the colon is consumed and
/// the token text is the form after it.
pub open spec fn kw_ident_bare_step(s: Seq<char>, pos: nat) -> Option<(Seq<char>, nat)> {
    if lit_at(s, pos + 1, "<<>>"@) {
        Some(("<<>>"@, 1 + "<<>>"@.len()))
    } else if lit_at(s, pos + 1, "..."@) {
        Some(("..."@, 1 + "..."@.len()))
    } else if lit_at(s, pos + 1, "%{}"@) {
        Some(("%{}"@, 1 + "%{}"@.len()))
    } else if lit_at(s, pos + 1, "{}"@) {
        Some(("{}"@, 1 + "{}"@.len()))
    } else if lit_at(s, pos + 1, "%"@) {
        Some(("%"@, 1 + "%"@.len()))
    } else {
        None
    }
}

/// The whole atom scanner: keyword-identifier tiers first, then quoted
/// operators from three characters down to one.  The operator text is the
/// exact source text after the colon.
pub open spec fn atom_step(s: Seq<char>, pos: nat) -> Option<(STok, nat)> {
    if kw_ident_space_step(s, pos) is Some {
        let (t, n) = kw_ident_space_step(s, pos)->Some_0;
        Some((STok::KeywordIdentifierAtom(t), n))
    } else if pos < s.len() && s[pos as int] == ':' {
        if kw_ident_bare_step(s, pos) is Some {
            let (t, n) = kw_ident_bare_step(s, pos)->Some_0;
            Some((STok::KeywordIdentifierAtom(t), n))
        } else if pos + 4 <= s.len() && is_triple_op(s[pos as int + 1], s[pos as int + 2], s[pos as int + 3]) {
            Some((STok::OperatorAtom(s.subrange(pos as int + 1, pos as int + 4)), 4))
        } else if pos + 3 <= s.len() && is_double_op(s[pos as int + 1], s[pos as int + 2]) {
            Some((STok::OperatorAtom(s.subrange(pos as int + 1, pos as int + 3)), 3))
        } else if pos + 2 <= s.len() && is_single_op(s[pos as int + 1]) {
            Some((STok::OperatorAtom(s.subrange(pos as int + 1, pos as int + 2)), 2))
        } else {
            None
        }
    } else {
        None
    }
}

// --- The keyword / structural-symbol scanner ---

/// Literal whole-token matches, most specific first, so that no keyword
/// pre-empts a longer keyword sharing its prefix.
pub open spec fn kw_step(s: Seq<char>, pos: nat) -> Option<(STok, nat)> {
    if lit_at(s, pos, "defmodule"@) {
        Some((STok::DefModule, "defmodule"@.len()))
    } else if lit_at(s, pos, "defp"@) {
        Some((STok::Defp, "defp"@.len()))
    } else if lit_at(s, pos, "def"@) {
        Some((STok::Def, "def"@.len()))
    } else if lit_at(s, pos, "end"@) {
        Some((STok::End, "end"@.len()))
    } else if lit_at(s, pos, "do"@) {
        Some((STok::Do, "do"@.len()))
    } else if lit_at(s, pos, "true"@) {
        Some((STok::True, "true"@.len()))
    } else if lit_at(s, pos, "use"@) {
        Some((STok::Use, "use"@.len()))
    } else if lit_at(s, pos, "["@) {
        Some((STok::LBracket, "["@.len()))
    } else if lit_at(s, pos, "]"@) {
        Some((STok::RBracket, "]"@.len()))
    } else if lit_at(s, pos, "*"@) {
        Some((STok::Star, "*"@.len()))
    } else {
        None
    }
}

// --- The identifier scanner ---

/// The maximal run of module-path characters at `pos`.
pub open spec fn module_run_len(s: Seq<char>, pos: nat) -> nat
    decreases s.len() - pos,
{
    if pos < s.len() && is_module_name_char(s[pos as int]) {
        1 + module_run_len(s, pos + 1)
    } else {
        0
    }
}

pub proof fn lemma_module_run_le(s: Seq<char>, pos: nat)
    requires
        pos <= s.len(),
    ensures
        pos + module_run_len(s, pos) <= s.len(),
    decreases s.len() - pos,
{
    if pos < s.len() && is_module_name_char(s[pos as int]) {
        lemma_module_run_le(s, pos + 1);
    }
}

/// The maximal run of function-name body characters at `pos`.
pub open spec fn fn_core_len(s: Seq<char>, pos: nat) -> nat
    decreases s.len() - pos,
{
    if pos < s.len() && is_fn_core_char(s[pos as int]) {
        1 + fn_core_len(s, pos + 1)
    } else {
        0
    }
}

pub proof fn lemma_fn_core_le(s: Seq<char>, pos: nat)
    requires
        pos <= s.len(),
    ensures
        pos + fn_core_len(s, pos) <= s.len(),
    decreases s.len() - pos,
{
    if pos < s.len() && is_fn_core_char(s[pos as int]) {
        lemma_fn_core_le(s, pos + 1);
    }
}

/// A module-path name: the uppercase letter that triggered the scan, then
/// the maximal run of module-path characters after it.
pub open spec fn module_name_len(s: Seq<char>, pos: nat) -> nat
    recommends
        pos < s.len(),
{
    1 + module_run_len(s, pos + 1)
}

/// A function name: the lowercase letter that triggered the scan, the
/// maximal run of body characters after it, and one optional trailing `?`
/// or `!`.
pub open spec fn fn_run_len(s: Seq<char>, pos: nat) -> nat
    recommends
        pos < s.len(),
{
    let core = 1 + fn_core_len(s, pos + 1);
    if pos + core < s.len() && (s[pos + core as int] == '?' || s[pos + core as int] == '!') {
        core + 1
    } else {
        core
    }
}

// --- The rule dispatcher ---

/// The single rule that fires at `pos`, in the fixed priority order: the
/// conflict-marker guard, the numeric scanner, the comment/whitespace
/// skipper, the sigil / char-literal / heredoc introducers, the
/// quoted-operator-atom scanner, the keyword scanner, the identifier
/// scanner, and finally a permissive single-character skip for anything no
/// rule claims.
///
/// A recognized sigil or heredoc introducer is consumed without an
/// emission: extracting the literal's body is delegated to a sub-scanner
/// that this core deliberately stubs, so the text after the introducer is
/// scanned as ordinary input.  A sigil name followed by anything but a
/// delimiter — end of input included — is an invalid sigil.
pub open spec fn step(s: Seq<char>, pos: nat) -> Step
    recommends
        pos < s.len(),
{
    let c = s[pos as int];
    if vc_marker_at(s, pos) {
        Step::Give(SEmit::Error(LexicalError::VersionControlMarker), vc_len(s, pos))
    } else if num_at(s, pos) {
        Step::Give(SEmit::Token(STok::IntLiteral(num_val(s, pos))), num_len(s, pos))
    } else if c == '#' {
        Step::Skip(comment_len(s, pos))
    } else if is_space_char(c) {
        Step::Skip(1)
    } else if c == '~' && pos + 1 < s.len() && is_ascii_letter(s[pos as int + 1]) {
        if heredoc_sigil_at(s, pos) {
            Step::Skip(5)
        } else if inline_sigil_at(s, pos) {
            Step::Skip(3)
        } else {
            Step::Give(SEmit::Error(LexicalError::InvalidSigil), 2)
        }
    } else if c == '?' && pos + 1 < s.len() {
        if s[pos as int + 1] == '\\' && pos + 2 < s.len() {
            Step::Give(SEmit::Token(STok::CharLiteral(s[pos as int + 2])), 3)
        } else {
            Step::Give(SEmit::Token(STok::CharLiteral(s[pos as int + 1])), 2)
        }
    } else if heredoc_open_at(s, pos) {
        Step::Skip(3)
    } else if atom_step(s, pos) is Some {
        let (t, n) = atom_step(s, pos)->Some_0;
        Step::Give(SEmit::Token(t), n)
    } else if kw_step(s, pos) is Some {
        let (t, n) = kw_step(s, pos)->Some_0;
        Step::Give(SEmit::Token(t), n)
    } else if is_uppercase_char(c) {
        Step::Give(
            SEmit::Token(
                STok::ModuleName(s.subrange(pos as int, pos + module_name_len(s, pos) as int)),
            ),
            module_name_len(s, pos),
        )
    } else if is_lowercase_char(c) {
        Step::Give(
            SEmit::Token(STok::FunctionName(s.subrange(pos as int, pos + fn_run_len(s, pos) as int))),
            fn_run_len(s, pos),
        )
    } else {
        Step::Skip(1)
    }
}

/// The lengths of the string literals the rules match against; stating them
/// once keeps their reveals out of every other proof.
pub proof fn lemma_literal_lens()
    ensures
        "<<<<<<<"@.len() == 7,
        "<<>>:"@.len() == 5,
        "...:"@.len() == 4,
        "%{}:"@.len() == 4,
        "{}:"@.len() == 3,
        "%:"@.len() == 2,
        "<<>>"@.len() == 4,
        "..."@.len() == 3,
        "%{}"@.len() == 3,
        "{}"@.len() == 2,
        "%"@.len() == 1,
        "defmodule"@.len() == 9,
        "defp"@.len() == 4,
        "def"@.len() == 3,
        "end"@.len() == 3,
        "do"@.len() == 2,
        "true"@.len() == 4,
        "use"@.len() == 3,
        "["@.len() == 1,
        "]"@.len() == 1,
        "*"@.len() == 1,
{
    reveal_strlit("<<<<<<<");
    reveal_strlit("<<>>:");
    reveal_strlit("...:");
    reveal_strlit("%{}:");
    reveal_strlit("{}:");
    reveal_strlit("%:");
    reveal_strlit("<<>>");
    reveal_strlit("...");
    reveal_strlit("%{}");
    reveal_strlit("{}");
    reveal_strlit("%");
    reveal_strlit("defmodule");
    reveal_strlit("defp");
    reveal_strlit("def");
    reveal_strlit("end");
    reveal_strlit("do");
    reveal_strlit("true");
    reveal_strlit("use");
    reveal_strlit("[");
    reveal_strlit("]");
    reveal_strlit("*");
}

/// Whatever rule fires, it consumes at least one character and stays within
/// the input.
pub proof fn lemma_step_in_bounds(s: Seq<char>, pos: nat)
    requires
        pos < s.len(),
    ensures
        1 <= step_len(step(s, pos)),
        pos + step_len(step(s, pos)) <= s.len(),
{
    lemma_literal_lens();
    if vc_marker_at(s, pos) {
        lemma_skip_line_le(s, pos + 7);
    } else if num_at(s, pos) {
        lemma_digit_run_le(s, pos + 2, base_of(s[pos as int + 1]));
    } else if s[pos as int] == '#' {
        lemma_skip_line_le(s, pos + 1);
    } else if atom_step(s, pos) is Some || kw_step(s, pos) is Some {
    } else if is_uppercase_char(s[pos as int]) {
        lemma_module_run_le(s, pos + 1);
    } else if is_lowercase_char(s[pos as int]) {
        lemma_fn_core_le(s, pos + 1);
    }
}

// --- The stream ---

/// What one pull returns from position `pos`: possibly an emission with its
/// span, and the new position.  Trivia is consumed silently; at the end of
/// the input the position no longer moves.
pub open spec fn lex_next(s: Seq<char>, pos: nat) -> (Option<(nat, SEmit, nat)>, nat)
    decreases s.len() - pos,
        via lex_next_dec
{
    if pos >= s.len() {
        (None, pos)
    } else {
        match step(s, pos) {
            Step::Skip(n) => lex_next(s, pos + n),
            Step::Give(e, n) => (Some((pos, e, pos + n)), pos + n),
        }
    }
}

#[via_fn]
proof fn lex_next_dec(s: Seq<char>, pos: nat) {
    if pos < s.len() {
        lemma_step_in_bounds(s, pos);
    }
}

/// Every emission of the stream from position `pos` on, with its span.
pub open spec fn lex_all(s: Seq<char>, pos: nat) -> Seq<(nat, SEmit, nat)>
    decreases s.len() - pos,
        via lex_all_dec
{
    if pos >= s.len() {
        Seq::empty()
    } else {
        match step(s, pos) {
            Step::Skip(n) => lex_all(s, pos + n),
            Step::Give(e, n) => seq![(pos, e, pos + n)] + lex_all(s, pos + n),
        }
    }
}

#[via_fn]
proof fn lex_all_dec(s: Seq<char>, pos: nat) {
    if pos < s.len() {
        lemma_step_in_bounds(s, pos);
    }
}

} // verus!
