//! Stream-level laws of the tokenizer.
//!
//! [`crate::lexer::Lexer::next`] is proved to follow the model's
//! [`lex_next`] exactly, so everything here is stated and proved over the
//! model and holds of the executable stream as well.

use vstd::prelude::*;
use crate::classify::{
    is_module_name_char, is_function_name_char, is_fn_core_char, is_line_terminator,
};
use crate::model::{
    step, Step, SEmit, STok, lex_next, lex_all, comment_len, num_at, num_val, num_len,
    vc_marker_at, vc_len, lit_at, kw_space_form_at, kw_ident_space_step, kw_ident_bare_step,
    atom_step, kw_step, col_of, line_rest_len, terminator_len, skip_line_len, module_run_len,
    module_name_len, fn_core_len, fn_run_len, digit_run_len, digits_val, heredoc_sigil_at,
    inline_sigil_at, heredoc_open_at, lemma_step_in_bounds,
};

verus! {

/// One pull never rewinds, never leaves the input, and emits a non-empty
/// span that ends exactly where the pull's consumption ends; a pull that
/// emits nothing has consumed the whole remaining input.  Together with the
/// fact that each pull starts where the previous one ended, the consumed
/// portion of the input is tiled by the pulls with no gaps and no overlaps,
/// and every emitted span lies in its own pull's tile.
pub proof fn lemma_next_bounds(s: Seq<char>, pos: nat)
    requires
        pos <= s.len(),
    ensures
        pos <= lex_next(s, pos).1 <= s.len(),
        lex_next(s, pos).0 is None ==> lex_next(s, pos).1 == s.len(),
        lex_next(s, pos).0 matches Some((a, e, b)) ==> pos <= a < b == lex_next(s, pos).1,
    decreases s.len() - pos,
{
    if pos < s.len() {
        lemma_step_in_bounds(s, pos);
        match step(s, pos) {
            Step::Skip(n) => {
                lemma_next_bounds(s, pos + n);
            },
            Step::Give(e, n) => {},
        }
    }
}

/// The spans of the whole emitted stream, tokens and errors alike, are
/// non-empty, lie within the input past the start position, and follow one
/// another without overlap: each span ends at or before the next begins.
pub proof fn lemma_stream_spans(s: Seq<char>, pos: nat)
    requires
        pos <= s.len(),
    ensures
        forall|i: int|
            0 <= i < lex_all(s, pos).len() ==> pos <= #[trigger] lex_all(s, pos)[i].0 < lex_all(
                s,
                pos,
            )[i].2 <= s.len(),
        forall|i: int|
            0 <= i < lex_all(s, pos).len() - 1 ==> #[trigger] lex_all(s, pos)[i].2 <= lex_all(
                s,
                pos,
            )[i + 1].0,
    decreases s.len() - pos,
{
    if pos < s.len() {
        lemma_step_in_bounds(s, pos);
        match step(s, pos) {
            Step::Skip(n) => {
                lemma_stream_spans(s, pos + n);
                assert(lex_all(s, pos) == lex_all(s, pos + n));
            },
            Step::Give(e, n) => {
                lemma_stream_spans(s, pos + n);
                assert(lex_all(s, pos) == seq![(pos, e, (pos + n) as nat)] + lex_all(s, pos + n));
                assert forall|i: int| 0 <= i < lex_all(s, pos).len() implies pos <= #[trigger] lex_all(
                    s,
                    pos,
                )[i].0 < lex_all(s, pos)[i].2 <= s.len() by {
                    if i > 0 {
                        assert(lex_all(s, pos)[i] == lex_all(s, pos + n)[i - 1]);
                    }
                }
                assert forall|i: int|
                    0 <= i < lex_all(s, pos).len() - 1 implies #[trigger] lex_all(s, pos)[i].2
                    <= lex_all(s, pos)[i + 1].0 by {
                    if i > 0 {
                        assert(lex_all(s, pos)[i] == lex_all(s, pos + n)[i - 1]);
                        assert(lex_all(s, pos)[i + 1] == lex_all(s, pos + n)[i]);
                    } else {
                        assert(lex_all(s, pos)[1] == lex_all(s, pos + n)[0]);
                    }
                }
            },
        }
    }
}

/// What a span covers is what its token holds.  An identifier token carries
/// exactly the characters of its span; a quoted-operator atom the characters
/// after its introducing colon; a keyword-identifier atom one of the two
/// (with or without a consumed leading colon, by its spelling); a character
/// literal the last character of its span; a numeric literal the value the
/// digits at its span denote.
pub open spec fn emit_faithful(s: Seq<char>, it: (nat, SEmit, nat)) -> bool {
    match it.1 {
        SEmit::Token(STok::ModuleName(t)) => t == s.subrange(it.0 as int, it.2 as int),
        SEmit::Token(STok::FunctionName(t)) => t == s.subrange(it.0 as int, it.2 as int),
        SEmit::Token(STok::OperatorAtom(t)) => t == s.subrange(it.0 as int + 1, it.2 as int),
        SEmit::Token(STok::KeywordIdentifierAtom(t)) => t == s.subrange(it.0 as int, it.2 as int)
            || t == s.subrange(it.0 as int + 1, it.2 as int),
        SEmit::Token(STok::CharLiteral(c)) => c == s[it.2 - 1],
        SEmit::Token(STok::IntLiteral(v)) => v == num_val(s, it.0),
        _ => true,
    }
}

/// The characters a literal matches are the subrange it matches at.
proof fn lemma_lit_at_subrange(s: Seq<char>, pos: nat, lit: Seq<char>)
    requires
        lit_at(s, pos, lit),
    ensures
        s.subrange(pos as int, pos + lit.len() as int) == lit,
{
    assert(s.subrange(pos as int, pos + lit.len() as int) =~= lit);
}

/// Every emitted token of the stream is faithful to its span, in the sense
/// of [`emit_faithful`]: together with [`lemma_stream_spans`], the emitted
/// spans and their contents reconstruct the consumed input.
pub proof fn lemma_stream_text(s: Seq<char>, pos: nat)
    requires
        pos <= s.len(),
    ensures
        forall|i: int|
            0 <= i < lex_all(s, pos).len() ==> emit_faithful(s, #[trigger] lex_all(s, pos)[i]),
    decreases s.len() - pos,
{
    if pos < s.len() {
        lemma_step_in_bounds(s, pos);
        match step(s, pos) {
            Step::Skip(n) => {
                lemma_stream_text(s, pos + n);
                assert(lex_all(s, pos) == lex_all(s, pos + n));
            },
            Step::Give(e, n) => {
                lemma_stream_text(s, pos + n);
                assert(lex_all(s, pos) == seq![(pos, e, (pos + n) as nat)] + lex_all(s, pos + n));
                if kw_space_form_at(s, pos, "<<>>:"@) {
                    lemma_lit_at_subrange(s, pos, "<<>>:"@);
                } else if kw_space_form_at(s, pos, "...:"@) {
                    lemma_lit_at_subrange(s, pos, "...:"@);
                } else if kw_space_form_at(s, pos, "%{}:"@) {
                    lemma_lit_at_subrange(s, pos, "%{}:"@);
                } else if kw_space_form_at(s, pos, "{}:"@) {
                    lemma_lit_at_subrange(s, pos, "{}:"@);
                } else if kw_space_form_at(s, pos, "%:"@) {
                    lemma_lit_at_subrange(s, pos, "%:"@);
                } else if pos < s.len() && s[pos as int] == ':' {
                    if lit_at(s, pos + 1, "<<>>"@) {
                        lemma_lit_at_subrange(s, pos + 1, "<<>>"@);
                    } else if lit_at(s, pos + 1, "..."@) {
                        lemma_lit_at_subrange(s, pos + 1, "..."@);
                    } else if lit_at(s, pos + 1, "%{}"@) {
                        lemma_lit_at_subrange(s, pos + 1, "%{}"@);
                    } else if lit_at(s, pos + 1, "{}"@) {
                        lemma_lit_at_subrange(s, pos + 1, "{}"@);
                    } else if lit_at(s, pos + 1, "%"@) {
                        lemma_lit_at_subrange(s, pos + 1, "%"@);
                    }
                }
                assert(emit_faithful(s, (pos, e, (pos + n) as nat)));
                assert forall|i: int| 0 <= i < lex_all(s, pos).len() implies emit_faithful(
                    s,
                    #[trigger] lex_all(s, pos)[i],
                ) by {
                    if i > 0 {
                        assert(lex_all(s, pos)[i] == lex_all(s, pos + n)[i - 1]);
                    }
                }
            },
        }
    }
}

/// A comment is transparent: it emits nothing, and the stream after it is
/// exactly the stream that begins past its terminator.
pub proof fn lemma_comment_transparent(s: Seq<char>, pos: nat)
    requires
        pos < s.len(),
        s[pos as int] == '#',
    ensures
        lex_next(s, pos) == lex_next(s, pos + comment_len(s, pos)),
        lex_all(s, pos) == lex_all(s, pos + comment_len(s, pos)),
{
    reveal_strlit("<<<<<<<");
    if vc_marker_at(s, pos) {
        assert(s[pos as int] == "<<<<<<<"@[0]);
        assert(false);
    }
    assert(!num_at(s, pos));
    assert(step(s, pos) == Step::Skip(comment_len(s, pos)));
}

/// Once the stream has reported end of input, it stands at the very end and
/// every further pull reports end of input again, from the same position.
pub proof fn lemma_end_idempotent(s: Seq<char>, pos: nat)
    requires
        pos <= s.len(),
        lex_next(s, pos).0 is None,
    ensures
        lex_next(s, pos).1 == s.len(),
        lex_next(s, s.len()) == (None::<(nat, SEmit, nat)>, s.len()),
{
    lemma_next_bounds(s, pos);
}

/// Every character of a scanned module-path name after the uppercase
/// letter that triggered the scan is a valid module-name character.
pub proof fn lemma_module_name_chars(s: Seq<char>, pos: nat)
    ensures
        forall|i: int|
            pos + 1 <= i < pos + module_name_len(s, pos) ==> is_module_name_char(
                #[trigger] s[i],
            ),
{
    lemma_module_run_chars(s, (pos + 1) as nat);
}

proof fn lemma_module_run_chars(s: Seq<char>, pos: nat)
    ensures
        forall|i: int|
            pos <= i < pos + module_run_len(s, pos) ==> is_module_name_char(#[trigger] s[i]),
    decreases s.len() - pos,
{
    if pos < s.len() && is_module_name_char(s[pos as int]) {
        lemma_module_run_chars(s, pos + 1);
    }
}

/// Every character of a scanned function name after the lowercase letter
/// that triggered the scan is a valid function-name character; only the
/// final one may be `?` or `!`.
pub proof fn lemma_function_name_chars(s: Seq<char>, pos: nat)
    ensures
        forall|i: int|
            pos + 1 <= i < pos + fn_run_len(s, pos) ==> is_function_name_char(#[trigger] s[i]),
{
    lemma_fn_core_chars(s, (pos + 1) as nat);
    assert forall|i: int| pos + 1 <= i < pos + fn_run_len(s, pos) implies is_function_name_char(
        #[trigger] s[i],
    ) by {
        if i < pos + 1 + fn_core_len(s, (pos + 1) as nat) {
            assert(is_fn_core_char(s[i]));
        }
    }
}

proof fn lemma_fn_core_chars(s: Seq<char>, pos: nat)
    ensures
        forall|i: int| pos <= i < pos + fn_core_len(s, pos) ==> is_fn_core_char(#[trigger] s[i]),
    decreases s.len() - pos,
{
    if pos < s.len() && is_fn_core_char(s[pos as int]) {
        lemma_fn_core_chars(s, pos + 1);
    }
}

// --- Transparency of a leading comment, across buffers ---

/// From offset `d` on, `s1` holds exactly the characters of `s2`, and the
/// junction sits at the start of a line.
pub open spec fn tail_of(s1: Seq<char>, s2: Seq<char>, d: nat) -> bool {
    &&& d + s2.len() == s1.len()
    &&& forall|i: int| 0 <= i < s2.len() ==> s1[d + i] == #[trigger] s2[i]
    &&& (d == 0 || s1[d - 1] == '\n')
}

/// The same stream with every span moved `d` characters to the right.
pub open spec fn shift_stream(items: Seq<(nat, SEmit, nat)>, d: nat) -> Seq<(nat, SEmit, nat)> {
    Seq::new(items.len(), |i: int| ((items[i].0 + d) as nat, items[i].1, (items[i].2 + d) as nat))
}

proof fn lemma_shift_col(s1: Seq<char>, s2: Seq<char>, d: nat, pos: nat)
    requires
        tail_of(s1, s2, d),
        pos <= s2.len(),
    ensures
        col_of(s1, d + pos) == col_of(s2, pos),
    decreases pos,
{
    if pos > 0 {
        lemma_shift_col(s1, s2, d, (pos - 1) as nat);
    }
}

proof fn lemma_shift_line_rest(s1: Seq<char>, s2: Seq<char>, d: nat, pos: nat)
    requires
        tail_of(s1, s2, d),
        pos <= s2.len(),
    ensures
        line_rest_len(s1, d + pos) == line_rest_len(s2, pos),
    decreases s2.len() - pos,
{
    if pos < s2.len() && !is_line_terminator(s2[pos as int]) {
        lemma_shift_line_rest(s1, s2, d, pos + 1);
    }
}

proof fn lemma_shift_skip_line(s1: Seq<char>, s2: Seq<char>, d: nat, pos: nat)
    requires
        tail_of(s1, s2, d),
        pos <= s2.len(),
    ensures
        skip_line_len(s1, d + pos) == skip_line_len(s2, pos),
{
    lemma_shift_line_rest(s1, s2, d, pos);
    crate::model::lemma_line_rest_le(s2, pos);
    let q = (pos + line_rest_len(s2, pos)) as nat;
    assert(terminator_len(s1, d + q) == terminator_len(s2, q));
}

proof fn lemma_shift_lit(s1: Seq<char>, s2: Seq<char>, d: nat, pos: nat, lit: Seq<char>)
    requires
        tail_of(s1, s2, d),
        pos <= s2.len(),
    ensures
        lit_at(s1, d + pos, lit) == lit_at(s2, pos, lit),
{
    if lit_at(s2, pos, lit) {
        assert forall|j: int| 0 <= j < lit.len() implies s1[d + pos + j] == #[trigger] lit[j] by {
            assert(s2[pos + j] == lit[j]);
            assert(s1[d + (pos + j)] == s2[pos + j]);
        }
        assert(lit_at(s1, d + pos, lit));
    }
    if lit_at(s1, d + pos, lit) {
        assert forall|j: int| 0 <= j < lit.len() implies s2[pos + j] == #[trigger] lit[j] by {
            assert(s1[d + pos + j] == lit[j]);
            assert(s1[d + (pos + j)] == s2[pos + j]);
        }
        assert(lit_at(s2, pos, lit));
    }
}

proof fn lemma_shift_digit_run(s1: Seq<char>, s2: Seq<char>, d: nat, pos: nat, base: nat)
    requires
        tail_of(s1, s2, d),
        pos <= s2.len(),
    ensures
        digit_run_len(s1, d + pos, base) == digit_run_len(s2, pos, base),
    decreases s2.len() - pos,
{
    if pos < s2.len() && crate::classify::is_base_digit(base, s2[pos as int]) {
        lemma_shift_digit_run(s1, s2, d, pos + 1, base);
    }
}

proof fn lemma_shift_digits_val(s1: Seq<char>, s2: Seq<char>, d: nat, pos: nat, n: nat, base: nat)
    requires
        tail_of(s1, s2, d),
        pos + n <= s2.len(),
    ensures
        digits_val(s1, d + pos, n, base) == digits_val(s2, pos, n, base),
    decreases n,
{
    if n > 0 {
        lemma_shift_digits_val(s1, s2, d, pos, (n - 1) as nat, base);
        assert(s1[d + (pos + n - 1)] == s2[pos + n - 1]);
    }
}

proof fn lemma_shift_module_run(s1: Seq<char>, s2: Seq<char>, d: nat, pos: nat)
    requires
        tail_of(s1, s2, d),
        pos <= s2.len(),
    ensures
        module_run_len(s1, d + pos) == module_run_len(s2, pos),
    decreases s2.len() - pos,
{
    if pos < s2.len() && is_module_name_char(s2[pos as int]) {
        lemma_shift_module_run(s1, s2, d, pos + 1);
    }
}

proof fn lemma_shift_fn_core(s1: Seq<char>, s2: Seq<char>, d: nat, pos: nat)
    requires
        tail_of(s1, s2, d),
        pos <= s2.len(),
    ensures
        fn_core_len(s1, d + pos) == fn_core_len(s2, pos),
    decreases s2.len() - pos,
{
    if pos < s2.len() && is_fn_core_char(s2[pos as int]) {
        lemma_shift_fn_core(s1, s2, d, pos + 1);
    }
}

proof fn lemma_shift_subrange(s1: Seq<char>, s2: Seq<char>, d: nat, a: nat, b: nat)
    requires
        tail_of(s1, s2, d),
        a <= b <= s2.len(),
    ensures
        s1.subrange((d + a) as int, (d + b) as int) == s2.subrange(a as int, b as int),
{
    assert forall|j: int| 0 <= j < b - a implies s1.subrange((d + a) as int, (d + b) as int)[j] == s2.subrange(
        a as int,
        b as int,
    )[j] by {
        assert(s1[d + (a + j)] == s2[a + j]);
    }
    assert(s1.subrange((d + a) as int, (d + b) as int) =~= s2.subrange(a as int, b as int));
}

/// The rule that fires depends only on the characters from the cursor on
/// and on whether the cursor sits at the start of a line: at corresponding
/// positions of the two buffers, the same rule fires with the same
/// emission and the same length.
proof fn lemma_shift_step(s1: Seq<char>, s2: Seq<char>, d: nat, pos: nat)
    requires
        tail_of(s1, s2, d),
        pos < s2.len(),
    ensures
        step(s1, d + pos) == step(s2, pos),
{
    lemma_shift_col(s1, s2, d, pos);
    lemma_shift_lit(s1, s2, d, pos, "<<<<<<<"@);
    assert(vc_marker_at(s1, d + pos) == vc_marker_at(s2, pos));
    if vc_marker_at(s2, pos) {
        crate::model::lemma_literal_lens();
        lemma_shift_skip_line(s1, s2, d, pos + 7);
        assert(vc_len(s1, d + pos) == vc_len(s2, pos));
    }
    assert(s1[(d + pos) as int] == s2[pos as int]);
    if pos + 1 < s2.len() {
        assert(s1[d + pos as int + 1] == s2[pos as int + 1]);
    }
    if pos + 2 < s2.len() {
        assert(s1[d + pos as int + 2] == s2[pos as int + 2]);
    }
    if pos + 3 < s2.len() {
        assert(s1[d + pos as int + 3] == s2[pos as int + 3]);
    }
    if pos + 4 < s2.len() {
        assert(s1[d + pos as int + 4] == s2[pos as int + 4]);
    }
    assert(num_at(s1, d + pos) == num_at(s2, pos));
    if num_at(s2, pos) {
        let base = crate::classify::base_of(s2[pos as int + 1]);
        lemma_shift_digit_run(s1, s2, d, pos + 2, base);
        crate::model::lemma_digit_run_le(s2, pos + 2, base);
        lemma_shift_digits_val(s1, s2, d, pos + 2, digit_run_len(s2, pos + 2, base), base);
        assert(num_len(s1, d + pos) == num_len(s2, pos));
        assert(num_val(s1, d + pos) == num_val(s2, pos));
    }
    if s2[pos as int] == '#' {
        lemma_shift_skip_line(s1, s2, d, pos + 1);
        assert(comment_len(s1, d + pos) == comment_len(s2, pos));
    }
    assert(heredoc_sigil_at(s1, d + pos) == heredoc_sigil_at(s2, pos));
    assert(inline_sigil_at(s1, d + pos) == inline_sigil_at(s2, pos));
    assert(heredoc_open_at(s1, d + pos) == heredoc_open_at(s2, pos));
    lemma_shift_lit(s1, s2, d, pos, "<<>>:"@);
    lemma_shift_lit(s1, s2, d, pos, "...:"@);
    lemma_shift_lit(s1, s2, d, pos, "%{}:"@);
    lemma_shift_lit(s1, s2, d, pos, "{}:"@);
    lemma_shift_lit(s1, s2, d, pos, "%:"@);
    crate::model::lemma_literal_lens();
    assert(kw_space_form_at(s1, d + pos, "<<>>:"@) == kw_space_form_at(s2, pos, "<<>>:"@));
    assert(kw_space_form_at(s1, d + pos, "...:"@) == kw_space_form_at(s2, pos, "...:"@));
    assert(kw_space_form_at(s1, d + pos, "%{}:"@) == kw_space_form_at(s2, pos, "%{}:"@));
    assert(kw_space_form_at(s1, d + pos, "{}:"@) == kw_space_form_at(s2, pos, "{}:"@));
    assert(kw_space_form_at(s1, d + pos, "%:"@) == kw_space_form_at(s2, pos, "%:"@));
    assert(kw_ident_space_step(s1, d + pos) == kw_ident_space_step(s2, pos));
    if pos + 1 <= s2.len() {
        lemma_shift_lit(s1, s2, d, pos + 1, "<<>>"@);
        lemma_shift_lit(s1, s2, d, pos + 1, "..."@);
        lemma_shift_lit(s1, s2, d, pos + 1, "%{}"@);
        lemma_shift_lit(s1, s2, d, pos + 1, "{}"@);
        lemma_shift_lit(s1, s2, d, pos + 1, "%"@);
        assert(kw_ident_bare_step(s1, d + pos) == kw_ident_bare_step(s2, pos));
    }
    if pos + 4 <= s2.len() {
        lemma_shift_subrange(s1, s2, d, pos + 1, pos + 4);
    }
    if pos + 3 <= s2.len() {
        lemma_shift_subrange(s1, s2, d, pos + 1, pos + 3);
    }
    if pos + 2 <= s2.len() {
        lemma_shift_subrange(s1, s2, d, pos + 1, pos + 2);
    }
    assert(atom_step(s1, d + pos) == atom_step(s2, pos));
    lemma_shift_lit(s1, s2, d, pos, "defmodule"@);
    lemma_shift_lit(s1, s2, d, pos, "defp"@);
    lemma_shift_lit(s1, s2, d, pos, "def"@);
    lemma_shift_lit(s1, s2, d, pos, "end"@);
    lemma_shift_lit(s1, s2, d, pos, "do"@);
    lemma_shift_lit(s1, s2, d, pos, "true"@);
    lemma_shift_lit(s1, s2, d, pos, "use"@);
    lemma_shift_lit(s1, s2, d, pos, "["@);
    lemma_shift_lit(s1, s2, d, pos, "]"@);
    lemma_shift_lit(s1, s2, d, pos, "*"@);
    assert(kw_step(s1, d + pos) == kw_step(s2, pos));
    lemma_shift_module_run(s1, s2, d, pos + 1);
    crate::model::lemma_module_run_le(s2, pos + 1);
    assert(module_name_len(s1, d + pos) == module_name_len(s2, pos));
    lemma_shift_subrange(s1, s2, d, pos, pos + module_name_len(s2, pos));
    lemma_shift_fn_core(s1, s2, d, pos + 1);
    crate::model::lemma_fn_core_le(s2, pos + 1);
    let core = (1 + fn_core_len(s2, (pos + 1) as nat)) as nat;
    if pos + core < s2.len() {
        assert(s1[d + (pos + core) as int] == s2[(pos + core) as int]);
    }
    assert(fn_run_len(s1, d + pos) == fn_run_len(s2, pos));
    lemma_shift_subrange(s1, s2, d, pos, pos + fn_run_len(s2, pos));
}

/// The whole stream depends only on the characters from the cursor on and
/// on the line structure there: over the common tail of two buffers, the
/// emitted streams coincide span for span, shifted by the prefix length.
#[verifier::rlimit(60)]
pub proof fn lemma_tail_stream_shift(s1: Seq<char>, s2: Seq<char>, d: nat, pos: nat)
    requires
        tail_of(s1, s2, d),
        pos <= s2.len(),
    ensures
        lex_all(s1, d + pos) == shift_stream(lex_all(s2, pos), d),
    decreases s2.len() - pos,
{
    if pos >= s2.len() {
        assert(lex_all(s1, d + pos) =~= shift_stream(lex_all(s2, pos), d));
    } else {
        lemma_shift_step(s1, s2, d, pos);
        lemma_step_in_bounds(s2, pos);
        match step(s2, pos) {
            Step::Skip(n) => {
                lemma_tail_stream_shift(s1, s2, d, pos + n);
                assert(lex_all(s1, d + pos) == lex_all(s1, d + (pos + n)));
            },
            Step::Give(e, n) => {
                lemma_tail_stream_shift(s1, s2, d, pos + n);
                assert(lex_all(s2, pos) == seq![(pos, e, (pos + n) as nat)] + lex_all(
                    s2,
                    pos + n,
                ));
                assert(lex_all(s1, d + pos) == seq![
                    ((d + pos) as nat, e, (d + pos + n) as nat),
                ] + lex_all(s1, d + (pos + n)));
                assert(shift_stream(lex_all(s2, pos), d) =~= seq![
                    ((d + pos) as nat, e, (d + pos + n) as nat),
                ] + shift_stream(lex_all(s2, pos + n), d));
            },
        }
    }
}

proof fn lemma_line_rest_exact(s: Seq<char>, p: nat, q: nat)
    requires
        p <= q < s.len(),
        forall|i: int| p <= i < q ==> !is_line_terminator(#[trigger] s[i]),
        is_line_terminator(s[q as int]),
    ensures
        line_rest_len(s, p) == q - p,
    decreases q - p,
{
    if p < q {
        lemma_line_rest_exact(s, p + 1, q);
    }
}

/// A leading comment line is transparent across buffers: the stream of a
/// buffer that begins with a whole comment line is, span for span, the
/// stream of the buffer without it, every span moved past the comment.
pub proof fn lemma_comment_prefix_transparent(s1: Seq<char>, s2: Seq<char>, d: nat)
    requires
        tail_of(s1, s2, d),
        2 <= d,
        s1[0] == '#',
        s1[d - 1] == '\n',
        forall|i: int| 1 <= i < d - 1 ==> !is_line_terminator(#[trigger] s1[i]),
    ensures
        comment_len(s1, 0) == d,
        lex_all(s1, 0) == shift_stream(lex_all(s2, 0), d),
{
    lemma_line_rest_exact(s1, 1, (d - 1) as nat);
    assert(terminator_len(s1, (d - 1) as nat) == 1);
    assert(comment_len(s1, 0) == d);
    lemma_comment_transparent(s1, 0);
    lemma_tail_stream_shift(s1, s2, d, 0);
}

} // verus!
