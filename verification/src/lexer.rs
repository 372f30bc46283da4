//! The executable tokenizer.
//!
//! A [`Lexer`] is constructed once per source unit and exhausted by repeated
//! [`Lexer::next`] pulls.  Its only mutable state is the cursor: an absolute
//! character offset plus the line and column derived from it.  Every pull is
//! proved to return exactly what the specification model's
//! [`crate::model::lex_next`] says for the current position, so every rule —
//! longest-match dispatch, trivia transparency, error recovery — is pinned
//! down by that one model.
//!
//! Each rule peeks at the upcoming characters and commits by [`Lexer::shift`]
//! only once its whole pattern has matched; a failed match consumes nothing.

use vstd::prelude::*;
use vstd::string::StrSliceExecFns;
use vstd::string::StringExecFns;
use crate::classify::{
    space_char, line_terminator, uppercase_char, lowercase_char, ascii_letter, quote_char,
    sigil_delimiter, single_op, double_op, triple_op, base_digit, fn_core_char, digit_value,
    is_valid_module_name_char,
};
use crate::model::{
    Step, SEmit, STok, step, lex_next, col_of, line_of, lit_at, line_rest_len, skip_line_len,
    vc_marker_at, vc_len, num_at, num_len, num_val, comment_len, atom_step, kw_step,
    module_run_len, module_name_len, fn_core_len, fn_run_len, digit_run_len, digits_val,
    lemma_col_line_le, lemma_module_run_le, lemma_fn_core_le, lemma_literal_lens,
};
use crate::natural::Natural;
use crate::token::{Tok, LexicalError, Spanned};

verus! {

/// The token stream over one immutable source buffer.
#[derive(Debug)]
pub struct Lexer {
    text: String,
    length: usize,
    position: usize,
    line: usize,
    col: usize,
}

/// The returned item corresponds to the model's emission: same span, same
/// abstract token or same error.
pub open spec fn emit_matches(r: Option<Spanned>, item: Option<(nat, SEmit, nat)>) -> bool {
    match (r, item) {
        (None, None) => true,
        (Some(res), Some((start, e, end))) => match (res, e) {
            (Ok((a, t, b)), SEmit::Token(st)) => a == start && b == end && t@ == st && t.wf(),
            (Err(er), SEmit::Error(ee)) => er == ee,
            _ => false,
        },
        _ => false,
    }
}

impl Lexer {
    /// The source character sequence.
    pub closed spec fn input(&self) -> Seq<char> {
        self.text@
    }

    /// The cursor: how many characters have been consumed.
    pub closed spec fn cursor(&self) -> nat {
        self.position as nat
    }

    /// The cursor is within the input and the line/column bookkeeping agrees
    /// with the consumed prefix.
    pub closed spec fn wf(&self) -> bool {
        &&& self.length == self.text@.len()
        &&& self.position <= self.length
        &&& self.line == line_of(self.text@, self.position as nat)
        &&& self.col == col_of(self.text@, self.position as nat)
    }

    /// A fresh stream over `input`, at offset 0, line 0, column 0.
    pub fn new(input: &str) -> (r: Lexer)
        ensures
            r.wf(),
            r.input() == input@,
            r.cursor() == 0,
    {
        let length = input.unicode_len();
        Lexer { text: input.to_owned(), length, position: 0, line: 0, col: 0 }
    }

    /// The cursor's absolute character offset into the source.
    pub fn offset(&self) -> (r: usize)
        ensures
            r == self.cursor(),
    {
        self.position
    }

    /// The cursor's line: how many newlines have been consumed.
    pub fn current_line(&self) -> (r: usize)
        requires
            self.wf(),
        ensures
            r == line_of(self.input(), self.cursor()),
    {
        self.line
    }

    /// The cursor's column: its distance from the character after the last
    /// consumed newline.
    pub fn current_column(&self) -> (r: usize)
        requires
            self.wf(),
        ensures
            r == col_of(self.input(), self.cursor()),
    {
        self.col
    }

    /// The character `k` places ahead of the cursor, if the input still has
    /// one there; the cursor does not move.
    fn peek(&self, k: usize) -> (r: Option<char>)
        requires
            self.wf(),
        ensures
            r == (if self.cursor() + k < self.input().len() {
                Some(self.input()[self.cursor() + k as int])
            } else {
                None::<char>
            }),
    {
        if k < self.length - self.position {
            Some(self.text.as_str().get_char(self.position + k))
        } else {
            None
        }
    }

    /// Consumes `n` characters, keeping line and column bookkeeping in step;
    /// returns the consumed span.
    pub fn shift(&mut self, n: usize) -> (r: (usize, usize))
        requires
            old(self).wf(),
            old(self).cursor() + n <= old(self).input().len(),
        ensures
            final(self).wf(),
            final(self).input() == old(self).input(),
            final(self).cursor() == old(self).cursor() + n,
            r.0 == old(self).cursor(),
            r.1 == final(self).cursor(),
    {
        let start = self.position;
        let mut i: usize = 0;
        while i < n
            invariant
                self.wf(),
                self.input() == old(self).input(),
                i <= n,
                self.cursor() == old(self).cursor() + i,
                old(self).cursor() + n <= old(self).input().len(),
                start == old(self).cursor(),
            decreases n - i,
        {
            let c = self.text.as_str().get_char(self.position);
            proof {
                lemma_col_line_le(self.input(), self.cursor());
            }
            if c == '\n' {
                self.line = self.line + 1;
                self.col = 0;
            } else {
                self.col = self.col + 1;
            }
            self.position = self.position + 1;
            i = i + 1;
        }
        (start, self.position)
    }

    /// Whether the characters of `lit` stand `off` places ahead of the
    /// cursor; consumes nothing.
    fn looks_at(&self, off: usize, lit: &str) -> (r: bool)
        requires
            self.wf(),
        ensures
            r == lit_at(self.input(), (self.cursor() + off) as nat, lit@),
    {
        let l = lit.unicode_len();
        if off > self.length - self.position || l > self.length - self.position - off {
            return false;
        }
        let mut j: usize = 0;
        while j < l
            invariant
                self.wf(),
                j <= l,
                l == lit@.len(),
                self.cursor() + off + l <= self.input().len(),
                forall|jj: int|
                    0 <= jj < j ==> self.input()[self.cursor() + off + jj] == #[trigger] lit@[jj],
            decreases l - j,
        {
            if self.text.as_str().get_char(self.position + off + j) != lit.get_char(j) {
                return false;
            }
            j = j + 1;
        }
        true
    }

    /// Tests whether the literal stands at the cursor; on a match consumes
    /// it and returns its span, otherwise consumes nothing.
    pub fn matches_literal(&mut self, lit: &str) -> (r: Option<(usize, usize)>)
        requires
            old(self).wf(),
            lit@.len() >= 1,
        ensures
            final(self).wf(),
            final(self).input() == old(self).input(),
            match r {
                Some((a, b)) => {
                    &&& lit_at(old(self).input(), old(self).cursor(), lit@)
                    &&& a == old(self).cursor()
                    &&& b == old(self).cursor() + lit@.len()
                    &&& final(self).cursor() == b
                },
                None => {
                    &&& !lit_at(old(self).input(), old(self).cursor(), lit@)
                    &&& *final(self) == *old(self)
                },
            },
    {
        if self.looks_at(0, lit) {
            let l = lit.unicode_len();
            let span = self.shift(l);
            Some(span)
        } else {
            None
        }
    }

    /// Consumes the rest of the current line and its terminator, collapsing
    /// a CRLF pair into one line-break event.
    fn skip_to_line_end(&mut self)
        requires
            old(self).wf(),
        ensures
            final(self).wf(),
            final(self).input() == old(self).input(),
            final(self).cursor() == old(self).cursor() + skip_line_len(
                old(self).input(),
                old(self).cursor(),
            ),
    {
        loop
            invariant
                self.wf(),
                self.input() == old(self).input(),
                old(self).cursor() + line_rest_len(self.input(), old(self).cursor())
                    == self.cursor() + line_rest_len(self.input(), self.cursor()),
            ensures
                self.wf(),
                self.input() == old(self).input(),
                self.cursor() == old(self).cursor() + line_rest_len(
                    self.input(),
                    old(self).cursor(),
                ),
                line_rest_len(self.input(), self.cursor()) == 0,
            decreases self.input().len() - self.cursor(),
        {
            match self.peek(0) {
                None => { break; },
                Some(c) => {
                    if line_terminator(c) {
                        break;
                    }
                    self.shift(1);
                },
            }
        }
        match (self.peek(0), self.peek(1)) {
            (Some(a), Some(b)) => {
                if a == '\r' && b == '\n' {
                    self.shift(2);
                } else {
                    self.shift(1);
                }
            },
            (Some(_), None) => {
                self.shift(1);
            },
            _ => {},
        }
    }

    /// The version-control conflict guard: at column 0, seven `<` characters
    /// consume their whole line.  Returns whether the guard fired; when it
    /// did not, nothing was consumed.
    fn try_vc(&mut self) -> (r: bool)
        requires
            old(self).wf(),
        ensures
            final(self).wf(),
            final(self).input() == old(self).input(),
            r == vc_marker_at(old(self).input(), old(self).cursor()),
            r ==> final(self).cursor() == old(self).cursor() + vc_len(
                old(self).input(),
                old(self).cursor(),
            ),
            !r ==> *final(self) == *old(self),
    {
        if self.col == 0 {
            if self.looks_at(0, "<<<<<<<") {
                proof {
                    lemma_literal_lens();
                }
                self.shift(7);
                self.skip_to_line_end();
                return true;
            }
        }
        false
    }

    /// The numeric-literal scanner.  It commits only when the provisional
    /// `0x`/`0o`/`0b` prefix is followed by at least one digit of its base,
    /// then consumes the maximal digit run into an unbounded natural.
    fn try_number(&mut self) -> (r: Option<Tok>)
        requires
            old(self).wf(),
        ensures
            final(self).wf(),
            final(self).input() == old(self).input(),
            match r {
                Some(t) => {
                    &&& num_at(old(self).input(), old(self).cursor())
                    &&& final(self).cursor() == old(self).cursor() + num_len(
                        old(self).input(),
                        old(self).cursor(),
                    )
                    &&& t@ == STok::IntLiteral(num_val(old(self).input(), old(self).cursor()))
                    &&& t.wf()
                },
                None => {
                    &&& !num_at(old(self).input(), old(self).cursor())
                    &&& *final(self) == *old(self)
                },
            },
    {
        match (self.peek(0), self.peek(1), self.peek(2)) {
            (Some(z), Some(bc), Some(d0)) => {
                if z == '0' && (bc == 'x' || bc == 'b' || bc == 'o') {
                    let base: u8 = if bc == 'x' {
                        16
                    } else if bc == 'o' {
                        8
                    } else {
                        2
                    };
                    if base_digit(base, d0) {
                        let ghost s = self.input();
                        let ghost p = self.cursor();
                        self.shift(2);
                        let ghost p2 = self.cursor();
                        let mut value = Natural::new();
                        loop
                            invariant
                                self.wf(),
                                self.input() == s,
                                p2 <= self.cursor() <= s.len(),
                                base == 2 || base == 8 || base == 16,
                                value.wf(),
                                digit_run_len(s, p2, base as nat) == (self.cursor() - p2)
                                    + digit_run_len(s, self.cursor(), base as nat),
                                value@ == digits_val(
                                    s,
                                    p2,
                                    (self.cursor() - p2) as nat,
                                    base as nat,
                                ),
                            ensures
                                self.wf(),
                                self.input() == s,
                                self.cursor() == p2 + digit_run_len(s, p2, base as nat),
                                value.wf(),
                                value@ == digits_val(
                                    s,
                                    p2,
                                    digit_run_len(s, p2, base as nat),
                                    base as nat,
                                ),
                            decreases s.len() - self.cursor(),
                        {
                            match self.peek(0) {
                                Some(c) => {
                                    if base_digit(base, c) {
                                        let d = digit_value(c);
                                        value.push_digit(base, d);
                                        self.shift(1);
                                    } else {
                                        break;
                                    }
                                },
                                None => {
                                    break;
                                },
                            }
                        }
                        return Some(Tok::IntLiteral { value });
                    }
                }
            },
            _ => {},
        }
        None
    }

    /// The first offset past the maximal run of module-path characters at
    /// the cursor; consumes nothing.
    fn module_run_end(&self) -> (r: usize)
        requires
            self.wf(),
            self.cursor() < self.input().len(),
        ensures
            r == self.cursor() + module_name_len(self.input(), self.cursor()),
    {
        let mut e = self.position + 1;
        loop
            invariant
                self.wf(),
                self.cursor() < self.input().len(),
                self.position + 1 <= e <= self.length,
                self.cursor() + module_name_len(self.input(), self.cursor()) == e
                    + module_run_len(self.input(), e as nat),
            ensures
                self.position + 1 <= e <= self.length,
                e == self.cursor() + module_name_len(self.input(), self.cursor()),
            decreases self.input().len() - e,
        {
            if e >= self.length {
                break;
            }
            let c = self.text.as_str().get_char(e);
            if !is_valid_module_name_char(&c) {
                break;
            }
            e = e + 1;
        }
        e
    }

    /// Scans a module-path name: the cursor's uppercase letter and the
    /// maximal run of module-path characters after it.
    fn scan_module_name(&mut self) -> (t: Tok)
        requires
            old(self).wf(),
            old(self).cursor() < old(self).input().len(),
        ensures
            final(self).wf(),
            final(self).input() == old(self).input(),
            final(self).cursor() == old(self).cursor() + module_name_len(
                old(self).input(),
                old(self).cursor(),
            ),
            t@ == STok::ModuleName(
                old(self).input().subrange(
                    old(self).cursor() as int,
                    old(self).cursor() + module_name_len(old(self).input(), old(self).cursor())
                        as int,
                ),
            ),
            t.wf(),
    {
        let e = self.module_run_end();
        proof {
            lemma_module_run_le(self.input(), (self.cursor() + 1) as nat);
        }
        let name = self.text.as_str().substring_char(self.position, e).to_owned();
        let n = e - self.position;
        self.shift(n);
        Tok::ModuleName { name }
    }

    /// The first offset past the maximal run of function-name body
    /// characters at the cursor; consumes nothing.
    fn fn_core_end(&self) -> (r: usize)
        requires
            self.wf(),
            self.cursor() < self.input().len(),
        ensures
            r == self.cursor() + 1 + fn_core_len(self.input(), (self.cursor() + 1) as nat),
    {
        let mut e = self.position + 1;
        loop
            invariant
                self.wf(),
                self.cursor() < self.input().len(),
                self.position + 1 <= e <= self.length,
                self.cursor() + 1 + fn_core_len(self.input(), (self.cursor() + 1) as nat) == e
                    + fn_core_len(self.input(), e as nat),
            ensures
                self.position + 1 <= e <= self.length,
                e == self.cursor() + 1 + fn_core_len(self.input(), (self.cursor() + 1) as nat),
            decreases self.input().len() - e,
        {
            if e >= self.length {
                break;
            }
            let c = self.text.as_str().get_char(e);
            if !fn_core_char(c) {
                break;
            }
            e = e + 1;
        }
        e
    }

    /// Scans a function name: the cursor's lowercase letter, the maximal
    /// run of body characters after it, and one optional trailing `?` or
    /// `!`.
    fn scan_function_name(&mut self) -> (t: Tok)
        requires
            old(self).wf(),
            old(self).cursor() < old(self).input().len(),
        ensures
            final(self).wf(),
            final(self).input() == old(self).input(),
            final(self).cursor() == old(self).cursor() + fn_run_len(
                old(self).input(),
                old(self).cursor(),
            ),
            t@ == STok::FunctionName(
                old(self).input().subrange(
                    old(self).cursor() as int,
                    old(self).cursor() + fn_run_len(old(self).input(), old(self).cursor()) as int,
                ),
            ),
            t.wf(),
    {
        let mut e = self.fn_core_end();
        proof {
            lemma_fn_core_le(self.input(), (self.cursor() + 1) as nat);
        }
        if e < self.length {
            let c = self.text.as_str().get_char(e);
            if c == '?' || c == '!' {
                e = e + 1;
            }
        }
        let name = self.text.as_str().substring_char(self.position, e).to_owned();
        let n = e - self.position;
        self.shift(n);
        Tok::FunctionName { name }
    }

    /// The keyword / structural-symbol scanner: literal whole-token matches,
    /// most specific first.  When no keyword matches, nothing is consumed.
    fn try_keyword(&mut self) -> (r: Option<Tok>)
        requires
            old(self).wf(),
        ensures
            final(self).wf(),
            final(self).input() == old(self).input(),
            match r {
                Some(t) => {
                    &&& kw_step(old(self).input(), old(self).cursor()) matches Some((st, n))
                        && t@ == st && final(self).cursor() == old(self).cursor() + n
                    &&& t.wf()
                },
                None => {
                    &&& kw_step(old(self).input(), old(self).cursor()) is None
                    &&& *final(self) == *old(self)
                },
            },
    {
        proof {
            lemma_literal_lens();
        }
        if self.matches_literal("defmodule").is_some() {
            Some(Tok::DefModule)
        } else if self.matches_literal("defp").is_some() {
            Some(Tok::Defp)
        } else if self.matches_literal("def").is_some() {
            Some(Tok::Def)
        } else if self.matches_literal("end").is_some() {
            Some(Tok::End)
        } else if self.matches_literal("do").is_some() {
            Some(Tok::Do)
        } else if self.matches_literal("true").is_some() {
            Some(Tok::True)
        } else if self.matches_literal("use").is_some() {
            Some(Tok::Use)
        } else if self.matches_literal("[").is_some() {
            Some(Tok::LBracket)
        } else if self.matches_literal("]").is_some() {
            Some(Tok::RBracket)
        } else if self.matches_literal("*").is_some() {
            Some(Tok::Star)
        } else {
            None
        }
    }

    /// The quoted-operator-atom scanner.  Keyword-identifier forms come
    /// first (space-disambiguated, then colon-led), then quoted operators
    /// from three characters down to one, so a longer match always wins.
    /// When no tier matches, nothing is consumed.
    fn try_atom(&mut self) -> (r: Option<Tok>)
        requires
            old(self).wf(),
        ensures
            final(self).wf(),
            final(self).input() == old(self).input(),
            match r {
                Some(t) => {
                    &&& atom_step(old(self).input(), old(self).cursor()) matches Some((st, n))
                        && t@ == st && final(self).cursor() == old(self).cursor() + n
                    &&& t.wf()
                },
                None => {
                    &&& atom_step(old(self).input(), old(self).cursor()) is None
                    &&& *final(self) == *old(self)
                },
            },
    {
        proof {
            lemma_literal_lens();
        }
        if self.looks_at(0, "<<>>:") {
            let l = "<<>>:".unicode_len();
            match self.peek(l) {
                Some(cs) => {
                    if space_char(cs) {
                        self.shift(l);
                        return Some(Tok::KeywordIdentifierAtom { text: "<<>>:".to_owned() });
                    }
                },
                None => {},
            }
        }
        if self.looks_at(0, "...:") {
            let l = "...:".unicode_len();
            match self.peek(l) {
                Some(cs) => {
                    if space_char(cs) {
                        self.shift(l);
                        return Some(Tok::KeywordIdentifierAtom { text: "...:".to_owned() });
                    }
                },
                None => {},
            }
        }
        if self.looks_at(0, "%{}:") {
            let l = "%{}:".unicode_len();
            match self.peek(l) {
                Some(cs) => {
                    if space_char(cs) {
                        self.shift(l);
                        return Some(Tok::KeywordIdentifierAtom { text: "%{}:".to_owned() });
                    }
                },
                None => {},
            }
        }
        if self.looks_at(0, "{}:") {
            let l = "{}:".unicode_len();
            match self.peek(l) {
                Some(cs) => {
                    if space_char(cs) {
                        self.shift(l);
                        return Some(Tok::KeywordIdentifierAtom { text: "{}:".to_owned() });
                    }
                },
                None => {},
            }
        }
        if self.looks_at(0, "%:") {
            let l = "%:".unicode_len();
            match self.peek(l) {
                Some(cs) => {
                    if space_char(cs) {
                        self.shift(l);
                        return Some(Tok::KeywordIdentifierAtom { text: "%:".to_owned() });
                    }
                },
                None => {},
            }
        }
        match self.peek(0) {
            Some(c0) => {
                if c0 == ':' {
                    if self.looks_at(1, "<<>>") {
                        let l = "<<>>".unicode_len();
                        self.shift(1 + l);
                        return Some(Tok::KeywordIdentifierAtom { text: "<<>>".to_owned() });
                    }
                    if self.looks_at(1, "...") {
                        let l = "...".unicode_len();
                        self.shift(1 + l);
                        return Some(Tok::KeywordIdentifierAtom { text: "...".to_owned() });
                    }
                    if self.looks_at(1, "%{}") {
                        let l = "%{}".unicode_len();
                        self.shift(1 + l);
                        return Some(Tok::KeywordIdentifierAtom { text: "%{}".to_owned() });
                    }
                    if self.looks_at(1, "{}") {
                        let l = "{}".unicode_len();
                        self.shift(1 + l);
                        return Some(Tok::KeywordIdentifierAtom { text: "{}".to_owned() });
                    }
                    if self.looks_at(1, "%") {
                        let l = "%".unicode_len();
                        self.shift(1 + l);
                        return Some(Tok::KeywordIdentifierAtom { text: "%".to_owned() });
                    }
                    match (self.peek(1), self.peek(2), self.peek(3)) {
                        (Some(a), Some(b), Some(c)) => {
                            if triple_op(a, b, c) {
                                let text = self.text.as_str().substring_char(
                                    self.position + 1,
                                    self.position + 4,
                                ).to_owned();
                                self.shift(4);
                                return Some(Tok::OperatorAtom { text });
                            }
                        },
                        _ => {},
                    }
                    match (self.peek(1), self.peek(2)) {
                        (Some(a), Some(b)) => {
                            if double_op(a, b) {
                                let text = self.text.as_str().substring_char(
                                    self.position + 1,
                                    self.position + 3,
                                ).to_owned();
                                self.shift(3);
                                return Some(Tok::OperatorAtom { text });
                            }
                        },
                        _ => {},
                    }
                    match self.peek(1) {
                        Some(a) => {
                            if single_op(a) {
                                let text = self.text.as_str().substring_char(
                                    self.position + 1,
                                    self.position + 2,
                                ).to_owned();
                                self.shift(2);
                                return Some(Tok::OperatorAtom { text });
                            }
                        },
                        None => {},
                    }
                }
            },
            None => {},
        }
        None
    }

    /// One pull of the token stream.
    ///
    /// Exactly what the specification model says for the current position:
    /// trivia is consumed silently, the highest-priority rule that matches
    /// emits one token or error, and at the end of the input the pull
    /// returns `None` without moving, indefinitely.
    pub fn next(&mut self) -> (r: Option<Spanned>)
        requires
            old(self).wf(),
        ensures
            final(self).wf(),
            final(self).input() == old(self).input(),
            final(self).cursor() == lex_next(old(self).input(), old(self).cursor()).1,
            emit_matches(r, lex_next(old(self).input(), old(self).cursor()).0),
    {
        loop
            invariant
                self.wf(),
                self.input() == old(self).input(),
                lex_next(self.input(), old(self).cursor()) == lex_next(
                    self.input(),
                    self.cursor(),
                ),
            decreases self.input().len() - self.cursor(),
        {
            let ghost s = self.input();
            let ghost p = self.cursor();
            if self.position >= self.length {
                return None;
            }
            let start = self.position;
            // Rule order: the conflict guard first.
            if self.try_vc() {
                proof {
                    assert(step(s, p) == Step::Give(
                        SEmit::Error(LexicalError::VersionControlMarker),
                        vc_len(s, p),
                    ));
                }
                return Some(Err(LexicalError::VersionControlMarker));
            }
            // Numeric literals.
            if let Some(t) = self.try_number() {
                let end = self.position;
                proof {
                    assert(step(s, p) == Step::Give(
                        SEmit::Token(STok::IntLiteral(num_val(s, p))),
                        num_len(s, p),
                    ));
                }
                return Some(Ok((start, t, end)));
            }
            let c = self.peek(0).unwrap();
            // Comments and whitespace: consumed, never emitted.
            if c == '#' {
                self.shift(1);
                self.skip_to_line_end();
                proof {
                    assert(step(s, p) == Step::Skip(comment_len(s, p)));
                }
                continue;
            }
            if space_char(c) {
                proof {
                    assert(step(s, p) == Step::Skip(1));
                }
                self.shift(1);
                continue;
            }
            // Sigil introducers: the body sub-scanner is a delegated stub,
            // so a recognized introducer is consumed without an emission.
            let mut sigil = false;
            if c == '~' {
                match self.peek(1) {
                    Some(c1) => {
                        if ascii_letter(c1) {
                            sigil = true;
                        }
                    },
                    None => {},
                }
            }
            if sigil {
                match (self.peek(2), self.peek(3), self.peek(4)) {
                    (Some(q2), Some(q3), Some(q4)) => {
                        if quote_char(q2) && q3 == q2 && q4 == q2 {
                            proof {
                                assert(step(s, p) == Step::Skip(5));
                            }
                            self.shift(5);
                            continue;
                        }
                    },
                    _ => {},
                }
                match self.peek(2) {
                    Some(d) => {
                        if sigil_delimiter(d) {
                            proof {
                                assert(step(s, p) == Step::Skip(3));
                            }
                            self.shift(3);
                            continue;
                        }
                    },
                    None => {},
                }
                proof {
                    assert(step(s, p) == Step::Give(SEmit::Error(LexicalError::InvalidSigil), 2));
                }
                self.shift(2);
                return Some(Err(LexicalError::InvalidSigil));
            }
            // Character literals.
            if c == '?' {
                match self.peek(1) {
                    Some(c1) => {
                        if c1 == '\\' {
                            match self.peek(2) {
                                Some(c2) => {
                                    proof {
                                        assert(step(s, p) == Step::Give(
                                            SEmit::Token(STok::CharLiteral(c2)),
                                            3,
                                        ));
                                    }
                                    self.shift(3);
                                    let end = self.position;
                                    return Some(Ok((start, Tok::CharLiteral { code: c2 }, end)));
                                },
                                None => {
                                    proof {
                                        assert(step(s, p) == Step::Give(
                                            SEmit::Token(STok::CharLiteral(c1)),
                                            2,
                                        ));
                                    }
                                    self.shift(2);
                                    let end = self.position;
                                    return Some(Ok((start, Tok::CharLiteral { code: c1 }, end)));
                                },
                            }
                        } else {
                            proof {
                                assert(step(s, p) == Step::Give(
                                    SEmit::Token(STok::CharLiteral(c1)),
                                    2,
                                ));
                            }
                            self.shift(2);
                            let end = self.position;
                            return Some(Ok((start, Tok::CharLiteral { code: c1 }, end)));
                        }
                    },
                    None => {},
                }
            }
            // A bare tripled quote: a heredoc opener, delegated like a sigil.
            if quote_char(c) {
                match (self.peek(1), self.peek(2)) {
                    (Some(b1), Some(b2)) => {
                        if b1 == c && b2 == c {
                            proof {
                                assert(step(s, p) == Step::Skip(3));
                            }
                            self.shift(3);
                            continue;
                        }
                    },
                    _ => {},
                }
            }
            // Quoted-operator atoms and keyword-identifier atoms.
            if let Some(t) = self.try_atom() {
                let end = self.position;
                proof {
                    let (st, n) = atom_step(s, p)->Some_0;
                    assert(step(s, p) == Step::Give(SEmit::Token(st), n));
                }
                return Some(Ok((start, t, end)));
            }
            // Keywords and structural symbols.
            if let Some(t) = self.try_keyword() {
                let end = self.position;
                proof {
                    let (st, n) = kw_step(s, p)->Some_0;
                    assert(step(s, p) == Step::Give(SEmit::Token(st), n));
                }
                return Some(Ok((start, t, end)));
            }
            // Identifiers, dispatched on the case of the first letter.
            if uppercase_char(c) {
                let t = self.scan_module_name();
                let end = self.position;
                proof {
                    assert(step(s, p) == Step::Give(
                        SEmit::Token(
                            STok::ModuleName(
                                s.subrange(p as int, p + module_name_len(s, p) as int),
                            ),
                        ),
                        module_name_len(s, p),
                    ));
                }
                return Some(Ok((start, t, end)));
            }
            if lowercase_char(c) {
                let t = self.scan_function_name();
                let end = self.position;
                proof {
                    assert(step(s, p) == Step::Give(
                        SEmit::Token(
                            STok::FunctionName(s.subrange(p as int, p + fn_run_len(s, p) as int)),
                        ),
                        fn_run_len(s, p),
                    ));
                }
                return Some(Ok((start, t, end)));
            }
            // No rule claims the character: skip it permissively.
            proof {
                assert(step(s, p) == Step::Skip(1));
            }
            self.shift(1);
        }
    }
}

} // verus!
