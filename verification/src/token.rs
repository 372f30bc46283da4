//! Tokens, lexical errors, and their abstract views.
//!
//! A pull from the token stream yields a spanned token or a lexical error.
//! Spans are absolute character offsets into the source buffer, with the
//! start inclusive and the end exclusive.  The abstract view of a token,
//! [`crate::model::STok`], replaces each `String` by its character sequence
//! and a [`crate::natural::Natural`] by the natural number it denotes; the
//! specification model speaks only of views.

use vstd::prelude::*;
use crate::model::STok;
use crate::natural::Natural;

verus! {

/// The closed set of token variants.
///
/// `ModuleName`, `FunctionName` and `OperatorAtom` carry exactly the source
/// text the token consumed.  A `KeywordIdentifierAtom` carries the symbol
/// form: for the colon-led spelling (`:<<>>`) the text after the colon, for
/// the space-disambiguated spelling (`<<>>:`) the full consumed text,
/// trailing colon included, so the two spellings stay distinct.
/// `CharLiteral` of an escaped form (`?\n`) carries the escaped character
/// verbatim as a placeholder: escape decoding is delegated to a sub-scanner
/// outside this core.  `Star` is a single-character sentinel retained for
/// self-tests.
#[derive(Clone, Debug, PartialEq)]
pub enum Tok {
    Def,
    Defp,
    DefModule,
    Do,
    End,
    Use,
    True,
    LBracket,
    RBracket,
    ModuleName { name: String },
    FunctionName { name: String },
    IntLiteral { value: Natural },
    CharLiteral { code: char },
    OperatorAtom { text: String },
    KeywordIdentifierAtom { text: String },
    Star,
}

/// The two lexical errors.  Both are local and recoverable: each occupies
/// exactly one pull and the stream resumes after the consumed text.
#[derive(Clone, Copy, Debug, PartialEq, Eq, Structural)]
pub enum LexicalError {
    /// An unresolved merge-conflict marker line, recognized only at column 0.
    VersionControlMarker,
    /// A sigil introducer with no recognized delimiter after its name.
    InvalidSigil,
}

/// One stream item: a token with its span, or a lexical error.
pub type Spanned = Result<(usize, Tok, usize), LexicalError>;

impl View for Tok {
    type V = STok;

    open spec fn view(&self) -> STok {
        match self {
            Tok::Def => STok::Def,
            Tok::Defp => STok::Defp,
            Tok::DefModule => STok::DefModule,
            Tok::Do => STok::Do,
            Tok::End => STok::End,
            Tok::Use => STok::Use,
            Tok::True => STok::True,
            Tok::LBracket => STok::LBracket,
            Tok::RBracket => STok::RBracket,
            Tok::ModuleName { name } => STok::ModuleName(name@),
            Tok::FunctionName { name } => STok::FunctionName(name@),
            Tok::IntLiteral { value } => STok::IntLiteral(value@),
            Tok::CharLiteral { code } => STok::CharLiteral(*code),
            Tok::OperatorAtom { text } => STok::OperatorAtom(text@),
            Tok::KeywordIdentifierAtom { text } => STok::KeywordIdentifierAtom(text@),
            Tok::Star => STok::Star,
        }
    }
}

impl Tok {
    /// A literal token holds a canonical `Natural`; all other variants are
    /// unconstrained.
    pub open spec fn wf(&self) -> bool {
        match self {
            Tok::IntLiteral { value } => value.wf(),
            _ => true,
        }
    }
}

} // verus!
