//! The ways in which parsing and resolution fail.

use vstd::prelude::*;
use crate::qualifier::{Qualifier, QualifierView};
use crate::span::Span;

verus! {

/// `std::io::Error`, which a failure to read a file is carried in. It is
/// handed on as it comes: nothing is said of what it holds.
#[verifier::external_type_specification]
#[verifier::external_body]
pub struct ExIoError(std::io::Error);

/// A failure of the front end. Positions count characters from the start of
/// the module's text.
#[derive(Debug)]
pub enum ParseError {
    /// A module's file could not be read.
    Io(std::io::Error),
    /// The module name holds a `.`.
    ModuleName(String),
    /// No identifier starts at the position.
    ExpectedIdentifier(usize),
    /// The text at the position does not start with the symbol.
    ExpectedSymbol(String, usize),
    /// Two qualifiers of one name were attached to one declaration: the later
    /// one, then the earlier one.
    DuplicateQualifier(Qualifier, Qualifier),
    /// Two functions of one module share the name: the extent of the later
    /// one, then that of the earlier one.
    DuplicateFunction(String, Span, Span),
    /// Two structures of one module share the name: the extent of the later
    /// one, then that of the earlier one.
    DuplicateStructure(String, Span, Span),
    /// The text ended while qualifiers were still waiting for a declaration.
    UnexpectedEOF,
    /// The identifier names no primitive type.
    UnknownType,
}

impl From<std::io::Error> for ParseError {
    /// A failure to read a module's file is a failure of the resolution.
    fn from(from: std::io::Error) -> (r: Self) {
        ParseError::Io(from)
    }
}

impl vstd::std_specs::convert::FromSpecImpl<std::io::Error> for ParseError {
    open spec fn obeys_from_spec() -> bool {
        true
    }

    open spec fn from_spec(from: std::io::Error) -> Self {
        ParseError::Io(from)
    }
}

/// What a [`ParseError`] says, with texts as sequences of characters.
pub enum ParseErrorView {
    Io,
    ModuleName(Seq<char>),
    ExpectedIdentifier(usize),
    ExpectedSymbol(Seq<char>, usize),
    DuplicateQualifier(QualifierView, QualifierView),
    DuplicateFunction(Seq<char>, Span, Span),
    DuplicateStructure(Seq<char>, Span, Span),
    UnexpectedEOF,
    UnknownType,
}

impl View for ParseError {
    type V = ParseErrorView;

    open spec fn view(&self) -> ParseErrorView {
        match self {
            ParseError::Io(_) => ParseErrorView::Io,
            ParseError::ModuleName(name) => ParseErrorView::ModuleName(name@),
            ParseError::ExpectedIdentifier(pos) => ParseErrorView::ExpectedIdentifier(*pos),
            ParseError::ExpectedSymbol(symbol, pos) => ParseErrorView::ExpectedSymbol(
                symbol@,
                *pos,
            ),
            ParseError::DuplicateQualifier(later, earlier) => ParseErrorView::DuplicateQualifier(
                later@,
                earlier@,
            ),
            ParseError::DuplicateFunction(name, later, earlier) => {
                ParseErrorView::DuplicateFunction(name@, *later, *earlier)
            },
            ParseError::DuplicateStructure(name, later, earlier) => {
                ParseErrorView::DuplicateStructure(name@, *later, *earlier)
            },
            ParseError::UnexpectedEOF => ParseErrorView::UnexpectedEOF,
            ParseError::UnknownType => ParseErrorView::UnknownType,
        }
    }
}

/// The failures that the grammar of a declaration can raise: a missing
/// identifier, a missing symbol, or a type name that spells no primitive.
pub open spec fn is_syntax_error(error: ParseErrorView) -> bool {
    error is ExpectedIdentifier || error is ExpectedSymbol || error is UnknownType
}

/// What a parser does on a given text: what it returns, and how many
/// characters it takes from the front of the text, also where it fails.
pub struct Outcome<T> {
    pub result: Result<T, ParseErrorView>,
    pub consumed: nat,
}

/// The result of a parser, with the value or the error seen through its view.
pub open spec fn result_view<T: View>(r: Result<T, ParseError>) -> Result<T::V, ParseErrorView> {
    match r {
        Ok(value) => Ok(value@),
        Err(error) => Err(error@),
    }
}

/// A parser that started on `before` with the cursor at `start` took
/// `consumed` characters: it left the text without them, and moved the cursor
/// by their number.
pub open spec fn moved(
    before: Seq<char>,
    start: usize,
    after: Seq<char>,
    end: usize,
    consumed: nat,
) -> bool {
    &&& consumed <= before.len()
    &&& after == before.skip(consumed as int)
    &&& end == start + consumed
}

/// A parser that started on `before` with the cursor at `start` did what
/// `outcome` says: it returned `r`, and took the characters that the outcome
/// counts.
pub open spec fn parsed<T: View>(
    before: Seq<char>,
    start: usize,
    after: Seq<char>,
    end: usize,
    r: Result<T, ParseError>,
    outcome: Outcome<T::V>,
) -> bool {
    &&& moved(before, start, after, end, outcome.consumed)
    &&& result_view(r) == outcome.result
}

} // verus!
