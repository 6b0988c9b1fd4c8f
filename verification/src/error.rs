use vstd::prelude::*;

verus! {

/// Why a line, or a token of it, could not be read.
#[derive(Debug, PartialEq, Eq)]
pub enum ParseError {
    /// A token was not of the expected kind: the kind's name, then the token.
    TypeMismatch(&'static str, String),
    /// The words after `BFC` are no known statement.
    InvalidBfcStatement(String),
    /// A fixed word or character was expected and something else was found.
    InvalidToken(String),
    /// No token is left on the line.
    EndOfLine,
    /// The line does not begin with one of the six line types.
    UnexpectedCommand(String),
    /// A `FILE` line in a document that must not have sub-models.
    MultipartDocument,
}

/// The mathematical value of a [`ParseError`].
pub enum ParseErrorView {
    TypeMismatch(Seq<char>, Seq<char>),
    InvalidBfcStatement(Seq<char>),
    InvalidToken(Seq<char>),
    EndOfLine,
    UnexpectedCommand(Seq<char>),
    MultipartDocument,
}

impl View for ParseError {
    type V = ParseErrorView;

    open spec fn view(&self) -> ParseErrorView {
        match self {
            ParseError::TypeMismatch(kind, token) => ParseErrorView::TypeMismatch(kind@, token@),
            ParseError::InvalidBfcStatement(token) => ParseErrorView::InvalidBfcStatement(token@),
            ParseError::InvalidToken(token) => ParseErrorView::InvalidToken(token@),
            ParseError::EndOfLine => ParseErrorView::EndOfLine,
            ParseError::UnexpectedCommand(token) => ParseErrorView::UnexpectedCommand(token@),
            ParseError::MultipartDocument => ParseErrorView::MultipartDocument,
        }
    }
}

/// Whether the result `r` of a parser is what `model` says it is: the value
/// that `model` gives, or the error that it gives.
pub open spec fn agrees<T: View, E: View>(r: Result<T, E>, model: Result<T::V, E::V>) -> bool {
    match r {
        Ok(v) => model == Ok::<T::V, E::V>(v@),
        Err(e) => model == Err::<T::V, E::V>(e@),
    }
}

/// Why a document could not be read: the line, counted from one, and what
/// was wrong with it.
#[derive(Debug, PartialEq, Eq)]
pub struct DocumentParseError {
    pub line: usize,
    pub error: ParseError,
}

/// The mathematical value of a [`DocumentParseError`].
pub struct DocumentParseErrorView {
    pub line: int,
    pub error: ParseErrorView,
}

impl View for DocumentParseError {
    type V = DocumentParseErrorView;

    open spec fn view(&self) -> DocumentParseErrorView {
        DocumentParseErrorView { line: self.line as int, error: self.error@ }
    }
}

/// Why a palette could not be read.
#[derive(Debug, PartialEq, Eq)]
pub enum ColorDefinitionParseError {
    /// A `COLOUR` header is not written as it must be.
    ParseError(ParseError),
    /// The file that holds the palette could not be read as a document.
    DocumentParseError(DocumentParseError),
    /// A `MATERIAL` names a finish that is not known.
    UnknownMaterial(String),
}

/// The mathematical value of a [`ColorDefinitionParseError`].
pub enum ColorDefinitionParseErrorView {
    ParseError(ParseErrorView),
    DocumentParseError(DocumentParseErrorView),
    UnknownMaterial(Seq<char>),
}

impl View for ColorDefinitionParseError {
    type V = ColorDefinitionParseErrorView;

    open spec fn view(&self) -> ColorDefinitionParseErrorView {
        match self {
            ColorDefinitionParseError::ParseError(e) => ColorDefinitionParseErrorView::ParseError(e@),
            ColorDefinitionParseError::DocumentParseError(e) => {
                ColorDefinitionParseErrorView::DocumentParseError(e@)
            },
            ColorDefinitionParseError::UnknownMaterial(token) => {
                ColorDefinitionParseErrorView::UnknownMaterial(token@)
            },
        }
    }
}

} // verus!
