//! Errors of tokenizing and of building a cue sheet, and the position
//! attached to them.

use vstd::prelude::*;
use vstd::std_specs::cmp::PartialEqSpecImpl;
use vstd::std_specs::convert::FromSpecImpl;
use vstd::string::*;
use crate::decimal::decimal;
use crate::decimal::push_decimal;

verus! {

/// What is wrong with a directive's argument.
#[derive(Debug, PartialEq, Eq, Structural, Hash, Copy, Clone)]
pub enum InvalidArgument {
    /// A timestamp is not of the form `MM:SS:FF`, or its seconds or frames
    /// are out of range.
    InvalidTimestamp,
    /// A required argument is missing.
    MissingArgument,
    /// An id is not made of two digits or is above 99, or a catalog number
    /// is not made of 13 digits.
    InvalidId,
}

impl InvalidArgument {
    /// The message of this error.
    pub open spec fn text(self) -> Seq<char> {
        match self {
            InvalidArgument::InvalidTimestamp => "Invalid timestamp"@,
            InvalidArgument::MissingArgument => "Missing arguments"@,
            InvalidArgument::InvalidId => "Invalid id"@,
        }
    }

    /// Renders the message of this error.
    pub fn to_string(&self) -> (r: String)
        ensures
            r@ == self.text(),
    {
        match self {
            InvalidArgument::InvalidTimestamp => String::from_str("Invalid timestamp"),
            InvalidArgument::MissingArgument => String::from_str("Missing arguments"),
            InvalidArgument::InvalidId => String::from_str("Invalid id"),
        }
    }
}

/// `std::io::Error`, the error of a failed read.  Nothing of what it holds
/// is visible here; it is carried through as it is.
#[verifier::external_type_specification]
#[verifier::external_body]
pub struct ExIoError(std::io::Error);

/// Why a line could not be tokenized or applied.
#[derive(Debug)]
pub enum ParseError {
    /// A directive is malformed, or it breaks a rule on the order or the
    /// number of directives.
    SyntaxError(String),
    /// The keyword of a directive is not known.
    UnexpectedToken(String),
    /// An argument of a directive is not valid.
    InvalidArgument(InvalidArgument),
    /// Reading the input failed.  Neither tokenizing nor applying a line
    /// gives this error.
    IoError(std::io::Error),
}

/// A `ParseError` with its messages as sequences of characters.
pub enum ParseErrorView {
    SyntaxError(Seq<char>),
    UnexpectedToken(Seq<char>),
    InvalidArgument(InvalidArgument),
    IoError,
}

impl ParseErrorView {
    /// The text of an error: the name of its kind and its message, or the
    /// message alone for an invalid argument.  An I/O error has a text of
    /// its own behind the name of its kind, which is not part of this.
    pub open spec fn text(self) -> Seq<char> {
        match self {
            ParseErrorView::SyntaxError(m) => "SyntaxError: "@ + m,
            ParseErrorView::UnexpectedToken(m) => "UnexpetedToken: "@ + m,
            ParseErrorView::InvalidArgument(e) => e.text(),
            ParseErrorView::IoError => "IoError: "@,
        }
    }
}

impl View for ParseError {
    type V = ParseErrorView;

    open spec fn view(&self) -> ParseErrorView {
        match self {
            ParseError::SyntaxError(m) => ParseErrorView::SyntaxError(m@),
            ParseError::UnexpectedToken(m) => ParseErrorView::UnexpectedToken(m@),
            ParseError::InvalidArgument(e) => ParseErrorView::InvalidArgument(*e),
            ParseError::IoError(_) => ParseErrorView::IoError,
        }
    }
}

/// Two errors are of the same kind and, where they are invalid arguments,
/// the same.  This is what `==` tests on errors.
pub open spec fn same_kind(a: ParseErrorView, b: ParseErrorView) -> bool {
    match (a, b) {
        (ParseErrorView::InvalidArgument(x), ParseErrorView::InvalidArgument(y)) => x == y,
        (ParseErrorView::SyntaxError(_), ParseErrorView::SyntaxError(_)) => true,
        (ParseErrorView::UnexpectedToken(_), ParseErrorView::UnexpectedToken(_)) => true,
        (ParseErrorView::IoError, ParseErrorView::IoError) => true,
        _ => false,
    }
}

/// Message of a syntax error: what is wrong, a colon, and why.
pub open spec fn syntax_message(content: Seq<char>, description: Seq<char>) -> Seq<char> {
    content + ": "@ + description
}

/// Renders an I/O error with `std::io::Error`'s `Display`.  Nothing is
/// claimed of the text.
#[verifier::external_body]
fn io_error_text(e: &std::io::Error) -> String {
    format!("{}", e)
}

impl ParseError {
    /// A syntax error that says what is wrong (`content`) and why
    /// (`description`).
    pub fn syntax_error(content: &str, description: &str) -> (r: Self)
        ensures
            r@ == ParseErrorView::SyntaxError(syntax_message(content@, description@)),
    {
        let mut m = String::from_str(content);
        m.append(": ");
        m.append(description);
        ParseError::SyntaxError(m)
    }

    /// An error for a keyword that is not known.
    pub fn unexpected_token(msg: &str) -> (r: Self)
        ensures
            r@ == ParseErrorView::UnexpectedToken(msg@),
    {
        ParseError::UnexpectedToken(String::from_str(msg))
    }

    /// A syntax error with the given message.
    pub fn err_msg(msg: &str) -> (r: Self)
        ensures
            r@ == ParseErrorView::SyntaxError(msg@),
    {
        ParseError::SyntaxError(String::from_str(msg))
    }

    /// Renders this error: the name of its kind and its message.  Of an I/O
    /// error only the start of the text is stated, which is the name of the
    /// kind.
    pub fn to_string(&self) -> (r: String)
        ensures
            self@ is IoError ==> self@.text().is_prefix_of(r@),
            !(self@ is IoError) ==> r@ == self@.text(),
    {
        match self {
            ParseError::SyntaxError(m) => String::from_str("SyntaxError: ").concat(m.as_str()),
            ParseError::UnexpectedToken(m) => String::from_str("UnexpetedToken: ").concat(
                m.as_str(),
            ),
            ParseError::InvalidArgument(e) => e.to_string(),
            ParseError::IoError(e) => {
                let t = io_error_text(e);
                let r = String::from_str("IoError: ").concat(t.as_str());
                r
            },
        }
    }
}

impl PartialEq for ParseError {
    /// Two errors are equal where they are of the same kind; two invalid
    /// arguments, where they are the same.  Messages are not compared.
    fn eq(&self, other: &Self) -> (r: bool) {
        match (self, other) {
            (ParseError::InvalidArgument(a), ParseError::InvalidArgument(b)) => *a == *b,
            (ParseError::SyntaxError(_), ParseError::SyntaxError(_)) => true,
            (ParseError::UnexpectedToken(_), ParseError::UnexpectedToken(_)) => true,
            (ParseError::IoError(_), ParseError::IoError(_)) => true,
            _ => false,
        }
    }
}

impl PartialEqSpecImpl for ParseError {
    open spec fn obeys_eq_spec() -> bool {
        true
    }

    open spec fn eq_spec(&self, other: &Self) -> bool {
        same_kind(self@, other@)
    }
}

impl From<InvalidArgument> for ParseError {
    fn from(e: InvalidArgument) -> (r: Self) {
        ParseError::InvalidArgument(e)
    }
}

impl FromSpecImpl<InvalidArgument> for ParseError {
    open spec fn obeys_from_spec() -> bool {
        true
    }

    open spec fn from_spec(e: InvalidArgument) -> Self {
        ParseError::InvalidArgument(e)
    }
}

impl From<std::io::Error> for ParseError {
    fn from(e: std::io::Error) -> (r: Self) {
        ParseError::IoError(e)
    }
}

impl FromSpecImpl<std::io::Error> for ParseError {
    open spec fn obeys_from_spec() -> bool {
        true
    }

    open spec fn from_spec(e: std::io::Error) -> Self {
        ParseError::IoError(e)
    }
}

/// A `ParseError` and the line it was found at.
#[derive(Debug)]
pub struct Error {
    error: ParseError,
    at: Option<usize>,
}

/// An `Error` as its kind and its line.
pub struct ErrorView {
    pub kind: ParseErrorView,
    pub at: Option<usize>,
}

impl View for Error {
    type V = ErrorView;

    closed spec fn view(&self) -> ErrorView {
        ErrorView { kind: self.error@, at: self.at }
    }
}

impl Error {
    /// The kind of this error, as a value of specifications.
    pub closed spec fn spec_kind(&self) -> ParseError {
        self.error
    }

    /// The error of kind `error` that has no line.
    pub closed spec fn without_line(error: ParseError) -> Error {
        Error { error, at: None }
    }

    /// An error at line `at`, counted from 1.
    pub fn new(error: ParseError, at: usize) -> (r: Self)
        ensures
            r@ == (ErrorView { kind: error@, at: Some(at) }),
            r.spec_kind() == error,
    {
        Self { error, at: Some(at) }
    }

    /// An error without a line.
    pub fn from_parse_error(error: ParseError) -> (r: Self)
        ensures
            r == Self::without_line(error),
            r@ == (ErrorView { kind: error@, at: None }),
            r.spec_kind() == error,
    {
        Self { error, at: None }
    }

    /// The kind of this error.
    pub fn kind(&self) -> (r: &ParseError)
        ensures
            *r == self.spec_kind(),
            r@ == self@.kind,
    {
        &self.error
    }

    /// The kind of this error, without its line.
    pub fn into_kind(self) -> (r: ParseError)
        ensures
            r == self.spec_kind(),
            r@ == self@.kind,
    {
        self.error
    }

    /// The line of this error, counted from 1, where it has one.
    pub fn at(&self) -> (r: &Option<usize>)
        ensures
            *r == self@.at,
    {
        &self.at
    }

    /// The line of this error, counted from 1, where it has one.
    pub fn pos(&self) -> (r: Option<usize>)
        ensures
            r == self@.at,
    {
        self.at
    }

    /// Renders this error: the text of its kind, followed by ` at line ` and
    /// the line where it has one.  Of an I/O error only the start and the
    /// end of the text are stated.
    pub fn to_string(&self) -> (r: String)
        ensures
            !(self@.kind is IoError) ==> r@ == self@.kind.text() + Self::suffix(self@.at),
            self@.kind is IoError ==> self@.kind.text().is_prefix_of(r@) && Self::suffix(
                self@.at,
            ).is_suffix_of(r@),
    {
        let mut r = self.error.to_string();
        match self.at {
            Some(l) => {
                r.append(" at line ");
                push_decimal(&mut r, l as u64);
            },
            None => {},
        }
        r
    }

    /// What follows the kind's text in the text of an error.
    pub open spec fn suffix(at: Option<usize>) -> Seq<char> {
        match at {
            Some(l) => " at line "@ + decimal(l as nat),
            None => Seq::<char>::empty(),
        }
    }
}

impl PartialEq for Error {
    /// Two errors are equal where their kinds are; lines are not compared.
    fn eq(&self, other: &Self) -> (r: bool) {
        self.error == other.error
    }
}

impl PartialEqSpecImpl for Error {
    open spec fn obeys_eq_spec() -> bool {
        true
    }

    open spec fn eq_spec(&self, other: &Self) -> bool {
        same_kind(self@.kind, other@.kind)
    }
}

impl From<ParseError> for Error {
    fn from(e: ParseError) -> (r: Self) {
        Error::from_parse_error(e)
    }
}

impl FromSpecImpl<ParseError> for Error {
    open spec fn obeys_from_spec() -> bool {
        true
    }

    open spec fn from_spec(e: ParseError) -> Self {
        Error::without_line(e)
    }
}

impl From<InvalidArgument> for Error {
    fn from(e: InvalidArgument) -> (r: Self) {
        Error::from_parse_error(ParseError::InvalidArgument(e))
    }
}

impl FromSpecImpl<InvalidArgument> for Error {
    open spec fn obeys_from_spec() -> bool {
        true
    }

    open spec fn from_spec(e: InvalidArgument) -> Self {
        Error::without_line(ParseError::InvalidArgument(e))
    }
}

impl From<std::io::Error> for Error {
    fn from(e: std::io::Error) -> (r: Self) {
        Error::from_parse_error(ParseError::IoError(e))
    }
}

impl FromSpecImpl<std::io::Error> for Error {
    open spec fn obeys_from_spec() -> bool {
        true
    }

    open spec fn from_spec(e: std::io::Error) -> Self {
        Error::without_line(ParseError::IoError(e))
    }
}

} // verus!
