//! Errors of the decoder: a content mismatch, or a failure of the byte source.
use vstd::prelude::*;

verus! {

#[verifier::external_type_specification]
#[verifier::external_body]
pub struct ExIoError(std::io::Error);

/// Relies on `std::io::Error::from(ErrorKind::UnexpectedEof)`: the error that a
/// read reports when the stream ends before the requested bytes.
#[verifier::external_body]
pub(crate) fn unexpected_eof() -> std::io::Error {
    std::io::Error::from(std::io::ErrorKind::UnexpectedEof)
}

/// What std's `Debug` writes for a byte sequence.
pub uninterp spec fn debug_text_of_bytes(b: Seq<u8>) -> Seq<char>;

/// What std's `Debug` writes for a string: quoted, with escapes.
pub uninterp spec fn debug_text_of_str(s: Seq<char>) -> Seq<char>;

/// Relies on `<Vec<u8> as Debug>::fmt`: its text depends on the bytes alone.
#[verifier::external_body]
fn bytes_debug_text(b: &Vec<u8>) -> (r: String)
    ensures
        r@ == debug_text_of_bytes(b@),
{
    format!("{:?}", b)
}

/// Relies on `<str as Debug>::fmt`: its text depends on the characters alone.
#[verifier::external_body]
fn str_debug_text(s: &str) -> (r: String)
    ensures
        r@ == debug_text_of_str(s@),
{
    format!("{:?}", s)
}

/// Relies on `<std::io::Error as Debug>::fmt`, which describes the error.
#[verifier::external_body]
fn io_error_debug_text(e: &std::io::Error) -> String {
    format!("{:?}", e)
}

/// Bytes were present but did not have the expected shape.
pub struct ExpectedError {
    /// What the decoder expected to find.
    pub expected: &'static str,
    /// The bytes that were found instead.
    pub received: Vec<u8>,
    /// The failure of the byte source behind the mismatch, where there is one.
    pub source: Option<std::io::Error>,
}

/// The byte source failed while the decoder was doing `context`.
pub struct UnexpectedIoError {
    pub context: &'static str,
    pub source: std::io::Error,
}

pub enum ParseError {
    Expected(ExpectedError),
    UnexpectedIo(UnexpectedIoError),
}

pub type ParseResult<T> = Result<T, ParseError>;

impl ParseError {
    /// A content mismatch: `what` was expected, `received` was found.
    pub fn expected(what: &'static str, received: Vec<u8>, source: std::io::Error) -> (r: Self)
        ensures
            r == ParseError::Expected(
                ExpectedError { expected: what, received, source: Some(source) },
            ),
    {
        ParseError::Expected(ExpectedError { expected: what, received, source: Some(source) })
    }

    /// A content mismatch with no failure of the byte source behind it.
    pub fn expected_without_source(what: &'static str, received: Vec<u8>) -> (r: Self)
        ensures
            r == ParseError::Expected(ExpectedError { expected: what, received, source: None }),
    {
        ParseError::Expected(ExpectedError { expected: what, received, source: None })
    }

    /// A failure of the byte source while doing `context`.
    pub fn unexpected(context: &'static str, source: std::io::Error) -> (r: Self)
        ensures
            r == ParseError::UnexpectedIo(UnexpectedIoError { context, source }),
    {
        ParseError::UnexpectedIo(UnexpectedIoError { context, source })
    }
}

impl ParseError {
    /// Whether this is a failure of the byte source while doing `label`.
    pub open spec fn is_io_failure(&self, label: Seq<char>) -> bool {
        self matches ParseError::UnexpectedIo(e) && e.context@ == label
    }

    /// Whether this is a content mismatch that expected `label` and received `got`.
    pub open spec fn is_mismatch(&self, label: Seq<char>, got: Seq<u8>) -> bool {
        self matches ParseError::Expected(e) && e.expected@ == label && e.received@ == got
    }

    /// The one-line description of the error.
    pub open spec fn message_view(&self) -> Seq<char> {
        match self {
            ParseError::Expected(e) => "Expected "@ + e.expected@ + " but received "@
                + debug_text_of_bytes(e.received@),
            ParseError::UnexpectedIo(e) => "Unexpected IO error while "@ + e.context@,
        }
    }

    /// The detailed description, without the failure of the byte source.
    pub open spec fn detail_view(&self) -> Seq<char> {
        match self {
            ParseError::Expected(_) => self.message_view(),
            ParseError::UnexpectedIo(e) => "Unexpected IO error while "@ + debug_text_of_str(
                e.context@,
            ),
        }
    }

    /// The failure of the byte source behind the error, where there is one.
    pub open spec fn source_view(&self) -> Option<std::io::Error> {
        match self {
            ParseError::Expected(e) => e.source,
            ParseError::UnexpectedIo(e) => Some(e.source),
        }
    }

    /// The one-line description: what was expected and what was received, or
    /// which operation the byte source failed in.
    pub fn message(&self) -> (r: String)
        ensures
            r@ == self.message_view(),
    {
        match self {
            ParseError::Expected(e) => {
                let mut out = String::from_str("Expected ");
                out.append(e.expected);
                out.append(" but received ");
                let received = bytes_debug_text(&e.received);
                out.append(received.as_str());
                out
            },
            ParseError::UnexpectedIo(e) => {
                let mut out = String::from_str("Unexpected IO error while ");
                out.append(e.context);
                out
            },
        }
    }

    /// The detailed description: the operation of a failure of the byte source
    /// is quoted, and where a failure of the byte source lies behind the error,
    /// a blank line and that failure's own description follow.
    pub fn debug_message(&self) -> (r: String)
        ensures
            self.source_view() is None ==> r@ == self.detail_view(),
            self.source_view() is Some ==> exists|text: Seq<char>|
                r@ == self.detail_view() + "\n\nSource: "@ + text,
    {
        let mut out = match self {
            ParseError::Expected(_) => self.message(),
            ParseError::UnexpectedIo(e) => {
                let mut out = String::from_str("Unexpected IO error while ");
                let context = str_debug_text(e.context);
                out.append(context.as_str());
                out
            },
        };
        match self.source() {
            Some(source) => {
                out.append("\n\nSource: ");
                let text = io_error_debug_text(source);
                out.append(text.as_str());
                proof {
                    assert(out@ == self.detail_view() + "\n\nSource: "@ + text@);
                }
            },
            None => {},
        }
        out
    }

    /// The failure of the byte source behind the error, where there is one.
    pub fn source(&self) -> (r: Option<&std::io::Error>)
        ensures
            r matches Some(e) ==> self.source_view() == Some(*e),
            r is None <==> self.source_view() is None,
    {
        match self {
            ParseError::Expected(e) => match &e.source {
                Some(source) => Some(source),
                None => None,
            },
            ParseError::UnexpectedIo(e) => Some(&e.source),
        }
    }
}

/// Labels a failure of the byte source with the operation that was under way.
pub trait ParserContext<T>: Sized {
    /// The result of labelling `self` with `ctx`.
    spec fn with_context(self, ctx: &'static str) -> ParseResult<T>;

    fn context(self, ctx: &'static str) -> (r: ParseResult<T>)
        ensures
            r == self.with_context(ctx),
    ;
}

impl<T> ParserContext<T> for Result<T, std::io::Error> {
    open spec fn with_context(self, ctx: &'static str) -> ParseResult<T> {
        match self {
            Ok(v) => Ok(v),
            Err(e) => Err(ParseError::UnexpectedIo(UnexpectedIoError { context: ctx, source: e })),
        }
    }

    fn context(self, ctx: &'static str) -> (r: ParseResult<T>) {
        match self {
            Ok(v) => Ok(v),
            Err(source) => Err(
                ParseError::UnexpectedIo(UnexpectedIoError { context: ctx, source }),
            ),
        }
    }
}

} // verus!
