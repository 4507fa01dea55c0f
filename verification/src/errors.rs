//! The closed taxonomy of extraction failures.
//!
//! These kinds are the sole vocabulary for a failed path extraction; their
//! rendering and their client/server classification live in [`crate::render`]
//! and [`crate::response`] and depend on this exact set.

use vstd::prelude::*;

verus! {

/// The kinds of errors that can happen when deserializing into a
/// [`crate::extract::Path`].
#[derive(Debug)]
pub enum ErrorKind {
    /// The URI contained the wrong number of parameters.
    WrongNumberOfParameters { got: usize, expected: usize },
    /// Failed to parse the value at a specific key into the expected type;
    /// raised for targets with named fields.
    ParseErrorAtKey { key: String, value: String, expected_type: String },
    /// Failed to parse the value at a specific index into the expected
    /// type; raised for sequence targets.
    ParseErrorAtIndex { index: usize, value: String, expected_type: String },
    /// Failed to parse a value into the expected type; raised for a bare
    /// scalar target.
    ParseError { value: String, expected_type: String },
    /// A parameter contained text that, once percent decoded, was not
    /// valid UTF-8.
    InvalidUtf8InPathParam { key: String },
    /// Tried to deserialize into an unsupported type, such as a map nested
    /// inside another map; a programmer error, not a client error.
    UnsupportedType { name: String },
    /// Catch-all variant for errors that fit no other kind.
    Message(String),
}

/// Mathematical mirror of [`ErrorKind`], used by the contracts.
pub enum ErrorKindView {
    WrongNumberOfParameters { got: int, expected: int },
    ParseErrorAtKey { key: Seq<char>, value: Seq<char>, expected_type: Seq<char> },
    ParseErrorAtIndex { index: int, value: Seq<char>, expected_type: Seq<char> },
    ParseError { value: Seq<char>, expected_type: Seq<char> },
    InvalidUtf8InPathParam { key: Seq<char> },
    UnsupportedType { name: Seq<char> },
    Message(Seq<char>),
}

impl View for ErrorKind {
    type V = ErrorKindView;

    open spec fn view(&self) -> ErrorKindView {
        match self {
            ErrorKind::WrongNumberOfParameters { got, expected } => {
                ErrorKindView::WrongNumberOfParameters {
                    got: *got as int,
                    expected: *expected as int,
                }
            },
            ErrorKind::ParseErrorAtKey { key, value, expected_type } => {
                ErrorKindView::ParseErrorAtKey {
                    key: key@,
                    value: value@,
                    expected_type: expected_type@,
                }
            },
            ErrorKind::ParseErrorAtIndex { index, value, expected_type } => {
                ErrorKindView::ParseErrorAtIndex {
                    index: *index as int,
                    value: value@,
                    expected_type: expected_type@,
                }
            },
            ErrorKind::ParseError { value, expected_type } => {
                ErrorKindView::ParseError { value: value@, expected_type: expected_type@ }
            },
            ErrorKind::InvalidUtf8InPathParam { key } => {
                ErrorKindView::InvalidUtf8InPathParam { key: key@ }
            },
            ErrorKind::UnsupportedType { name } => {
                ErrorKindView::UnsupportedType { name: name@ }
            },
            ErrorKind::Message(t) => ErrorKindView::Message(t@),
        }
    }
}

/// Deserializer-level error: wraps an [`ErrorKind`] so that the kind stays
/// recoverable while the error travels to the response rendering.
#[derive(Debug)]
pub struct PathDeserializationError {
    pub kind: ErrorKind,
}

impl View for PathDeserializationError {
    type V = ErrorKindView;

    open spec fn view(&self) -> ErrorKindView {
        self.kind@
    }
}

impl PathDeserializationError {
    /// Wrap `kind`.
    pub fn new(kind: ErrorKind) -> (r: Self)
        ensures
            r@ == kind@,
    {
        PathDeserializationError { kind }
    }

    /// Start an arity-mismatch report; the actual and expected counts
    /// follow through [`WrongNumberOfParameters::got`] and
    /// [`WrongNumberOfParameters::expected`].
    pub fn wrong_number_of_parameters() -> (r: WrongNumberOfParameters<()>)
        ensures
            r.got == (),
    {
        WrongNumberOfParameters { got: () }
    }

    /// An [`ErrorKind::UnsupportedType`] report for the type called `name`.
    pub fn unsupported_type(name: String) -> (r: Self)
        ensures
            r@ == (ErrorKindView::UnsupportedType { name: name@ }),
    {
        Self::new(ErrorKind::UnsupportedType { name })
    }

    /// Catch-all report carrying `msg` verbatim.
    pub fn custom(msg: String) -> (r: Self)
        ensures
            r@ == ErrorKindView::Message(msg@),
    {
        PathDeserializationError { kind: ErrorKind::Message(msg) }
    }
}

/// Builder for an arity-mismatch [`PathDeserializationError`].
pub struct WrongNumberOfParameters<G> {
    pub got: G,
}

impl<G> WrongNumberOfParameters<G> {
    /// Record how many parameters the URI actually carried.
    pub fn got<G2>(self, got: G2) -> (r: WrongNumberOfParameters<G2>)
        ensures
            r.got == got,
    {
        WrongNumberOfParameters { got }
    }
}

impl WrongNumberOfParameters<usize> {
    /// Record how many parameters the target expected, closing the report.
    pub fn expected(self, expected: usize) -> (r: PathDeserializationError)
        ensures
            r@ == (ErrorKindView::WrongNumberOfParameters {
                got: self.got as int,
                expected: expected as int,
            }),
    {
        PathDeserializationError::new(
            ErrorKind::WrongNumberOfParameters { got: self.got, expected },
        )
    }
}

/// Rejection for a path whose captures could not be deserialized into the
/// target type.
#[derive(Debug)]
pub struct FailedToDeserializePathParams(pub PathDeserializationError);

impl View for FailedToDeserializePathParams {
    type V = ErrorKindView;

    open spec fn view(&self) -> ErrorKindView {
        self.0@
    }
}

impl FailedToDeserializePathParams {
    /// Convert this error into the underlying error kind.
    pub fn into_kind(self) -> (r: ErrorKind)
        ensures
            r@ == self@,
    {
        self.0.kind
    }
}

} // verus!
