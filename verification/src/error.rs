use vstd::prelude::*;
use vstd::pervasive::arbitrary;

verus! {

/// The error type of `reqwest`, carried as the cause of a [`CommonError`].
#[verifier::external_type_specification]
#[verifier::external_body]
pub struct ExReqwestError(reqwest::Error);

/// The error type of `serde_json`, carried as the cause of a [`CommonError`].
#[verifier::external_type_specification]
#[verifier::external_body]
pub struct ExJsonError(serde_json::Error);

/// The I/O error type of std, carried as the cause of a [`CommonError`].
#[verifier::external_type_specification]
#[verifier::external_body]
pub struct ExIoError(std::io::Error);

/// What went wrong, in the two kinds the program tells apart.
#[derive(Debug, Clone, Copy, PartialEq, Eq, Structural)]
pub enum ErrorType {
    IoError,
    ParingError,
}

/// The underlying error that a [`CommonError`] was made from.
#[derive(Debug)]
pub enum ErrorCause {
    Http(reqwest::Error),
    Json(serde_json::Error),
    Io(std::io::Error),
}

/// The error of every fallible operation of the library.
#[derive(Debug)]
pub struct CommonError {
    error: ErrorType,
    msg: String,
    cause: Option<ErrorCause>,
}

impl CommonError {
    /// The kind of the error.
    pub closed spec fn kind(&self) -> ErrorType {
        self.error
    }

    /// The message of the error.
    pub closed spec fn message(&self) -> Seq<char> {
        self.msg@
    }

    /// The underlying error, if any.
    pub closed spec fn origin(&self) -> Option<ErrorCause> {
        self.cause
    }

    /// Makes an error; a missing message becomes the empty message.
    pub fn new(error: ErrorType, msg: Option<String>, cause: Option<ErrorCause>) -> (r: Self)
        ensures
            r.kind() == error,
            r.message() == (match msg {
                Some(m) => m@,
                None => Seq::<char>::empty(),
            }),
            r.origin() == cause,
    {
        let msg = match msg {
            Some(m) => m,
            None => String::new(),
        };
        CommonError { error, msg, cause }
    }

    /// The error that a failed HTTP exchange becomes: an I/O error with an
    /// empty message, caused by the `reqwest` error.
    pub fn from_http_error(value: reqwest::Error) -> (r: Self)
        ensures
            r.kind() == ErrorType::IoError,
            r.message() == Seq::<char>::empty(),
            r.origin() == Some(ErrorCause::Http(value)),
    {
        CommonError { cause: Some(ErrorCause::Http(value)), error: ErrorType::IoError, msg: String::new() }
    }

    /// The error that a JSON text that does not parse becomes: a parsing
    /// error with an empty message, caused by the `serde_json` error.
    pub fn from_json_error(value: serde_json::Error) -> (r: Self)
        ensures
            r.kind() == ErrorType::ParingError,
            r.message() == Seq::<char>::empty(),
            r.origin() == Some(ErrorCause::Json(value)),
    {
        CommonError { cause: Some(ErrorCause::Json(value)), error: ErrorType::ParingError, msg: String::new() }
    }

    /// The error that an I/O failure becomes: an I/O error with an empty
    /// message, caused by the I/O error.
    pub fn from_io_error(value: std::io::Error) -> (r: Self)
        ensures
            r.kind() == ErrorType::IoError,
            r.message() == Seq::<char>::empty(),
            r.origin() == Some(ErrorCause::Io(value)),
    {
        CommonError { cause: Some(ErrorCause::Io(value)), error: ErrorType::IoError, msg: String::new() }
    }

    /// The kind of the error.
    pub fn error_type(&self) -> (r: ErrorType)
        ensures
            r == self.kind(),
    {
        self.error
    }

    /// The message of the error.
    pub fn msg(&self) -> (r: &String)
        ensures
            r@ == self.message(),
    {
        &self.msg
    }

    /// The underlying error, if any (what `std::error::Error::source` gives).
    pub fn source(&self) -> (r: Option<&ErrorCause>)
        ensures
            match r {
                Some(c) => self.origin() == Some(*c),
                None => self.origin() is None,
            },
    {
        match &self.cause {
            Some(c) => Some(c),
            None => None,
        }
    }

    /// The kind, message and cause of the error, taken apart.
    pub fn into_parts(self) -> (r: (ErrorType, String, Option<ErrorCause>))
        ensures
            r.0 == self.kind(),
            r.1@ == self.message(),
            r.2 == self.origin(),
    {
        (self.error, self.msg, self.cause)
    }

    /// The text that the error shows to a user.
    pub fn describe(&self) -> (r: String)
        ensures
            r@ == "HTTP Error"@,
    {
        "HTTP Error".to_owned()
    }
}

/// The error's message is a `String`, which no spec expression can make, so
/// the conversion is described by the `ensures` of `from` rather than by
/// `from_spec`.
impl vstd::std_specs::convert::FromSpecImpl<reqwest::Error> for CommonError {
    open spec fn obeys_from_spec() -> bool {
        false
    }

    open spec fn from_spec(v: reqwest::Error) -> Self {
        arbitrary()
    }
}

impl From<reqwest::Error> for CommonError {
    /// See [`CommonError::from_http_error`].
    fn from(value: reqwest::Error) -> (r: Self)
        ensures
            r.kind() == ErrorType::IoError,
            r.message() == Seq::<char>::empty(),
            r.origin() == Some(ErrorCause::Http(value)),
    {
        CommonError::from_http_error(value)
    }
}

/// The error's message is a `String`, which no spec expression can make, so
/// the conversion is described by the `ensures` of `from` rather than by
/// `from_spec`.
impl vstd::std_specs::convert::FromSpecImpl<serde_json::Error> for CommonError {
    open spec fn obeys_from_spec() -> bool {
        false
    }

    open spec fn from_spec(v: serde_json::Error) -> Self {
        arbitrary()
    }
}

impl From<serde_json::Error> for CommonError {
    /// See [`CommonError::from_json_error`].
    fn from(value: serde_json::Error) -> (r: Self)
        ensures
            r.kind() == ErrorType::ParingError,
            r.message() == Seq::<char>::empty(),
            r.origin() == Some(ErrorCause::Json(value)),
    {
        CommonError::from_json_error(value)
    }
}

/// The error's message is a `String`, which no spec expression can make, so
/// the conversion is described by the `ensures` of `from` rather than by
/// `from_spec`.
impl vstd::std_specs::convert::FromSpecImpl<std::io::Error> for CommonError {
    open spec fn obeys_from_spec() -> bool {
        false
    }

    open spec fn from_spec(v: std::io::Error) -> Self {
        arbitrary()
    }
}

impl From<std::io::Error> for CommonError {
    /// See [`CommonError::from_io_error`].
    fn from(value: std::io::Error) -> (r: Self)
        ensures
            r.kind() == ErrorType::IoError,
            r.message() == Seq::<char>::empty(),
            r.origin() == Some(ErrorCause::Io(value)),
    {
        CommonError::from_io_error(value)
    }
}

/// Whether an I/O error is of kind `NotFound` (what comparing
/// `std::io::Error::kind` with `ErrorKind::NotFound` gives).
pub uninterp spec fn io_error_not_found(e: std::io::Error) -> bool;

/// The text of an I/O error (what its `Display` writes).
pub uninterp spec fn io_error_text(e: std::io::Error) -> Seq<char>;

/// Whether a cause is the load failure of a search: an I/O error of kind
/// `NotFound` whose text is "加载失败".
pub open spec fn is_load_failure(cause: Option<ErrorCause>) -> bool {
    &&& cause matches Some(ErrorCause::Io(io))
    &&& io_error_not_found(io)
    &&& io_error_text(io) == "加载失败"@
}

/// The I/O error that a search answer without a readable sticker list gives:
/// `std::io::Error::new(ErrorKind::NotFound, "加载失败")`. As std documents,
/// such an error reports the kind it was made with and displays the payload.
#[verifier::external_body]
pub(crate) fn load_failure() -> (r: std::io::Error)
    ensures
        io_error_not_found(r),
        io_error_text(r) == "加载失败"@,
{
    std::io::Error::new(std::io::ErrorKind::NotFound, "加载失败")
}

} // verus!
