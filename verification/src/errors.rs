//! The error taxonomy: parse errors with their fixed user-facing messages,
//! and the layered model of failures of remote operations.

use vstd::prelude::*;

verus! {

/// A failure of the tokenizer or of the project-context parser. Every kind
/// carries a fixed, human-readable explanation, available from `message`.
#[derive(Copy, Clone, Debug, PartialEq, Eq, Structural)]
pub enum ParseError {
    /// The input line did not match the argument grammar (for example an
    /// unterminated quote or a stray backslash escape).
    MalformedArguments,
    /// A project id was expected but was not a number in `u32` range.
    InvalidProjectId,
    /// The part before `;` was empty or not made of digits.
    MissingProjectId,
    /// The part after `;` named neither `branch=` nor `branchId=`.
    InvalidBranchSpec,
    /// The part after `branchId=` did not parse as a `u32`.
    InvalidBranchId,
}

/// The explanation text of each parse error kind.
pub open spec fn spec_message(e: ParseError) -> Seq<char> {
    match e {
        ParseError::MalformedArguments => "malformed argument list"@,
        ParseError::InvalidProjectId => "project id should be a number"@,
        ParseError::MissingProjectId => "Must contain a project ID."@,
        ParseError::InvalidBranchSpec => "Must contain branch or branchId identifier."@,
        ParseError::InvalidBranchId => "branch-id cannot be empty"@,
    }
}

impl ParseError {
    /// The human-readable explanation of this parse error.
    pub fn message(&self) -> (r: &'static str)
        ensures
            r@ == spec_message(*self),
    {
        match *self {
            ParseError::MalformedArguments => "malformed argument list",
            ParseError::InvalidProjectId => "project id should be a number",
            ParseError::MissingProjectId => "Must contain a project ID.",
            ParseError::InvalidBranchSpec => "Must contain branch or branchId identifier.",
            ParseError::InvalidBranchId => "branch-id cannot be empty",
        }
    }
}

/// The body of a non-success response: `Nice` when the server sent the
/// structured `{"error": "<message>"}` shape, `Raw` otherwise.
#[derive(Clone, Debug, PartialEq, Eq)]
pub enum ApiErrorMessage {
    Nice(String),
    Raw(String),
}

/// What can go wrong in a remote operation: a transport or protocol failure
/// (connection, TLS, or a response body that does not decode as demanded),
/// a response with a non-2xx status, or a local I/O failure. The transport
/// and I/O causes are carried as their rendered text.
#[derive(Clone, Debug, PartialEq, Eq)]
pub enum ApiError {
    Protocol(String),
    NonSuccess(u16, ApiErrorMessage),
    IO(String),
}

/// The result of a remote operation.
pub type ApiResult<T> = Result<T, ApiError>;

/// The message under the `"error"` key when the text parses as a JSON object
/// holding a string there; what serde_json computes from the text alone.
pub uninterp spec fn error_field_of(body: Seq<char>) -> Option<Seq<char>>;

/// Relies on `serde_json::from_str::<Value>`, `Value::get` and
/// `Value::as_str`: parses the body as JSON and takes the string under the
/// `"error"` key, if the body is an object holding one. The result depends
/// on the text alone.
#[verifier::external_body]
fn parse_error_field(body: &str) -> (r: Option<String>)
    ensures
        r is Some <==> error_field_of(body@) is Some,
        r matches Some(m) ==> error_field_of(body@) == Some(m@),
{
    serde_json::from_str::<serde_json::Value>(body).ok().and_then(
        |v| v.get("error").and_then(|e| e.as_str()).map(|s| s.to_string()),
    )
}

impl ApiErrorMessage {
    /// Resolve the text of a non-success response: the structured
    /// `{"error": msg}` shape becomes `Nice(msg)`, any other text is kept
    /// verbatim as `Raw`. This never fails: a body that is not structured
    /// JSON falls back to the raw text instead of raising a second error.
    pub fn from_body(body: String) -> (r: ApiErrorMessage)
        ensures
            error_field_of(body@) matches Some(m) ==> (r matches ApiErrorMessage::Nice(s) && s@
                == m),
            error_field_of(body@) is None ==> (r matches ApiErrorMessage::Raw(s) && s@ == body@),
    {
        match parse_error_field(body.as_str()) {
            Some(msg) => ApiErrorMessage::Nice(msg),
            None => ApiErrorMessage::Raw(body),
        }
    }
}

/// Status codes from 200 through 299 are successes, as reqwest counts them.
pub open spec fn spec_is_success_status(status: u16) -> bool {
    200 <= status < 300
}

/// Is this HTTP status code a success (2xx)?
pub fn is_success_status(status: u16) -> (r: bool)
    ensures
        r == spec_is_success_status(status),
{
    200 <= status && status < 300
}

/// Wrap an observed non-2xx response as the `NonSuccess` error, resolving
/// the body text into a structured or raw message.
pub fn non_success_error(status: u16, body: String) -> (r: ApiError)
    requires
        !spec_is_success_status(status),
    ensures
        r matches ApiError::NonSuccess(code, msg) && code == status && (error_field_of(body@)
            matches Some(m) ==> (msg matches ApiErrorMessage::Nice(s) && s@ == m)) && (
        error_field_of(body@) is None ==> (msg matches ApiErrorMessage::Raw(s) && s@ == body@)),
{
    ApiError::NonSuccess(status, ApiErrorMessage::from_body(body))
}

} // verus!
