//! Errors of the library, and what the remote API says when it refuses a
//! request.

use vstd::prelude::*;
use vstd::string::StringExecFns;

use crate::text::decimal;
use crate::text::push_decimal;

verus! {

/// The result of any fallible operation of this library.
pub type InfluxResult<T> = Result<T, InfluxError>;

/// A refusal that carries a code and a message.
#[derive(Debug, Clone, PartialEq, Eq)]
pub struct ApiGenericError {
    pub code: String,
    pub message: String,
}

/// A refusal that asks the caller to come back after a delay, in seconds.
#[derive(Debug, Clone, PartialEq, Eq)]
pub struct ApiDelayError {
    pub delay: i64,
}

/// A refusal of a request that the remote could not parse.
#[derive(Debug, Clone, PartialEq, Eq)]
pub struct ApiMalformationError {
    pub code: String,
    pub err: String,
    pub line: Option<i32>,
    pub message: String,
    pub op: String,
}

/// A refusal of a request whose body was too large.
#[derive(Debug, Clone, PartialEq, Eq)]
pub struct ApiOversizeError {
    pub code: String,
    pub maxlen: i32,
    pub message: String,
}

impl ApiGenericError {
    /// The text shown for this refusal.
    pub open spec fn text(&self) -> Seq<char> {
        "code="@ + self.code@ + ", message="@ + self.message@
    }

    /// Renders the refusal as text.
    pub fn to_string(&self) -> (s: String)
        ensures
            s@ == self.text(),
    {
        let mut s = String::from_str("code=");
        s.append(self.code.as_str());
        s.append(", message=");
        s.append(self.message.as_str());
        s
    }
}

impl ApiDelayError {
    /// The text shown for this refusal.
    pub open spec fn text(&self) -> Seq<char> {
        "delay="@ + decimal(self.delay as int) + "s"@
    }

    /// Renders the refusal as text.
    pub fn to_string(&self) -> (s: String)
        ensures
            s@ == self.text(),
    {
        let mut s = String::from_str("delay=");
        push_decimal(&mut s, self.delay as i128);
        s.append("s");
        s
    }
}

impl ApiMalformationError {
    /// The text that stands for the offending line: its number, or `n/a`.
    pub open spec fn line_text(&self) -> Seq<char> {
        match self.line {
            Some(n) => decimal(n as int),
            None => "n/a"@,
        }
    }

    /// The text shown for this refusal.
    pub open spec fn text(&self) -> Seq<char> {
        "code="@ + self.code@ + ", err="@ + self.err@ + ", line="@ + self.line_text()
            + ", message="@ + self.message@ + ", op="@ + self.op@
    }

    /// Renders the refusal as text.
    pub fn to_string(&self) -> (s: String)
        ensures
            s@ == self.text(),
    {
        let mut s = String::from_str("code=");
        s.append(self.code.as_str());
        s.append(", err=");
        s.append(self.err.as_str());
        s.append(", line=");
        match self.line {
            Some(n) => push_decimal(&mut s, n as i128),
            None => s.append("n/a"),
        }
        s.append(", message=");
        s.append(self.message.as_str());
        s.append(", op=");
        s.append(self.op.as_str());
        s
    }
}

impl ApiOversizeError {
    /// The text shown for this refusal.
    pub open spec fn text(&self) -> Seq<char> {
        "code="@ + self.code@ + ", maxlen="@ + decimal(self.maxlen as int) + ", message="@
            + self.message@
    }

    /// Renders the refusal as text.
    pub fn to_string(&self) -> (s: String)
        ensures
            s@ == self.text(),
    {
        let mut s = String::from_str("code=");
        s.append(self.code.as_str());
        s.append(", maxlen=");
        push_decimal(&mut s, self.maxlen as i128);
        s.append(", message=");
        s.append(self.message.as_str());
        s
    }
}

/// Everything that can go wrong in this library.
#[derive(Debug, PartialEq, Eq)]
pub enum InfluxError {
    /// A plain message.
    Error(String),
    /// A message put in front of the error that caused it.
    Annotated(String, Box<InfluxError>),
    /// A measurement that cannot be written as line protocol.
    Encoding(String),
    /// The message of a failed file operation.
    Io(String),
    /// The message of a boolean that did not parse.
    ParseBool(String),
    /// The message of a line that is no measurement in JSON.
    Json(String),
    /// The message of a failed HTTP exchange.
    Reqwest(String),
    /// Sign-in refused: wrong user or password.
    AuthUnauthorized(ApiGenericError),
    /// Sign-in refused: the account is disabled.
    AuthAccountDisabled(ApiGenericError),
    /// Sign-in refused for another reason.
    AuthUnknown(ApiGenericError),
    /// Write refused: the body was malformed.
    WriteMalformed(ApiMalformationError),
    /// Write refused: status 401.
    WriteUnauthorized(ApiGenericError),
    /// Write refused: status 403.
    WriteUnauthenticated(ApiGenericError),
    /// Write refused: the body was too large.
    WriteOversized(ApiOversizeError),
    /// Write refused: over quota, with the delay to wait.
    WriteOverquota(ApiDelayError),
    /// Write refused: the server is not ready, with the delay to wait.
    WriteUnready(ApiDelayError),
    /// Write refused for another reason.
    WriteUnknown(ApiGenericError),
    /// A record was not delivered and could not be put into the backlog
    /// either: its data is at risk.
    Unqueued { rejection: Box<InfluxError>, backlog: Box<InfluxError> },
}

/// What lies behind an error.
#[derive(Debug, Clone, Copy, PartialEq, Eq)]
pub enum Cause<'a> {
    /// Another error of this library.
    Inner(&'a InfluxError),
    /// The message of an error that came from outside the library.
    Outside(&'a String),
}

impl InfluxError {
    /// The text shown for this error.
    pub open spec fn text(&self) -> Seq<char>
        decreases self,
    {
        match self {
            InfluxError::Error(msg) => msg@,
            InfluxError::Annotated(msg, _) => msg@,
            InfluxError::Encoding(msg) => "Encoding Error: "@ + msg@,
            InfluxError::Io(msg) => "Io Error: "@ + msg@,
            InfluxError::ParseBool(msg) => "Parse Bool Error: "@ + msg@,
            InfluxError::Json(msg) => "Json Error: "@ + msg@,
            InfluxError::Reqwest(msg) => "Reqwest Error: "@ + msg@,
            InfluxError::AuthUnauthorized(inner) => "AuthUnauthorized("@ + inner.text() + ")"@,
            InfluxError::AuthAccountDisabled(inner) => "AuthAccountDisabled("@ + inner.text()
                + ")"@,
            InfluxError::AuthUnknown(inner) => "AuthUnknown("@ + inner.text() + ")"@,
            InfluxError::WriteMalformed(inner) => "WriteMalformed("@ + inner.text() + ")"@,
            InfluxError::WriteUnauthorized(inner) => "WriteUnauthorized("@ + inner.text() + ")"@,
            InfluxError::WriteUnauthenticated(inner) => "WriteUnauthenticated("@ + inner.text()
                + ")"@,
            InfluxError::WriteOversized(inner) => "WriteOversized("@ + inner.text() + ")"@,
            InfluxError::WriteOverquota(inner) => "WriteOverquota("@ + inner.text() + ")"@,
            InfluxError::WriteUnready(inner) => "WriteUnready("@ + inner.text() + ")"@,
            InfluxError::WriteUnknown(inner) => "WriteUnknown("@ + inner.text() + ")"@,
            InfluxError::Unqueued { rejection, backlog } => "Not delivered: "@ + rejection.text()
                + "; not queued, data at risk: "@ + backlog.text(),
        }
    }

    /// Renders the error as text.
    pub fn to_string(&self) -> (s: String)
        ensures
            s@ == self.text(),
        decreases self,
    {
        match self {
            InfluxError::Error(msg) => msg.clone(),
            InfluxError::Annotated(msg, _) => msg.clone(),
            InfluxError::Encoding(msg) => labelled("Encoding Error: ", msg.as_str()),
            InfluxError::Io(msg) => labelled("Io Error: ", msg.as_str()),
            InfluxError::ParseBool(msg) => labelled("Parse Bool Error: ", msg.as_str()),
            InfluxError::Json(msg) => labelled("Json Error: ", msg.as_str()),
            InfluxError::Reqwest(msg) => labelled("Reqwest Error: ", msg.as_str()),
            InfluxError::AuthUnauthorized(inner) => bracketed(
                "AuthUnauthorized(",
                inner.to_string(),
            ),
            InfluxError::AuthAccountDisabled(inner) => bracketed(
                "AuthAccountDisabled(",
                inner.to_string(),
            ),
            InfluxError::AuthUnknown(inner) => bracketed("AuthUnknown(", inner.to_string()),
            InfluxError::WriteMalformed(inner) => bracketed("WriteMalformed(", inner.to_string()),
            InfluxError::WriteUnauthorized(inner) => bracketed(
                "WriteUnauthorized(",
                inner.to_string(),
            ),
            InfluxError::WriteUnauthenticated(inner) => bracketed(
                "WriteUnauthenticated(",
                inner.to_string(),
            ),
            InfluxError::WriteOversized(inner) => bracketed("WriteOversized(", inner.to_string()),
            InfluxError::WriteOverquota(inner) => bracketed("WriteOverquota(", inner.to_string()),
            InfluxError::WriteUnready(inner) => bracketed("WriteUnready(", inner.to_string()),
            InfluxError::WriteUnknown(inner) => bracketed("WriteUnknown(", inner.to_string()),
            InfluxError::Unqueued { rejection, backlog } => {
                let mut s = String::from_str("Not delivered: ");
                s.append(rejection.to_string().as_str());
                s.append("; not queued, data at risk: ");
                s.append(backlog.to_string().as_str());
                s
            },
        }
    }

    /// The error or outside message that lies behind this error, if any.
    pub fn source(&self) -> (cause: Option<Cause<'_>>)
        ensures
            match *self {
                InfluxError::Annotated(_, inner) => cause == Some(Cause::Inner(&*inner)),
                InfluxError::Io(msg) => cause == Some(Cause::Outside(&msg)),
                InfluxError::ParseBool(msg) => cause == Some(Cause::Outside(&msg)),
                InfluxError::Json(msg) => cause == Some(Cause::Outside(&msg)),
                InfluxError::Reqwest(msg) => cause == Some(Cause::Outside(&msg)),
                InfluxError::Unqueued { rejection, backlog } => cause == Some(
                    Cause::Inner(&*rejection),
                ),
                _ => cause is None,
            },
    {
        match self {
            InfluxError::Annotated(_, inner) => Some(Cause::Inner(&**inner)),
            InfluxError::Io(msg) => Some(Cause::Outside(msg)),
            InfluxError::ParseBool(msg) => Some(Cause::Outside(msg)),
            InfluxError::Json(msg) => Some(Cause::Outside(msg)),
            InfluxError::Reqwest(msg) => Some(Cause::Outside(msg)),
            InfluxError::Unqueued { rejection, .. } => Some(Cause::Inner(&**rejection)),
            _ => None,
        }
    }

    /// A plain error with the given message.
    pub fn message(msg: &str) -> (e: InfluxError)
        ensures
            e matches InfluxError::Error(m) && m@ == msg@,
    {
        InfluxError::Error(String::from_str(msg))
    }
}

/// A message behind its label.
fn labelled(label: &str, msg: &str) -> (s: String)
    ensures
        s@ == label@ + msg@,
{
    let mut s = String::from_str(label);
    s.append(msg);
    s
}

/// A text between an opening label and a closing bracket.
fn bracketed(open: &str, inner: String) -> (s: String)
    ensures
        s@ == open@ + inner@ + ")"@,
{
    let mut s = String::from_str(open);
    s.append(inner.as_str());
    s.append(")");
    s
}

/// Puts a message in front of an error.
pub trait InfluxErrorAnnotate<T> {
    /// What `annotate` gives for this value and message.
    spec fn annotated(self, msg: String) -> InfluxResult<T>;

    /// Keeps a success as it is, and wraps a failure together with `msg`.
    fn annotate(self, msg: String) -> (r: InfluxResult<T>)
        ensures
            r == self.annotated(msg),
    ;
}

impl<T> InfluxErrorAnnotate<T> for Result<T, InfluxError> {
    open spec fn annotated(self, msg: String) -> InfluxResult<T> {
        match self {
            Ok(v) => Ok(v),
            Err(e) => Err(InfluxError::Annotated(msg, Box::new(e))),
        }
    }

    fn annotate(self, msg: String) -> (r: InfluxResult<T>) {
        match self {
            Ok(v) => Ok(v),
            Err(e) => Err(InfluxError::Annotated(msg, Box::new(e))),
        }
    }
}

impl From<String> for InfluxError {
    fn from(err: String) -> (e: InfluxError) {
        InfluxError::Error(err)
    }
}

impl vstd::std_specs::convert::FromSpecImpl<String> for InfluxError {
    open spec fn obeys_from_spec() -> bool {
        true
    }

    open spec fn from_spec(err: String) -> InfluxError {
        InfluxError::Error(err)
    }
}

impl From<&str> for InfluxError {
    /// A plain error with the given message.
    fn from(err: &str) -> (e: InfluxError)
        ensures
            e matches InfluxError::Error(m) && m@ == err@,
    {
        InfluxError::message(err)
    }
}

impl vstd::std_specs::convert::FromSpecImpl<&str> for InfluxError {
    open spec fn obeys_from_spec() -> bool {
        false
    }

    open spec fn from_spec(err: &str) -> InfluxError {
        arbitrary()
    }
}

} // verus!
