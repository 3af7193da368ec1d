//! What goes to the transport and what comes back from it: the write request
//! of a record, and the meaning of the status of a reply.

use vstd::prelude::*;
use vstd::string::StringExecFns;

use crate::error::ApiDelayError;
use crate::error::ApiGenericError;
use crate::error::ApiMalformationError;
use crate::error::ApiOversizeError;
use crate::error::InfluxError;
use crate::error::InfluxResult;
use crate::record::Record;

verus! {

/// The error type of the standard I/O traits.
#[verifier::external_type_specification]
#[verifier::external_body]
pub struct ExIoError(std::io::Error);

/// What `flate2` makes of `data` when it is asked for a gzip stream with a
/// default header and the default compression level: the stream, or
/// nothing where it fails.
pub uninterp spec fn gzip_outcome(data: Seq<u8>) -> Option<Seq<u8>>;

/// Calls `flate2::GzBuilder::new().write(..)` on an empty vector at the
/// default compression level, writes `data` through it and finishes the
/// stream. The header is fixed and the sink is memory, so the outcome
/// depends on `data` alone: the contract gives it a name, and says that
/// the call succeeds with the stream where the outcome is a stream, and
/// fails where it is none.
#[verifier::external_body]
fn gzip(data: &[u8]) -> (r: Result<Vec<u8>, std::io::Error>)
    ensures
        match r {
            Ok(v) => gzip_outcome(data@) == Some(v@),
            Err(_) => gzip_outcome(data@) is None,
        },
{
    let mut encoder = flate2::GzBuilder::new().write(Vec::new(), flate2::Compression::default());
    std::io::Write::write_all(&mut encoder, data)?;
    encoder.finish()
}

/// Calls `to_string` on a `std::io::Error`: the message that its `Display`
/// writes. Nothing is claimed of the message.
#[verifier::external_body]
fn io_error_text(e: &std::io::Error) -> (s: String) {
    e.to_string()
}

impl From<std::io::Error> for InfluxError {
    /// Keeps the message of the error.
    fn from(err: std::io::Error) -> (e: InfluxError)
        ensures
            e is Io,
    {
        InfluxError::Io(io_error_text(&err))
    }
}

impl vstd::std_specs::convert::FromSpecImpl<std::io::Error> for InfluxError {
    open spec fn obeys_from_spec() -> bool {
        false
    }

    open spec fn from_spec(err: std::io::Error) -> InfluxError {
        arbitrary()
    }
}

/// The path of the write endpoint.
pub open spec fn write_path() -> Seq<char> {
    "/api/v2/write"@
}

/// A write request, ready for the transport: where it goes, how its body is
/// encoded, and the body.
#[derive(Debug, PartialEq, Eq)]
pub struct WriteRequest {
    /// The path of the endpoint.
    pub path: String,
    /// The value of the `Content-Encoding` header.
    pub content_encoding: String,
    /// The organization, for the query parameter `org`.
    pub org: String,
    /// The bucket, for the query parameter `bucket`.
    pub bucket: String,
    /// The code of the precision, for the query parameter `precision`.
    pub precision: String,
    /// The compressed line buffer.
    pub body: Vec<u8>,
}

impl WriteRequest {
    /// Tells whether this is the request that carries `body` for `record`.
    pub open spec fn carries(&self, record: &Record, body: Seq<u8>) -> bool {
        &&& self.path@ == write_path()
        &&& self.content_encoding@ == "gzip"@
        &&& self.org@ == record.org@
        &&& self.bucket@ == record.bucket@
        &&& self.precision@ == record.precision.code()
        &&& self.body@ == body
    }
}

impl Record {
    /// The bytes that a write request for this record carries before
    /// compression: the line buffer in UTF-8.
    pub open spec fn payload(&self) -> Seq<u8> {
        vstd::utf8::encode_utf8(self.line_buffer())
    }

    /// The write request for this record, given its compressed line buffer.
    pub fn write_request_with(&self, body: Vec<u8>) -> (request: WriteRequest)
        ensures
            request.carries(self, body@),
    {
        WriteRequest {
            path: String::from_str("/api/v2/write"),
            content_encoding: String::from_str("gzip"),
            org: self.org.clone(),
            bucket: self.bucket.clone(),
            precision: self.precision.to_string(),
            body,
        }
    }

    /// The outcome of a write request, given the outcome of compressing its
    /// line buffer: the request with the compressed body, or the error of
    /// the compression as an I/O error.
    pub fn write_request_from(&self, compressed: Result<Vec<u8>, InfluxError>) -> (r: InfluxResult<
        WriteRequest,
    >)
        ensures
            match compressed {
                Ok(body) => r matches Ok(request) && request.carries(self, body@),
                Err(e) => r == Err::<WriteRequest, InfluxError>(e),
            },
    {
        match compressed {
            Ok(body) => Ok(self.write_request_with(body)),
            Err(e) => Err(e),
        }
    }

    /// The write request for this record: its line buffer, compressed, with
    /// the destination as query parameters. The request is made exactly
    /// where the compression of the line buffer gives a stream, and then
    /// carries that stream; where it gives none, the error is an I/O error.
    pub fn to_write_request(&self) -> (r: InfluxResult<WriteRequest>)
        ensures
            r is Ok <==> gzip_outcome(self.payload()) is Some,
            r matches Ok(request) ==> request.carries(self, gzip_outcome(self.payload())->0),
            r matches Err(e) ==> e is Io,
    {
        let buffer = self.to_line_buffer();
        match gzip(buffer.as_str().as_bytes()) {
            Ok(body) => self.write_request_from(Ok(body)),
            Err(e) => self.write_request_from(Err(InfluxError::from(e))),
        }
    }
}

/// The body of a reply, as the status of the reply says to read it.
#[derive(Debug, PartialEq, Eq)]
pub enum ReplyBody {
    /// Nothing was read.
    Empty,
    Generic(ApiGenericError),
    Delay(ApiDelayError),
    Malformation(ApiMalformationError),
    Oversize(ApiOversizeError),
}

/// The kinds of body that a reply can carry.
#[derive(Debug, Clone, Copy, PartialEq, Eq, Structural)]
pub enum ReplyShape {
    Empty,
    Generic,
    Delay,
    Malformation,
    Oversize,
}

impl ReplyBody {
    /// The kind of this body.
    pub open spec fn shape(&self) -> ReplyShape {
        match self {
            ReplyBody::Empty => ReplyShape::Empty,
            ReplyBody::Generic(_) => ReplyShape::Generic,
            ReplyBody::Delay(_) => ReplyShape::Delay,
            ReplyBody::Malformation(_) => ReplyShape::Malformation,
            ReplyBody::Oversize(_) => ReplyShape::Oversize,
        }
    }
}

/// The kind of body that the reply to a write carries under a status.
pub open spec fn write_shape(status: u16) -> ReplyShape {
    if status == 204 {
        ReplyShape::Empty
    } else if status == 400 {
        ReplyShape::Malformation
    } else if status == 413 {
        ReplyShape::Oversize
    } else if status == 429 || status == 503 {
        ReplyShape::Delay
    } else {
        ReplyShape::Generic
    }
}

/// Tells how to read the body of the reply to a write.
pub fn write_reply_shape(status: u16) -> (shape: ReplyShape)
    ensures
        shape == write_shape(status),
{
    if status == 204 {
        ReplyShape::Empty
    } else if status == 400 {
        ReplyShape::Malformation
    } else if status == 413 {
        ReplyShape::Oversize
    } else if status == 429 || status == 503 {
        ReplyShape::Delay
    } else {
        ReplyShape::Generic
    }
}

/// The error that a refused write stands for: by status, with the body of
/// the reply inside. `None` where the body is not of the kind that the
/// status carries.
pub open spec fn write_rejection(status: u16, body: ReplyBody) -> Option<InfluxError> {
    match body {
        ReplyBody::Malformation(b) if status == 400 => Some(InfluxError::WriteMalformed(b)),
        ReplyBody::Oversize(b) if status == 413 => Some(InfluxError::WriteOversized(b)),
        ReplyBody::Delay(b) if status == 429 => Some(InfluxError::WriteOverquota(b)),
        ReplyBody::Delay(b) if status == 503 => Some(InfluxError::WriteUnready(b)),
        ReplyBody::Generic(b) if status == 401 => Some(InfluxError::WriteUnauthorized(b)),
        ReplyBody::Generic(b) if status == 403 => Some(InfluxError::WriteUnauthenticated(b)),
        ReplyBody::Generic(b) if write_shape(status) == ReplyShape::Generic => Some(
            InfluxError::WriteUnknown(b),
        ),
        _ => None,
    }
}

/// The outcome of a write, from the status and the body of the reply.
/// Status 204 is success; every other status is a refusal of the kind that
/// the status names. A body of the wrong kind gives a plain error.
pub fn write_result(status: u16, body: ReplyBody) -> (r: InfluxResult<()>)
    ensures
        status == 204 <==> r is Ok,
        status != 204 ==> match write_rejection(status, body) {
            Some(e) => r == Err::<(), InfluxError>(e),
            None => r matches Err(InfluxError::Error(m)) && m@ == "reply body does not fit its status"@,
        },
{
    if status == 204 {
        return Ok(());
    }
    match body {
        ReplyBody::Malformation(b) if status == 400 => Err(InfluxError::WriteMalformed(b)),
        ReplyBody::Oversize(b) if status == 413 => Err(InfluxError::WriteOversized(b)),
        ReplyBody::Delay(b) if status == 429 => Err(InfluxError::WriteOverquota(b)),
        ReplyBody::Delay(b) if status == 503 => Err(InfluxError::WriteUnready(b)),
        ReplyBody::Generic(b) if status == 401 => Err(InfluxError::WriteUnauthorized(b)),
        ReplyBody::Generic(b) if status == 403 => Err(InfluxError::WriteUnauthenticated(b)),
        ReplyBody::Generic(b) if status != 400 && status != 413 && status != 429 && status
            != 503 => Err(InfluxError::WriteUnknown(b)),
        _ => Err(InfluxError::message("reply body does not fit its status")),
    }
}

} // verus!
