//! What an upstream answer means: the one place where upstream status codes
//! are read.

use vstd::prelude::*;
use vstd::string::*;

verus! {

/// Why a lookup failed.
#[derive(Debug, Clone, PartialEq, Eq)]
pub enum GatewayError {
    /// The upstream service could not be reached, or did not answer.
    UpstreamUnreachable,
    /// The upstream service turned the request down; its message is kept.
    UpstreamRejected(String),
    /// The upstream service answered with a status that has no meaning here.
    UpstreamUnexpected,
    /// A body, or a cached value, did not have the expected shape.
    DeserializationFailed,
}

/// The four kinds of upstream status.
#[derive(Debug, Clone, Copy, PartialEq, Eq, Structural)]
pub enum StatusClass {
    /// 200: the body is the data asked for.
    Success,
    /// 400: the body says what was wrong with the request.
    ClientError,
    /// 404: the body says what was not found.
    NotFound,
    /// Any other status, known or not.
    ServerError,
}

/// The error that the upstream service sends with a 400 or a 404.
#[derive(Debug, Clone, PartialEq, Eq)]
pub struct UpstreamError {
    /// What went wrong, in words.
    pub message: String,
    /// When the upstream service answered.
    pub date: String,
    /// The upstream service's own name for the error, if it gave one.
    pub error: Option<String>,
}

/// A body that had the expected shape.
#[derive(Debug, Clone, PartialEq, Eq)]
pub struct Decoded<R> {
    /// The body as a typed value.
    pub value: R,
    /// The value written back as text, for the cache; `None` where it could
    /// not be written.
    pub canonical: Option<String>,
}

/// What was made of an upstream body.
#[derive(Debug, Clone, PartialEq, Eq)]
pub enum Body<R> {
    /// It had the expected shape.
    Data(Decoded<R>),
    /// It had the shape of an upstream error.
    Rejection(UpstreamError),
    /// It had neither shape, or was not read.
    Unreadable,
}

/// An upstream answer, classified.
#[derive(Debug, Clone, PartialEq, Eq)]
pub enum ClassifiedResult<R> {
    /// The data asked for.
    Success(Decoded<R>),
    /// The request was wrong; the upstream message is kept.
    ClientError(String),
    /// Nothing was found; the upstream message is kept.
    NotFound(String),
    /// Anything else.
    ServerError(GatewayError),
}

/// The kind of a status: 200, 400 and 404 have their own, and every other
/// status is a server error.
pub open spec fn class_of(status: u16) -> StatusClass {
    if status == 200 {
        StatusClass::Success
    } else if status == 400 {
        StatusClass::ClientError
    } else if status == 404 {
        StatusClass::NotFound
    } else {
        StatusClass::ServerError
    }
}

/// The classification of an answer with status `status` whose body was read
/// as `body`.
pub open spec fn classified<R>(status: u16, body: Body<R>) -> ClassifiedResult<R> {
    match class_of(status) {
        StatusClass::Success => match body {
            Body::Data(decoded) => ClassifiedResult::Success(decoded),
            _ => ClassifiedResult::ServerError(GatewayError::DeserializationFailed),
        },
        StatusClass::ClientError => match body {
            Body::Rejection(error) => ClassifiedResult::ClientError(error.message),
            _ => ClassifiedResult::ServerError(GatewayError::DeserializationFailed),
        },
        StatusClass::NotFound => match body {
            Body::Rejection(error) => ClassifiedResult::NotFound(error.message),
            _ => ClassifiedResult::ServerError(GatewayError::DeserializationFailed),
        },
        StatusClass::ServerError => ClassifiedResult::ServerError(GatewayError::UpstreamUnexpected),
    }
}

/// What a caller gets of a classified answer. A 404 and a 400 come out as
/// the same error, with the upstream message.
pub open spec fn surfaced<R>(classified: ClassifiedResult<R>) -> Result<Decoded<R>, GatewayError> {
    match classified {
        ClassifiedResult::Success(decoded) => Ok(decoded),
        ClassifiedResult::ClientError(message) => Err(GatewayError::UpstreamRejected(message)),
        ClassifiedResult::NotFound(message) => Err(GatewayError::UpstreamRejected(message)),
        ClassifiedResult::ServerError(error) => Err(error),
    }
}

/// The kind of an upstream status. It tells which shape the body is to be
/// read as: the data for `Success`, an upstream error for `ClientError` and
/// `NotFound`, and not at all for `ServerError`.
pub fn status_class(status: u16) -> (class: StatusClass)
    ensures
        class == class_of(status),
{
    if status == 200 {
        StatusClass::Success
    } else if status == 400 {
        StatusClass::ClientError
    } else if status == 404 {
        StatusClass::NotFound
    } else {
        StatusClass::ServerError
    }
}

/// Classifies an upstream answer by its status and by what its body was read
/// as. A body that does not fit its status is a failure to deserialize, and
/// a status other than 200, 400 and 404 is an unexpected one whatever the
/// body holds.
pub fn classify<R>(status: u16, body: Body<R>) -> (result: ClassifiedResult<R>)
    ensures
        result == classified(status, body),
{
    match status_class(status) {
        StatusClass::Success => match body {
            Body::Data(decoded) => ClassifiedResult::Success(decoded),
            _ => ClassifiedResult::ServerError(GatewayError::DeserializationFailed),
        },
        StatusClass::ClientError => match body {
            Body::Rejection(error) => ClassifiedResult::ClientError(error.message),
            _ => ClassifiedResult::ServerError(GatewayError::DeserializationFailed),
        },
        StatusClass::NotFound => match body {
            Body::Rejection(error) => ClassifiedResult::NotFound(error.message),
            _ => ClassifiedResult::ServerError(GatewayError::DeserializationFailed),
        },
        StatusClass::ServerError => ClassifiedResult::ServerError(GatewayError::UpstreamUnexpected),
    }
}

impl<R> ClassifiedResult<R> {
    /// The typed result that a caller gets.
    pub fn surface(self) -> (result: Result<Decoded<R>, GatewayError>)
        ensures
            result == surfaced(self),
    {
        match self {
            ClassifiedResult::Success(decoded) => Ok(decoded),
            ClassifiedResult::ClientError(message) => Err(GatewayError::UpstreamRejected(message)),
            ClassifiedResult::NotFound(message) => Err(GatewayError::UpstreamRejected(message)),
            ClassifiedResult::ServerError(error) => Err(error),
        }
    }
}

impl GatewayError {
    /// The status that a public client is answered with: 400 where the
    /// upstream service turned the request down, 500 otherwise.
    pub open spec fn status_of(self) -> u16 {
        match self {
            GatewayError::UpstreamRejected(_) => 400,
            _ => 500,
        }
    }

    /// The words that a public client is answered with.
    pub open spec fn words_of(self) -> Seq<char> {
        match self {
            GatewayError::UpstreamUnreachable => "Failed to execute Canister query"@,
            GatewayError::UpstreamRejected(message) => message@,
            GatewayError::UpstreamUnexpected => "Failed to fetch from Canister"@,
            GatewayError::DeserializationFailed => "Failed to parse Canister response"@,
        }
    }

    /// The status that a public client is answered with.
    pub fn status_code(&self) -> (status: u16)
        ensures
            status == self.status_of(),
    {
        match self {
            GatewayError::UpstreamRejected(_) => 400,
            _ => 500,
        }
    }

    /// The words that a public client is answered with.
    pub fn message(&self) -> (words: String)
        ensures
            words@ == self.words_of(),
    {
        match self {
            GatewayError::UpstreamUnreachable => String::from_str("Failed to execute Canister query"),
            GatewayError::UpstreamRejected(message) => message.clone(),
            GatewayError::UpstreamUnexpected => String::from_str("Failed to fetch from Canister"),
            GatewayError::DeserializationFailed => String::from_str(
                "Failed to parse Canister response",
            ),
        }
    }
}

/// A 404 surfaces as a 400 with the same body does, whatever the body is.
pub proof fn not_found_surfaces_as_client_error<R>(body: Body<R>)
    ensures
        surfaced(classified(404, body)) == surfaced(classified(400, body)),
        body is Rejection ==> surfaced(classified(404, body)) == Err::<Decoded<R>, GatewayError>(
            GatewayError::UpstreamRejected(body->Rejection_0.message),
        ),
{
}

/// Only a 200 whose body has the expected shape is a success: every other
/// status, known or not, and every other body come out as an error.
pub proof fn success_needs_200_and_data<R>(status: u16, body: Body<R>)
    ensures
        surfaced(classified(status, body)) is Ok <==> status == 200 && body is Data,
        status != 200 && status != 400 && status != 404 ==> surfaced(classified(status, body)) == Err::<
            Decoded<R>,
            GatewayError,
        >(GatewayError::UpstreamUnexpected),
{
}

} // verus!
