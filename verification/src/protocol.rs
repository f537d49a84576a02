//! Client/Server communication protocol

use serde::de::DeserializeOwned;
use vstd::prelude::*;

use crate::errors::HandlerError;

pub mod pubsub;

verus! {

/// This is the struct that we serialize and send to the server serialized
#[derive(Debug, Clone)]
pub struct RequestEnvelope {
    pub handler_type: String,
    pub handler_id: String,
    pub message_type: String,
    pub payload: Vec<u8>,
}

impl RequestEnvelope {
    pub fn new(handler_type: String, handler_id: String, message_type: String, payload: Vec<u8>) -> (r: RequestEnvelope)
        ensures
            r.handler_type == handler_type,
            r.handler_id == handler_id,
            r.message_type == message_type,
            r.payload == payload,
    {
        RequestEnvelope { handler_type, handler_id, message_type, payload }
    }
}

/// This is the struct that we serialize and send back to the client
#[derive(Debug)]
pub struct ResponseEnvelope {
    pub body: Result<Vec<u8>, ResponseError>,
}

impl ResponseEnvelope {
    /// New `ResponseEnvelope`. `Ok` Variant
    pub fn new(body: Vec<u8>) -> (r: ResponseEnvelope)
        ensures
            r.body == Ok::<Vec<u8>, ResponseError>(body),
    {
        ResponseEnvelope { body: Ok(body) }
    }

    /// New `ResponseEnvelope`. `Err` Variant
    pub fn err(error: ResponseError) -> (r: ResponseEnvelope)
        ensures
            r.body == Err::<Vec<u8>, ResponseError>(error),
    {
        ResponseEnvelope { body: Err(error) }
    }

    /// The response that reports a handler's failure.
    pub fn from_handler_error(error: HandlerError) -> (r: ResponseEnvelope)
        ensures
            r.body matches Err(e) && handler_error_response(error, e),
    {
        ResponseEnvelope { body: Err(ResponseError::from_handler_error(error)) }
    }
}

/// Convert a `HandlerError` into a `ResponseEnvelope`.
impl From<HandlerError> for ResponseEnvelope {
    fn from(error: HandlerError) -> (r: Self)
        ensures
            r.body matches Err(e) && handler_error_response(error, e),
    {
        Self::from_handler_error(error)
    }
}

impl vstd::std_specs::convert::FromSpecImpl<HandlerError> for ResponseEnvelope {
    /// The conversion may build a new `String`, which a spec value cannot
    /// name; `from` states what it returns.
    open spec fn obeys_from_spec() -> bool {
        false
    }

    open spec fn from_spec(v: HandlerError) -> Self {
        ResponseEnvelope { body: Err(ResponseError::Allocate) }
    }
}

/// Error that we serialize back inside of the [ResponseEnvelope]
#[derive(Debug, Clone, PartialEq, Eq)]
pub enum ResponseError {
    Redirect(String),
    DeallocateServiceObject,
    Allocate,
    NotSupported(String),
    Unknown(String),
    HandlerError(String),
    DeseralizationError(String),
    SeralizationError(String),
    ApplicationError(Vec<u8>),
}

/// How a handler error is reported to the client: an application error
/// keeps its bytes, every other error becomes `Unknown` with its message.
pub open spec fn handler_error_response(error: HandlerError, r: ResponseError) -> bool {
    match error {
        HandlerError::ApplicationError(v) => r == ResponseError::ApplicationError(v),
        other => r matches ResponseError::Unknown(m) && m@ == other.text(),
    }
}

impl ResponseError {
    /// The message of each variant.
    pub open spec fn text(&self) -> Seq<char> {
        match self {
            ResponseError::Redirect(_) => "ServiceObject is in another server"@,
            ResponseError::DeallocateServiceObject => "ServiceObject had to be deallocated"@,
            ResponseError::Allocate => "ServiceObject could not be allocated"@,
            ResponseError::NotSupported(_) => "ServiceObject not supported"@,
            ResponseError::Unknown(_) => "unknown execution error"@,
            ResponseError::HandlerError(_) => "handler error"@,
            ResponseError::DeseralizationError(_) => "error deserializing response"@,
            ResponseError::SeralizationError(_) => "error serializing message"@,
            ResponseError::ApplicationError(_) => "Error caused by the application, serialized in bincode"@,
        }
    }

    /// The error's message.
    pub fn message(&self) -> (r: String)
        ensures
            r@ == self.text(),
    {
        match self {
            ResponseError::Redirect(_) => "ServiceObject is in another server".to_owned(),
            ResponseError::DeallocateServiceObject => "ServiceObject had to be deallocated".to_owned(),
            ResponseError::Allocate => "ServiceObject could not be allocated".to_owned(),
            ResponseError::NotSupported(_) => "ServiceObject not supported".to_owned(),
            ResponseError::Unknown(_) => "unknown execution error".to_owned(),
            ResponseError::HandlerError(_) => "handler error".to_owned(),
            ResponseError::DeseralizationError(_) => "error deserializing response".to_owned(),
            ResponseError::SeralizationError(_) => "error serializing message".to_owned(),
            ResponseError::ApplicationError(_) => "Error caused by the application, serialized in bincode".to_owned(),
        }
    }

    /// Convert a `HandlerError` into a `ResponseError`.
    pub fn from_handler_error(error: HandlerError) -> (r: ResponseError)
        ensures
            handler_error_response(error, r),
    {
        match error {
            HandlerError::ApplicationError(v) => ResponseError::ApplicationError(v),
            inner_err => ResponseError::Unknown(inner_err.message()),
        }
    }
}

impl From<HandlerError> for ResponseError {
    fn from(error: HandlerError) -> (r: Self)
        ensures
            handler_error_response(error, r),
    {
        Self::from_handler_error(error)
    }
}

impl vstd::std_specs::convert::FromSpecImpl<HandlerError> for ResponseError {
    /// The conversion may build a new `String`, which a spec value cannot
    /// name; `from` states what it returns.
    open spec fn obeys_from_spec() -> bool {
        false
    }

    open spec fn from_spec(v: HandlerError) -> Self {
        ResponseError::Allocate
    }
}

/// Errors that might occur while building or using the client,
/// but that are not related to any behaviour on the server
#[derive(Debug, PartialEq, Eq)]
pub enum ClientError {
    NoServersAvailable,
    ServerNotAvailable(String),
    Disconnect,
    RendevouzUnavailable,
    Connectivity,
    Unknown(String),
    PlacementLock,
    DeseralizationError(String),
    SeralizationError(String),
    IoError(String),
    ResponseError(ResponseError),
}

impl ClientError {
    /// The message of each variant.
    pub open spec fn text(&self) -> Seq<char> {
        match self {
            ClientError::NoServersAvailable => "no servers available"@,
            ClientError::ServerNotAvailable(_) => "the requested server is not available"@,
            ClientError::Disconnect => "client was disconnected from the server (no more items on the TCP stream)"@,
            ClientError::RendevouzUnavailable => "rendenvouz is not available"@,
            ClientError::Connectivity => "connectivity error"@,
            ClientError::Unknown(_) => "unknown client error"@,
            ClientError::PlacementLock => "unknown PlacementLock error"@,
            ClientError::DeseralizationError(_) => "error deserializing response"@,
            ClientError::SeralizationError(_) => "error serializing message"@,
            ClientError::IoError(_) => "std::io::Error"@,
            ClientError::ResponseError(_) => "error in the service response"@,
        }
    }

    /// The error's message.
    pub fn message(&self) -> (r: String)
        ensures
            r@ == self.text(),
    {
        match self {
            ClientError::NoServersAvailable => "no servers available".to_owned(),
            ClientError::ServerNotAvailable(_) => "the requested server is not available".to_owned(),
            ClientError::Disconnect => "client was disconnected from the server (no more items on the TCP stream)".to_owned(),
            ClientError::RendevouzUnavailable => "rendenvouz is not available".to_owned(),
            ClientError::Connectivity => "connectivity error".to_owned(),
            ClientError::Unknown(_) => "unknown client error".to_owned(),
            ClientError::PlacementLock => "unknown PlacementLock error".to_owned(),
            ClientError::DeseralizationError(_) => "error deserializing response".to_owned(),
            ClientError::SeralizationError(_) => "error serializing message".to_owned(),
            ClientError::IoError(_) => "std::io::Error".to_owned(),
            ClientError::ResponseError(_) => "error in the service response".to_owned(),
        }
    }
}

/// Union of types for actions that bundle client logic and response handling
#[derive(Debug, PartialEq, Eq)]
pub enum RequestError<E> {
    ResponseError(ResponseError),
    ClientError(ClientError),
    ApplicationError(E),
}

/// The text that reports an application error whose bytes do not decode.
pub open spec fn undecodable_text(reason: Seq<char>) -> Seq<char> {
    "Application error deserialization issue: "@ + reason
}

/// `bincode::deserialize` of an application error. Nothing is stated of the
/// outcome: what the bytes decode to depends on `E`'s `Deserialize` impl.
#[verifier::external_body]
fn decode_application_error<E: DeserializeOwned>(bytes: &Vec<u8>) -> (r: Result<E, String>) {
    bincode::deserialize::<E>(bytes).map_err(|e| e.to_string())
}

impl<E> RequestError<E> {
    /// The request error for a response error, given what decoding its
    /// application-error bytes gave (`decoded` is looked at only for
    /// `ApplicationError`).
    pub fn from_response_decoded(err: ResponseError, decoded: Result<E, String>) -> (r: RequestError<E>)
        ensures
            match err {
                ResponseError::ApplicationError(_) => match decoded {
                    Ok(e) => r == RequestError::<E>::ApplicationError(e),
                    Err(reason) => r matches RequestError::ResponseError(ResponseError::DeseralizationError(m))
                        && m@ == undecodable_text(reason@),
                },
                rest => r == RequestError::<E>::ResponseError(rest),
            },
    {
        match err {
            ResponseError::ApplicationError(_) => match decoded {
                Ok(e) => RequestError::ApplicationError(e),
                Err(reason) => {
                    let message = "Application error deserialization issue: ".to_owned().concat(reason.as_str());
                    RequestError::ResponseError(ResponseError::DeseralizationError(message))
                },
            },
            rest => RequestError::ResponseError(rest),
        }
    }
}

impl<E: DeserializeOwned> RequestError<E> {
    /// Converts a response error: an application error is decoded (bincode)
    /// into `E`; bytes that do not decode become a deserialization error whose
    /// text is `undecodable_text` of the decoder's reason.
    pub fn from_response_error(err: ResponseError) -> (r: RequestError<E>)
        ensures
            match err {
                ResponseError::ApplicationError(_) => r is ApplicationError
                    || (r matches RequestError::ResponseError(ResponseError::DeseralizationError(m))
                        && exists|reason: Seq<char>| m@ == #[trigger] undecodable_text(reason)),
                rest => r == RequestError::<E>::ResponseError(rest),
            },
    {
        match err {
            ResponseError::ApplicationError(bytes) => {
                let decoded = decode_application_error::<E>(&bytes);
                Self::from_response_decoded(ResponseError::ApplicationError(bytes), decoded)
            },
            rest => Self::from_response_decoded(rest, Err(String::new())),
        }
    }
}

impl<E> From<ClientError> for RequestError<E> {
    fn from(err: ClientError) -> (r: Self) {
        RequestError::ClientError(err)
    }
}

impl<E> vstd::std_specs::convert::FromSpecImpl<ClientError> for RequestError<E> {
    open spec fn obeys_from_spec() -> bool {
        true
    }

    open spec fn from_spec(v: ClientError) -> Self {
        RequestError::ClientError(v)
    }
}

} // verus!
