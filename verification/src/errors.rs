//! Error types of the framework, with the message each one carries.

use vstd::prelude::*;

use crate::protocol::ClientError;

verus! {

/// Message handling error. It occurs, mostly, from the object look up to
/// the end of its execution
#[derive(Debug, PartialEq, Eq)]
pub enum HandlerError {
    ObjectNotFound,
    HandlerNotFound,
    MessageSerializationError,
    ResponseSerializationError,
    Unknown,
    ApplicationError(Vec<u8>),
}

impl HandlerError {
    /// The message of each variant.
    pub open spec fn text(&self) -> Seq<char> {
        match self {
            HandlerError::ObjectNotFound => "object not found"@,
            HandlerError::HandlerNotFound => "message handler not found"@,
            HandlerError::MessageSerializationError => "message serialization error"@,
            HandlerError::ResponseSerializationError => "response serialization error"@,
            HandlerError::Unknown => "unknown execution error"@,
            HandlerError::ApplicationError(_) => "error caused internally by the application"@,
        }
    }

    /// The error's message.
    pub fn message(&self) -> (r: String)
        ensures
            r@ == self.text(),
    {
        match self {
            HandlerError::ObjectNotFound => "object not found".to_owned(),
            HandlerError::HandlerNotFound => "message handler not found".to_owned(),
            HandlerError::MessageSerializationError => "message serialization error".to_owned(),
            HandlerError::ResponseSerializationError => "response serialization error".to_owned(),
            HandlerError::Unknown => "unknown execution error".to_owned(),
            HandlerError::ApplicationError(_) => "error caused internally by the application".to_owned(),
        }
    }
}

/// Represents errors that occur in the lifecyle functions of an object.
#[derive(Debug, PartialEq, Eq, Clone, Structural)]
pub enum ServiceObjectLifeCycleError {
    Unknown,
}

impl ServiceObjectLifeCycleError {
    /// The error's message.
    pub fn message(&self) -> (r: String)
        ensures
            r@ == "unknown error"@,
    {
        "unknown error".to_owned()
    }
}

/// Errors triggered while building a client
#[derive(Debug, PartialEq, Eq, Structural)]
pub enum ClientBuilderError {
    NoMembershipStorage,
}

impl ClientBuilderError {
    /// The error's message.
    pub fn message(&self) -> (r: String)
        ensures
            r@ == "no MembershipStorage provided"@,
    {
        "no MembershipStorage provided".to_owned()
    }
}

/// Errors triggered while building a server: a part it cannot run without
/// is missing
#[derive(Debug, PartialEq, Eq, Structural)]
pub enum ServerBuilderError {
    NoMembershipStorage,
    NoObjectPlacement,
}

impl ServerBuilderError {
    /// The message of each variant.
    pub open spec fn text(&self) -> Seq<char> {
        match self {
            ServerBuilderError::NoMembershipStorage => "no MembershipStorage provided"@,
            ServerBuilderError::NoObjectPlacement => "no ObjectPlacement provided"@,
        }
    }

    /// The error's message.
    pub fn message(&self) -> (r: String)
        ensures
            r@ == self.text(),
    {
        match self {
            ServerBuilderError::NoMembershipStorage => "no MembershipStorage provided".to_owned(),
            ServerBuilderError::NoObjectPlacement => "no ObjectPlacement provided".to_owned(),
        }
    }
}

/// Represent errors that  happen during the server setup
#[derive(Debug, PartialEq, Eq)]
pub enum ServerError {
    Bind(String),
    ClientBuilder(ClientError),
    ClusterProviderServe(ClusterProviderServeError),
    ObjectPlacement(ObjectPlacementError),
    Run,
}

impl ServerError {
    /// The message of each variant.
    pub open spec fn text(&self) -> Seq<char> {
        match self {
            ServerError::Bind(_) => "bind"@,
            ServerError::ClientBuilder(_) => "client builder"@,
            ServerError::ClusterProviderServe(_) => "cluster provider"@,
            ServerError::ObjectPlacement(_) => "object placement"@,
            ServerError::Run => "Run"@,
        }
    }

    /// The error's message.
    pub fn message(&self) -> (r: String)
        ensures
            r@ == self.text(),
    {
        match self {
            ServerError::Bind(_) => "bind".to_owned(),
            ServerError::ClientBuilder(_) => "client builder".to_owned(),
            ServerError::ClusterProviderServe(_) => "cluster provider".to_owned(),
            ServerError::ObjectPlacement(_) => "object placement".to_owned(),
            ServerError::Run => "Run".to_owned(),
        }
    }
}

impl From<ObjectPlacementError> for ServerError {
    fn from(err: ObjectPlacementError) -> (r: Self) {
        ServerError::ObjectPlacement(err)
    }
}

impl vstd::std_specs::convert::FromSpecImpl<ObjectPlacementError> for ServerError {
    open spec fn obeys_from_spec() -> bool {
        true
    }

    open spec fn from_spec(v: ObjectPlacementError) -> Self {
        ServerError::ObjectPlacement(v)
    }
}

/// Error type for the cluster membership storage
#[derive(Debug, PartialEq, Eq)]
pub enum MembershipError {
    Upstream(String),
    Unknown(String),
    ReadOnly(String),
    DeserializationError,
}

impl MembershipError {
    /// The message of each variant.
    pub open spec fn text(&self) -> Seq<char> {
        match self {
            MembershipError::Upstream(_) => "upstream error"@,
            MembershipError::Unknown(_) => "unknown"@,
            MembershipError::ReadOnly(_) => "This MembershipStorage is Read-only"@,
            MembershipError::DeserializationError => "deserialization error"@,
        }
    }

    /// The error's message.
    pub fn message(&self) -> (r: String)
        ensures
            r@ == self.text(),
    {
        match self {
            MembershipError::Upstream(_) => "upstream error".to_owned(),
            MembershipError::Unknown(_) => "unknown".to_owned(),
            MembershipError::ReadOnly(_) => "This MembershipStorage is Read-only".to_owned(),
            MembershipError::DeserializationError => "deserialization error".to_owned(),
        }
    }
}

/// Error type for the serve function of the cluster provider
#[derive(Debug, PartialEq, Eq)]
pub enum ClusterProviderServeError {
    MembershipProviderError(String),
    SocketAddrParsingError,
    Unknown(String),
}

impl ClusterProviderServeError {
    /// The message of each variant.
    pub open spec fn text(&self) -> Seq<char> {
        match self {
            ClusterProviderServeError::MembershipProviderError(_) => "can't communicate with membership provider's storage"@,
            ClusterProviderServeError::SocketAddrParsingError => "error pasing value into a SocketAddr"@,
            ClusterProviderServeError::Unknown(_) => "unknown cluster provider serve error"@,
        }
    }

    /// The error's message.
    pub fn message(&self) -> (r: String)
        ensures
            r@ == self.text(),
    {
        match self {
            ClusterProviderServeError::MembershipProviderError(_) => "can't communicate with membership provider's storage".to_owned(),
            ClusterProviderServeError::SocketAddrParsingError => "error pasing value into a SocketAddr".to_owned(),
            ClusterProviderServeError::Unknown(_) => "unknown cluster provider serve error".to_owned(),
        }
    }

    /// A storage failure seen by the cluster provider: it keeps the
    /// storage error's message.
    pub fn from_membership_error(err: MembershipError) -> (r: Self)
        ensures
            r matches ClusterProviderServeError::MembershipProviderError(m) && m@ == err.text(),
    {
        ClusterProviderServeError::MembershipProviderError(err.message())
    }
}

impl From<MembershipError> for ClusterProviderServeError {
    fn from(err: MembershipError) -> (r: Self)
        ensures
            r matches ClusterProviderServeError::MembershipProviderError(m) && m@ == err.text(),
    {
        Self::from_membership_error(err)
    }
}

impl vstd::std_specs::convert::FromSpecImpl<MembershipError> for ClusterProviderServeError {
    /// The conversion builds a new `String`, which a spec value cannot name;
    /// `from` states what it returns.
    open spec fn obeys_from_spec() -> bool {
        false
    }

    open spec fn from_spec(v: MembershipError) -> Self {
        ClusterProviderServeError::SocketAddrParsingError
    }
}

/// Error type for the object placement
#[derive(Debug, PartialEq, Eq)]
pub enum ObjectPlacementError {
    Upstream(String),
    Unknown(String),
}

impl ObjectPlacementError {
    /// The message of each variant.
    pub open spec fn text(&self) -> Seq<char> {
        match self {
            ObjectPlacementError::Upstream(_) => "upstream error"@,
            ObjectPlacementError::Unknown(_) => "unknown"@,
        }
    }

    /// The error's message.
    pub fn message(&self) -> (r: String)
        ensures
            r@ == self.text(),
    {
        match self {
            ObjectPlacementError::Upstream(_) => "upstream error".to_owned(),
            ObjectPlacementError::Unknown(_) => "unknown".to_owned(),
        }
    }
}

/// Error type for service object state management
#[derive(Debug, PartialEq, Eq, Structural)]
pub enum LoadStateError {
    ObjectNotFound,
    Unknown,
    DeserializationError,
    SerializationError,
}

impl LoadStateError {
    /// The message of each variant.
    pub open spec fn text(&self) -> Seq<char> {
        match self {
            LoadStateError::ObjectNotFound => "object not found"@,
            LoadStateError::Unknown => "unknown error"@,
            LoadStateError::DeserializationError => "deserialization error"@,
            LoadStateError::SerializationError => "serialization error"@,
        }
    }

    /// The error's message.
    pub fn message(&self) -> (r: String)
        ensures
            r@ == self.text(),
    {
        match self {
            LoadStateError::ObjectNotFound => "object not found".to_owned(),
            LoadStateError::Unknown => "unknown error".to_owned(),
            LoadStateError::DeserializationError => "deserialization error".to_owned(),
            LoadStateError::SerializationError => "serialization error".to_owned(),
        }
    }
}

} // verus!
