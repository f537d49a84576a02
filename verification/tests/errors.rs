use rio_rs::errors::{
    ClientBuilderError, ClusterProviderServeError, HandlerError, LoadStateError, MembershipError,
    ObjectPlacementError, ServerBuilderError, ServerError, ServiceObjectLifeCycleError,
};
use rio_rs::server::required_parts;

#[test]
fn error_messages() {
    assert_eq!(HandlerError::ApplicationError(vec![]).message(), "error caused internally by the application");
    assert_eq!(ServiceObjectLifeCycleError::Unknown.message(), "unknown error");
    assert_eq!(ClientBuilderError::NoMembershipStorage.message(), "no MembershipStorage provided");
    assert_eq!(ServerError::Bind("x".to_string()).message(), "bind");
    assert_eq!(MembershipError::ReadOnly("x".to_string()).message(), "This MembershipStorage is Read-only");
    assert_eq!(ClusterProviderServeError::SocketAddrParsingError.message(), "error pasing value into a SocketAddr");
    assert_eq!(ObjectPlacementError::Upstream("x".to_string()).message(), "upstream error");
    assert_eq!(LoadStateError::SerializationError.message(), "serialization error");
}

#[test]
fn error_conversions() {
    assert_eq!(
        ServerError::from(ObjectPlacementError::Unknown("u".to_string())),
        ServerError::ObjectPlacement(ObjectPlacementError::Unknown("u".to_string()))
    );
    assert_eq!(
        ClusterProviderServeError::from(MembershipError::Upstream("db down".to_string())),
        ClusterProviderServeError::MembershipProviderError("upstream error".to_string())
    );
}

#[test]
fn server_parts_are_required() {
    assert_eq!(required_parts::<u8, u16>(None, Some(2)), Err(ServerBuilderError::NoMembershipStorage));
    assert_eq!(required_parts::<u8, u16>(None, None), Err(ServerBuilderError::NoMembershipStorage));
    assert_eq!(required_parts::<u8, u16>(Some(1), None), Err(ServerBuilderError::NoObjectPlacement));
    assert_eq!(required_parts::<u8, u16>(Some(1), Some(2)), Ok((1, 2)));
    assert_eq!(ServerBuilderError::NoObjectPlacement.message(), "no ObjectPlacement provided");
    assert_eq!(ServerBuilderError::NoMembershipStorage.message(), "no MembershipStorage provided");
}
