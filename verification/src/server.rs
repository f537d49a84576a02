//! Commands the server receives from its own service objects.

use vstd::prelude::*;

use crate::errors::ServerBuilderError;
use crate::service_object::ObjectId;

verus! {

/// Internal commands, e.g., shutdown a service object
#[derive(Debug, PartialEq, Eq)]
pub enum AdminCommands {
    ServerExit,
    /// Shutdown(handler_type, handler_id)
    Shutdown(String, String),
}

/// What the server does with an admin command.
#[derive(Debug)]
pub enum AdminAction {
    /// Take the object out of the registry and of the placement.
    Forget(ObjectId),
    /// Stop serving admin commands, which stops the server.
    Stop,
}

/// A shutdown makes the server forget the object; an exit stops it.
pub fn admin_action(command: AdminCommands) -> (r: AdminAction)
    ensures
        match command {
            AdminCommands::Shutdown(kind, id) => r == AdminAction::Forget(ObjectId(kind, id)),
            AdminCommands::ServerExit => r is Stop,
        },
{
    match command {
        AdminCommands::Shutdown(kind, id) => AdminAction::Forget(ObjectId::new(kind, id)),
        AdminCommands::ServerExit => AdminAction::Stop,
    }
}

/// The parts a server cannot be built without: its cluster provider (which
/// holds the membership storage) and its object placement, checked in that
/// order.
pub fn required_parts<C, P>(cluster_provider: Option<C>, object_placement_provider: Option<P>) -> (r: Result<(C, P), ServerBuilderError>)
    ensures
        match (cluster_provider, object_placement_provider) {
            (None, _) => r == Err::<(C, P), ServerBuilderError>(ServerBuilderError::NoMembershipStorage),
            (Some(_), None) => r == Err::<(C, P), ServerBuilderError>(ServerBuilderError::NoObjectPlacement),
            (Some(c), Some(p)) => r == Ok::<(C, P), ServerBuilderError>((c, p)),
        },
{
    match (cluster_provider, object_placement_provider) {
        (None, _) => Err(ServerBuilderError::NoMembershipStorage),
        (Some(_), None) => Err(ServerBuilderError::NoObjectPlacement),
        (Some(c), Some(p)) => Ok((c, p)),
    }
}

} // verus!
