use rio_rs::cluster::membership_protocol::local::LocalClusterProvider;
use rio_rs::server::{admin_action, AdminAction, AdminCommands};
use rio_rs::service_object::{IdentifiableType, LifecycleMessage, ObjectId, WithId};
use rio_rs::sql_migration::{
    PgMembershipStorageMigrations, PgObjectPlacementMigrations, PgStageMigrations, SqlMigrations,
    SqliteMembersStorageMigrations, SqliteObjectPlacementMigrations, SqliteStateMigrations,
};
use rio_rs::state::state_key_of;
use rio_rs::text::{read_bool, split_text, write_bool};

struct Human {
    id: String,
}

impl WithId for Human {
    fn set_id(&mut self, id: String) {
        self.id = id;
    }
    fn id(&self) -> &str {
        &self.id
    }
}

impl IdentifiableType for Human {
    fn user_defined_type_id() -> &'static str {
        "Human"
    }
}

#[test]
fn identity() {
    let mut h = Human { id: String::new() };
    h.set_id("john".to_string());
    assert_eq!(h.id(), "john");
    assert_eq!(h.instance_type_id(), "Human");
    assert_eq!(LifecycleMessage::user_defined_type_id(), "LifecycleMessage");
    assert_eq!(LifecycleMessage::Load.instance_type_id(), "LifecycleMessage");
    let id = ObjectId::new("Human".to_string(), "john".to_string());
    assert_eq!(id.0, "Human");
    assert_eq!(id.1, "john");
}

#[test]
fn local_provider_and_admin_commands() {
    let provider = LocalClusterProvider { members_storage: 3u8 };
    assert_eq!(*provider.members_storage(), 3);
    assert_eq!(
        AdminCommands::Shutdown("T".to_string(), "1".to_string()),
        AdminCommands::Shutdown("T".to_string(), "1".to_string())
    );
    assert_ne!(AdminCommands::ServerExit, AdminCommands::Shutdown(String::new(), String::new()));
}

#[test]
fn migrations() {
    let sqlite = SqliteMembersStorageMigrations::queries();
    assert_eq!(sqlite.len(), 2);
    assert!(sqlite[0].contains("cluster_provider_members"));
    assert!(sqlite[1].contains("cluster_provider_member_failures"));
    assert_eq!(PgMembershipStorageMigrations::queries().len(), 2);
    assert_eq!(PgObjectPlacementMigrations::queries().len(), 1);
    assert_eq!(SqliteObjectPlacementMigrations::queries().len(), 1);
    assert_eq!(SqliteStateMigrations::queries().len(), 1);
    assert_eq!(PgStageMigrations::queries().len(), 1);
}

#[test]
fn state_keys() {
    assert_eq!(state_key_of("p:", "Person", "1", "PersonState"), "p:state:Person:1:PersonState");
}

#[test]
fn text_helpers() {
    assert_eq!(split_text("a;;b;", ';'), vec!["a", "", "b", ""]);
    assert_eq!(split_text("", ';'), vec![""]);
    assert_eq!(write_bool(true), "true");
    assert_eq!(read_bool("false"), Some(false));
    assert_eq!(read_bool("FALSE"), None);
}

#[test]
fn admin_commands_become_actions() {
    match admin_action(AdminCommands::Shutdown("Human".to_string(), "john".to_string())) {
        AdminAction::Forget(ObjectId(kind, id)) => {
            assert_eq!(kind, "Human");
            assert_eq!(id, "john");
        }
        AdminAction::Stop => panic!("a shutdown forgets the object"),
    }
    assert!(matches!(admin_action(AdminCommands::ServerExit), AdminAction::Stop));
}
