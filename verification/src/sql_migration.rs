//! Schema migrations of the SQL back-ends.

use vstd::prelude::*;

use crate::text::{split_spec, split_text, views};

verus! {

/// The statements that set up a back-end's tables.
pub trait SqlMigrations {
    fn queries() -> Vec<String>;
}

/// Schema of the SQLite membership storage.
pub const SQLITE_MEMBERS_SCHEMA: &'static str = "CREATE TABLE IF NOT EXISTS cluster_provider_members (
    ip TEXT NOT NULL,
    port TEXT NOT NULL,
    active BOOLEAN NOT NULL DEFAULT FALSE,
    last_seen TIMESTAMP NOT NULL DEFAULT CURRENT_TIMESTAMP,
    PRIMARY KEY (ip, port)
);
CREATE TABLE IF NOT EXISTS cluster_provider_member_failures (
    id INTEGER PRIMARY KEY AUTOINCREMENT,
    ip TEXT NOT NULL,
    port TEXT NOT NULL,
    time TIMESTAMP NOT NULL DEFAULT CURRENT_TIMESTAMP
)";

/// Schema of the PostgreSQL membership storage.
pub const POSTGRES_MEMBERS_SCHEMA: &'static str = "CREATE TABLE IF NOT EXISTS cluster_provider_members (
    ip VARCHAR NOT NULL,
    port VARCHAR NOT NULL,
    active BOOLEAN NOT NULL DEFAULT FALSE,
    last_seen TIMESTAMPTZ NOT NULL DEFAULT CURRENT_TIMESTAMP,
    PRIMARY KEY (ip, port)
);
CREATE TABLE IF NOT EXISTS cluster_provider_member_failures (
    id SERIAL PRIMARY KEY,
    ip VARCHAR NOT NULL,
    port VARCHAR NOT NULL,
    time TIMESTAMPTZ NOT NULL DEFAULT CURRENT_TIMESTAMP
)";

/// Schema of the SQLite object placement.
pub const SQLITE_PLACEMENT_SCHEMA: &'static str = "CREATE TABLE IF NOT EXISTS object_placement (
    struct_name TEXT NOT NULL,
    object_id TEXT NOT NULL,
    server_address TEXT NULL,
    PRIMARY KEY (struct_name, object_id)
)";

/// Schema of the PostgreSQL object placement.
pub const POSTGRES_PLACEMENT_SCHEMA: &'static str = "CREATE TABLE IF NOT EXISTS object_placement (
    struct_name VARCHAR NOT NULL,
    object_id VARCHAR NOT NULL,
    server_address VARCHAR NULL,
    PRIMARY KEY (struct_name, object_id)
)";

/// Schema of the SQLite state storage.
pub const SQLITE_STATE_SCHEMA: &'static str = "CREATE TABLE IF NOT EXISTS state_provider_object_state (
    object_kind TEXT NOT NULL,
    object_id TEXT NOT NULL,
    state_type TEXT NOT NULL,
    serialized_state BLOB NOT NULL,
    PRIMARY KEY (object_kind, object_id, state_type)
)";

/// Schema of the PostgreSQL state storage.
pub const POSTGRES_STATE_SCHEMA: &'static str = "CREATE TABLE IF NOT EXISTS state_provider_object_state (
    object_kind VARCHAR NOT NULL,
    object_id VARCHAR NOT NULL,
    state_type VARCHAR NOT NULL,
    serialized_state BYTEA NOT NULL,
    PRIMARY KEY (object_kind, object_id, state_type)
)";

/// Migrations of the SQLite membership storage: its schema split into statements at `;`.
pub struct SqliteMembersStorageMigrations {}

impl SqliteMembersStorageMigrations {
    /// The statements, one per `;`-separated piece of the schema.
    pub fn statements() -> (r: Vec<String>)
        ensures
            views(r@) == split_spec(SQLITE_MEMBERS_SCHEMA@, ';'),
    {
        split_text(SQLITE_MEMBERS_SCHEMA, ';')
    }
}

impl SqlMigrations for SqliteMembersStorageMigrations {
    fn queries() -> (r: Vec<String>)
        ensures
            views(r@) == split_spec(SQLITE_MEMBERS_SCHEMA@, ';'),
    {
        Self::statements()
    }
}

/// Migrations of the PostgreSQL membership storage: its schema split into statements at `;`.
pub struct PgMembershipStorageMigrations {}

impl PgMembershipStorageMigrations {
    /// The statements, one per `;`-separated piece of the schema.
    pub fn statements() -> (r: Vec<String>)
        ensures
            views(r@) == split_spec(POSTGRES_MEMBERS_SCHEMA@, ';'),
    {
        split_text(POSTGRES_MEMBERS_SCHEMA, ';')
    }
}

impl SqlMigrations for PgMembershipStorageMigrations {
    fn queries() -> (r: Vec<String>)
        ensures
            views(r@) == split_spec(POSTGRES_MEMBERS_SCHEMA@, ';'),
    {
        Self::statements()
    }
}

/// Migrations of the SQLite object placement: one statement.
pub struct SqliteObjectPlacementMigrations {}

impl SqlMigrations for SqliteObjectPlacementMigrations {
    fn queries() -> (r: Vec<String>)
        ensures
            views(r@) == seq![SQLITE_PLACEMENT_SCHEMA@],
    {
        let mut v: Vec<String> = Vec::new();
        v.push(SQLITE_PLACEMENT_SCHEMA.to_owned());
        assert(views(v@) =~= seq![SQLITE_PLACEMENT_SCHEMA@]);
        v
    }
}

/// Migrations of the PostgreSQL object placement: its schema split into statements at `;`.
pub struct PgObjectPlacementMigrations {}

impl PgObjectPlacementMigrations {
    /// The statements, one per `;`-separated piece of the schema.
    pub fn statements() -> (r: Vec<String>)
        ensures
            views(r@) == split_spec(POSTGRES_PLACEMENT_SCHEMA@, ';'),
    {
        split_text(POSTGRES_PLACEMENT_SCHEMA, ';')
    }
}

impl SqlMigrations for PgObjectPlacementMigrations {
    fn queries() -> (r: Vec<String>)
        ensures
            views(r@) == split_spec(POSTGRES_PLACEMENT_SCHEMA@, ';'),
    {
        Self::statements()
    }
}

/// Migrations of the SQLite state storage: one statement.
pub struct SqliteStateMigrations {}

impl SqlMigrations for SqliteStateMigrations {
    fn queries() -> (r: Vec<String>)
        ensures
            views(r@) == seq![SQLITE_STATE_SCHEMA@],
    {
        let mut v: Vec<String> = Vec::new();
        v.push(SQLITE_STATE_SCHEMA.to_owned());
        assert(views(v@) =~= seq![SQLITE_STATE_SCHEMA@]);
        v
    }
}

/// Migrations of the PostgreSQL state storage: one statement.
pub struct PgStageMigrations {}

impl SqlMigrations for PgStageMigrations {
    fn queries() -> (r: Vec<String>)
        ensures
            views(r@) == seq![POSTGRES_STATE_SCHEMA@],
    {
        let mut v: Vec<String> = Vec::new();
        v.push(POSTGRES_STATE_SCHEMA.to_owned());
        assert(views(v@) =~= seq![POSTGRES_STATE_SCHEMA@]);
        v
    }
}

} // verus!
