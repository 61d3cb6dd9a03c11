//! Schema migrations of the store, kept in order of version.

use vstd::prelude::*;
use vstd::string::*;

verus! {

/// What the initial migration does.
pub const INITIAL_DESCRIPTION: &'static str = "Create initial memory tables";

/// The statements that create the memory tables.
pub const INITIAL_UP_SQL: &'static str = "CREATE TABLE IF NOT EXISTS long_term_memory (id INTEGER PRIMARY KEY AUTOINCREMENT, content TEXT NOT NULL, created_at DATETIME DEFAULT CURRENT_TIMESTAMP, metadata TEXT);
CREATE TABLE IF NOT EXISTS short_term_memory (id INTEGER PRIMARY KEY AUTOINCREMENT, content TEXT NOT NULL, expires_at DATETIME NOT NULL, created_at DATETIME DEFAULT CURRENT_TIMESTAMP, metadata TEXT);
CREATE TABLE IF NOT EXISTS vector_db (id INTEGER PRIMARY KEY AUTOINCREMENT, document_id TEXT NOT NULL UNIQUE, content TEXT NOT NULL, embedding BLOB, collection_name TEXT NOT NULL DEFAULT 'default', metadata TEXT, created_at DATETIME DEFAULT CURRENT_TIMESTAMP);
CREATE INDEX IF NOT EXISTS idx_long_term_created_at ON long_term_memory(created_at);
CREATE INDEX IF NOT EXISTS idx_short_term_expires_at ON short_term_memory(expires_at);
CREATE INDEX IF NOT EXISTS idx_vector_db_collection ON vector_db(collection_name);
CREATE INDEX IF NOT EXISTS idx_vector_db_document_id ON vector_db(document_id);
CREATE TABLE IF NOT EXISTS schema_migrations (version INTEGER PRIMARY KEY, description TEXT NOT NULL, applied_at DATETIME DEFAULT CURRENT_TIMESTAMP);";

/// The statements that drop the memory tables.
pub const INITIAL_DOWN_SQL: &'static str = "DROP TABLE IF EXISTS long_term_memory;
DROP TABLE IF EXISTS short_term_memory;
DROP TABLE IF EXISTS vector_db;
DROP TABLE IF EXISTS schema_migrations;";

/// A change of the store's schema.
pub trait Migration {
    fn version(&self) -> i32;

    fn description(&self) -> &str;

    fn up_sql(&self) -> &str;

    fn down_sql(&self) -> Option<&str>;
}

/// The migration that creates the memory tables.
#[derive(Debug)]
pub struct InitialMigration;

impl Migration for InitialMigration {
    fn version(&self) -> i32 {
        1
    }

    fn description(&self) -> &str {
        INITIAL_DESCRIPTION
    }

    fn up_sql(&self) -> &str {
        INITIAL_UP_SQL
    }

    fn down_sql(&self) -> Option<&str> {
        Some(INITIAL_DOWN_SQL)
    }
}

/// A migration as the runner keeps it.
#[derive(Debug)]
pub struct MigrationStep {
    pub version: i32,
    pub description: String,
    pub up_sql: String,
    pub down_sql: Option<String>,
}

impl MigrationStep {
    /// The step of the initial migration: version 1, which creates the memory tables.
    pub fn initial() -> (r: MigrationStep)
        ensures
            r.version == 1,
            r.description@ == "Create initial memory tables"@,
            r.down_sql is Some,
    {
        proof {
            reveal_strlit("Create initial memory tables");
        }
        MigrationStep {
            version: 1,
            description: String::from_str(INITIAL_DESCRIPTION),
            up_sql: String::from_str(INITIAL_UP_SQL),
            down_sql: Some(String::from_str(INITIAL_DOWN_SQL)),
        }
    }

    /// The step of migration `m`.
    pub fn of<M: Migration>(m: &M) -> (r: MigrationStep) {
        MigrationStep {
            version: m.version(),
            description: m.description().to_string(),
            up_sql: m.up_sql().to_string(),
            down_sql: match m.down_sql() {
                Some(s) => Some(s.to_string()),
                None => None,
            },
        }
    }
}

/// Versions never decrease along `s`.
pub open spec fn sorted_by_version(s: Seq<MigrationStep>) -> bool {
    forall|i: int, j: int| 0 <= i < j < s.len() ==> s[i].version <= s[j].version
}

/// Position at which a step of version `v` joins `s`: after every step of a version
/// up to `v`.
pub open spec fn insertion_point(s: Seq<MigrationStep>, v: i32) -> int
    decreases s.len(),
{
    if s.len() == 0 {
        0
    } else if s.last().version <= v {
        s.len() as int
    } else {
        insertion_point(s.drop_last(), v)
    }
}

/// Applies pending migrations in order of version.
#[derive(Debug)]
pub struct MigrationRunner {
    migrations: Vec<MigrationStep>,
}

impl MigrationRunner {
    pub closed spec fn steps(&self) -> Seq<MigrationStep> {
        self.migrations@
    }

    /// A runner holding the initial migration.
    pub fn new() -> (r: MigrationRunner)
        ensures
            r.steps().len() == 1,
            r.steps()[0].version == 1,
            r.steps()[0].description@ == "Create initial memory tables"@,
            sorted_by_version(r.steps()),
    {
        let first = MigrationStep::initial();
        MigrationRunner { migrations: vec![first] }
    }

    /// Adds a migration, keeping the steps ordered by version; among equal versions
    /// the one added last comes last.
    pub fn add_migration(self, migration: MigrationStep) -> (r: MigrationRunner)
        requires
            sorted_by_version(self.steps()),
        ensures
            sorted_by_version(r.steps()),
            r.steps() == self.steps().insert(insertion_point(self.steps(), migration.version), migration),
    {
        let mut migrations = self.migrations;
        let ghost old_steps = migrations@;
        let v = migration.version;
        let mut i = migrations.len();
        assert(old_steps.subrange(0, i as int) =~= old_steps);
        while i > 0 && migrations[i - 1].version > v
            invariant
                migrations@ == old_steps,
                i <= old_steps.len(),
                forall|j: int| i <= j < old_steps.len() ==> old_steps[j].version > v,
                insertion_point(old_steps, v) == insertion_point(old_steps.subrange(0, i as int), v),
            decreases i,
        {
            proof {
                let t = old_steps.subrange(0, i as int);
                assert(t.drop_last() =~= old_steps.subrange(0, i - 1));
            }
            i -= 1;
        }
        proof {
            let t = old_steps.subrange(0, i as int);
            if i > 0 {
                assert(t.last() == old_steps[i - 1]);
            }
            assert(insertion_point(t, v) == i);
        }
        migrations.insert(i, migration);
        let r = MigrationRunner { migrations };
        proof {
            let s = r.steps();
            assert forall|a: int, b: int| 0 <= a < b < s.len() implies s[a].version <= s[b].version by {
                if b < i {
                    assert(old_steps[a].version <= old_steps[b].version);
                } else if b == i {
                    if a < i as int {
                        assert(old_steps[a].version <= v);
                    }
                } else if a < i {
                    assert(old_steps[a].version <= old_steps[b - 1].version);
                } else if a == i {
                    assert(old_steps[b - 1].version > v);
                } else {
                    assert(old_steps[a - 1].version <= old_steps[b - 1].version);
                }
            }
        }
        r
    }

    /// The steps, ordered by version.
    pub fn get_migrations(&self) -> (r: &[MigrationStep])
        ensures
            r@ == self.steps(),
    {
        self.migrations.as_slice()
    }
}

} // verus!
