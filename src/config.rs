//! Settings of the runtime's subsystems. Paths are held as text.

use vstd::prelude::*;
use vstd::string::*;

use crate::security::{EncryptionAlgorithm, PermissionModel, SecurityConfig};
use crate::vault::VaultConfig;

verus! {

/// Settings of the embedded script backend.
#[derive(Debug)]
pub struct PythonConfig {
    pub python_path: Option<String>,
    pub virtual_env: Option<String>,
    pub modules_path: String,
    pub max_memory_mb: u64,
    pub timeout_seconds: u64,
}

/// Settings of the relational store.
#[derive(Debug)]
pub struct DatabaseConfig {
    pub database_path: String,
    pub connection_pool_size: u32,
    pub enable_wal: bool,
    pub backup_interval_hours: u64,
}

/// Limits of the data connectors.
#[derive(Debug, Clone, Copy, PartialEq, Eq, Structural)]
pub struct ConnectorConfig {
    pub max_concurrent_connections: u32,
    pub default_timeout_seconds: u64,
    pub retry_attempts: u32,
    pub rate_limit_per_second: u32,
}

/// All settings, rooted at one data directory.
#[derive(Debug)]
pub struct AgentSpaceConfig {
    pub data_directory: String,
    pub vault_config: VaultConfig,
    pub python_config: PythonConfig,
    pub security_config: SecurityConfig,
    pub database_config: DatabaseConfig,
    pub connector_config: ConnectorConfig,
}

/// `name` inside directory `dir`: a separator goes between them unless `dir` is
/// empty or already ends in one.
pub open spec fn joined(dir: Seq<char>, name: Seq<char>) -> Seq<char> {
    if dir.len() == 0 || dir.last() == '/' {
        dir + name
    } else {
        dir + seq!['/'] + name
    }
}

/// Joins `name` onto directory `dir`.
pub fn join_path(dir: &String, name: &str) -> (r: String)
    ensures
        r@ == joined(dir@, name@),
{
    let n = dir.as_str().unicode_len();
    if n == 0 || dir.as_str().get_char(n - 1) == '/' {
        dir.clone().concat(name)
    } else {
        proof {
            reveal_strlit("/");
        }
        let with_sep = dir.clone().concat("/");
        let r = with_sep.concat(name);
        assert(r@ =~= dir@ + seq!['/'] + name@);
        r
    }
}

impl AgentSpaceConfig {
    /// The default settings with everything kept under `data_directory`: the vault in
    /// `vault`, script modules in `python_modules`, the store in `agents.db`.
    pub fn default_under(data_directory: String) -> (r: AgentSpaceConfig)
        ensures
            r.data_directory == data_directory,
            r.vault_config.vault_path@ == joined(data_directory@, "vault"@),
            r.vault_config.encryption_enabled && r.vault_config.backup_enabled && !r.vault_config.sync_enabled,
            r.python_config.python_path is None && r.python_config.virtual_env is None,
            r.python_config.modules_path@ == joined(data_directory@, "python_modules"@),
            r.python_config.max_memory_mb == 512 && r.python_config.timeout_seconds == 300,
            r.security_config == (SecurityConfig {
                enable_sandboxing: true,
                audit_enabled: true,
                permission_model: PermissionModel::Balanced,
                encryption_algorithm: EncryptionAlgorithm::Aes256Gcm,
            }),
            r.database_config.database_path@ == joined(data_directory@, "agents.db"@),
            r.database_config.connection_pool_size == 10 && r.database_config.enable_wal
                && r.database_config.backup_interval_hours == 24,
            r.connector_config == (ConnectorConfig {
                max_concurrent_connections: 50,
                default_timeout_seconds: 30,
                retry_attempts: 3,
                rate_limit_per_second: 10,
            }),
    {
        let vault_path = join_path(&data_directory, "vault");
        let modules_path = join_path(&data_directory, "python_modules");
        let database_path = join_path(&data_directory, "agents.db");
        AgentSpaceConfig {
            data_directory,
            vault_config: VaultConfig {
                vault_path,
                encryption_enabled: true,
                backup_enabled: true,
                sync_enabled: false,
            },
            python_config: PythonConfig {
                python_path: None,
                virtual_env: None,
                modules_path,
                max_memory_mb: 512,
                timeout_seconds: 300,
            },
            security_config: SecurityConfig {
                enable_sandboxing: true,
                audit_enabled: true,
                permission_model: PermissionModel::Balanced,
                encryption_algorithm: EncryptionAlgorithm::Aes256Gcm,
            },
            database_config: DatabaseConfig {
                database_path,
                connection_pool_size: 10,
                enable_wal: true,
                backup_interval_hours: 24,
            },
            connector_config: ConnectorConfig {
                max_concurrent_connections: 50,
                default_timeout_seconds: 30,
                retry_attempts: 3,
                rate_limit_per_second: 10,
            },
        }
    }
}

} // verus!
