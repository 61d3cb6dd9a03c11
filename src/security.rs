//! Permission tags, security policies and authentication context.

use vstd::prelude::*;
use vstd::string::*;

use crate::types::AgentId;

verus! {

/// A permission an agent or user may hold.
#[derive(Debug)]
pub enum Permission {
    ReadData(String),
    WriteData(String),
    ExecuteAgent,
    ManageAgents,
    AccessConnector(String),
    SystemAdmin,
    Custom(String),
}

/// The text form of a permission, `<verb>:<object>`.
pub open spec fn permission_text(p: Permission) -> Seq<char> {
    match p {
        Permission::ReadData(r) => "read:"@ + r@,
        Permission::WriteData(r) => "write:"@ + r@,
        Permission::ExecuteAgent => "execute:agent"@,
        Permission::ManageAgents => "manage:agents"@,
        Permission::AccessConnector(c) => "access:connector:"@ + c@,
        Permission::SystemAdmin => "system:admin"@,
        Permission::Custom(c) => "custom:"@ + c@,
    }
}

impl Permission {
    /// The text form of the permission.
    pub fn as_string(&self) -> (r: String)
        ensures
            r@ == permission_text(*self),
    {
        proof {
            reveal_strlit("read:");
            reveal_strlit("write:");
            reveal_strlit("execute:agent");
            reveal_strlit("manage:agents");
            reveal_strlit("access:connector:");
            reveal_strlit("system:admin");
            reveal_strlit("custom:");
        }
        match self {
            Permission::ReadData(r) => String::from_str("read:").concat(r.as_str()),
            Permission::WriteData(r) => String::from_str("write:").concat(r.as_str()),
            Permission::ExecuteAgent => String::from_str("execute:agent"),
            Permission::ManageAgents => String::from_str("manage:agents"),
            Permission::AccessConnector(c) => String::from_str("access:connector:").concat(c.as_str()),
            Permission::SystemAdmin => String::from_str("system:admin"),
            Permission::Custom(c) => String::from_str("custom:").concat(c.as_str()),
        }
    }
}

/// Sensitivity of data.
#[derive(Debug, Clone, Copy, PartialEq, Eq, Structural)]
pub enum SecurityLevel {
    Public,
    Internal,
    Confidential,
    Restricted,
}

/// Kinds of audited events.
#[derive(Debug, Clone, Copy, PartialEq, Eq, Structural)]
pub enum AuditEventType {
    Authentication,
    Authorization,
    DataAccess,
    AgentExecution,
    ConfigurationChange,
    SecurityViolation,
}

/// Who caused an audited event.
#[derive(Debug)]
pub enum ActorType {
    User(String),
    Agent(AgentId),
    System,
}

/// How an audited event ended.
#[derive(Debug)]
pub enum AuditResult {
    Success,
    Failure(String),
    Denied,
}

/// How strictly permissions are enforced.
#[derive(Debug, Clone, Copy, PartialEq, Eq, Structural)]
pub enum PermissionModel {
    Strict,
    Balanced,
    Permissive,
}

/// Ciphers the data vault may use.
#[derive(Debug, Clone, Copy, PartialEq, Eq, Structural)]
pub enum EncryptionAlgorithm {
    Aes256Gcm,
    ChaCha20Poly1305,
}

/// Security settings of the runtime.
#[derive(Debug, Clone, Copy, PartialEq, Eq, Structural)]
pub struct SecurityConfig {
    pub enable_sandboxing: bool,
    pub audit_enabled: bool,
    pub permission_model: PermissionModel,
    pub encryption_algorithm: EncryptionAlgorithm,
}

/// A named set of rules.
#[derive(Debug)]
pub struct SecurityPolicy {
    pub name: String,
    pub rules: Vec<String>,
}

impl SecurityPolicy {
    /// A policy without rules.
    pub fn new(name: String) -> (r: SecurityPolicy)
        ensures
            r.name == name,
            r.rules@.len() == 0,
    {
        SecurityPolicy { name, rules: Vec::new() }
    }
}

/// Entry point of authentication and authorisation.
#[derive(Debug)]
pub struct SecurityManager;

impl SecurityManager {
    pub fn new() -> (r: SecurityManager) {
        SecurityManager
    }
}

/// Who a request comes from.
#[derive(Debug)]
pub struct AuthContext {
    pub is_authenticated: bool,
    pub user_id: Option<String>,
}

impl AuthContext {
    /// An unauthenticated context without a user.
    pub fn new() -> (r: AuthContext)
        ensures
            !r.is_authenticated,
            r.user_id is None,
    {
        AuthContext { is_authenticated: false, user_id: None }
    }
}

} // verus!
