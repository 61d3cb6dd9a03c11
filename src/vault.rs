//! Configuration and handles of the encrypted data vault.

use vstd::prelude::*;

verus! {

/// Where the vault lives and what it does.
#[derive(Debug)]
pub struct VaultConfig {
    pub vault_path: String,
    pub encryption_enabled: bool,
    pub backup_enabled: bool,
    pub sync_enabled: bool,
}

/// Key material of the vault.
#[derive(Debug)]
pub struct EncryptionKey {
    key: Vec<u8>,
}

impl EncryptionKey {
    pub closed spec fn bytes(&self) -> Seq<u8> {
        self.key@
    }

    /// A key made of the given bytes.
    pub fn new(key: Vec<u8>) -> (r: EncryptionKey)
        ensures
            r.bytes() == key@,
    {
        EncryptionKey { key }
    }

    /// A key of 32 zero bytes.
    pub fn generate() -> (r: EncryptionKey)
        ensures
            r.bytes() == Seq::new(32, |i: int| 0u8),
    {
        let mut key: Vec<u8> = Vec::new();
        let mut i: usize = 0;
        while i < 32
            invariant
                i <= 32,
                key@ == Seq::new(i as nat, |j: int| 0u8),
            decreases 32 - i,
        {
            key.push(0u8);
            i += 1;
            assert(key@ =~= Seq::new(i as nat, |j: int| 0u8));
        }
        EncryptionKey { key }
    }

    /// Encrypts `data`. This key type carries no cipher: the result holds no bytes.
    pub fn encrypt(&self, data: &[u8]) -> (r: Vec<u8>)
        ensures
            r@.len() == 0,
    {
        Vec::new()
    }

    /// Decrypts `data`. This key type carries no cipher: the result holds no bytes.
    pub fn decrypt(&self, data: &[u8]) -> (r: Vec<u8>)
        ensures
            r@.len() == 0,
    {
        Vec::new()
    }

    /// Number of key bytes.
    pub fn len(&self) -> (r: usize)
        ensures
            r == self.bytes().len(),
    {
        self.key.len()
    }
}

/// Search index over vault entries.
#[derive(Debug)]
pub struct VaultIndexer;

impl VaultIndexer {
    pub fn new() -> (r: VaultIndexer) {
        VaultIndexer
    }
}

/// Creates and opens vaults under one configuration.
#[derive(Debug)]
pub struct VaultManager {
    pub config: VaultConfig,
}

impl VaultManager {
    pub fn new(config: VaultConfig) -> (r: VaultManager)
        ensures
            r.config == config,
    {
        VaultManager { config }
    }
}

/// One vault, stored at `path`.
#[derive(Debug)]
pub struct SecureVault {
    pub path: String,
}

impl SecureVault {
    pub fn new(path: String) -> (r: SecureVault)
        ensures
            r.path == path,
    {
        SecureVault { path }
    }
}

} // verus!
