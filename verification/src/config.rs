//! Configuration records for components, providers and storage.

use vstd::prelude::*;

verus! {

/// Base configuration of a component.
#[derive(Debug)]
pub struct BaseConfig {
    pub data_dir: String,
    pub log_level: String,
}

impl Default for BaseConfig {
    fn default() -> (c: BaseConfig)
        ensures
            c.data_dir@ == "./data"@,
            c.log_level@ == "info"@,
    {
        BaseConfig { data_dir: "./data".to_string(), log_level: "info".to_string() }
    }
}

/// Configuration of an LLM provider.
#[derive(Debug)]
pub struct ProviderConfig {
    pub name: String,
    pub api_key: Option<String>,
    pub base_url: Option<String>,
    pub default_model: String,
    pub timeout_seconds: Option<u64>,
}

impl Default for ProviderConfig {
    fn default() -> (c: ProviderConfig)
        ensures
            c.name@ == "openai"@,
            c.api_key is None,
            c.base_url is None,
            c.default_model@ == "gpt-4"@,
            c.timeout_seconds == Some(30u64),
    {
        ProviderConfig {
            name: "openai".to_string(),
            api_key: None,
            base_url: None,
            default_model: "gpt-4".to_string(),
            timeout_seconds: Some(30),
        }
    }
}

/// Storage backends.
#[derive(Debug, Clone, Copy, PartialEq, Eq, Structural)]
pub enum StorageBackend {
    SurrealFile,
    SurrealMemory,
    Redis,
}

/// Storage configuration. The path of file-based backends is held as text.
#[derive(Debug)]
pub struct StorageConfig {
    pub backend: StorageBackend,
    pub path: Option<String>,
    pub connection_string: Option<String>,
    pub namespace: String,
    pub database: String,
}

impl Default for StorageConfig {
    fn default() -> (c: StorageConfig)
        ensures
            c.backend == StorageBackend::SurrealFile,
            c.path is Some && c.path->0@ == "./data/memory.db"@,
            c.connection_string is None,
            c.namespace@ == "luts"@,
            c.database@ == "memory"@,
    {
        StorageConfig {
            backend: StorageBackend::SurrealFile,
            path: Some("./data/memory.db".to_string()),
            connection_string: None,
            namespace: "luts".to_string(),
            database: "memory".to_string(),
        }
    }
}

} // verus!
