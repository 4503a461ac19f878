//! Storage back ends: the SurrealDB connection settings, relations between
//! memory blocks, and the namespaced key-value context provider.

use vstd::prelude::*;
use crate::text::{push_str, string_from_chars};

verus! {

/// Authentication for a remote SurrealDB server.
#[derive(Debug)]
pub enum AuthConfig {
    RootAuth { username: String, password: String },
    NamespaceAuth { namespace: String, username: String, password: String },
    DatabaseAuth { namespace: String, database: String, username: String, password: String },
}

/// How the memory store connects to SurrealDB.
#[derive(Debug)]
pub enum SurrealConfig {
    /// Embedded file mode.
    File { path: String, namespace: String, database: String },
    /// A local server.
    Local { host: String, port: u16, namespace: String, database: String },
    /// A remote server.
    Remote { url: String, namespace: String, database: String, auth: AuthConfig },
}

impl Default for SurrealConfig {
    fn default() -> (c: SurrealConfig)
        ensures
            c matches SurrealConfig::File { path, namespace, database } && path@ == "./data/memory.db"@
                && namespace@ == "luts"@ && database@ == "memory"@,
    {
        SurrealConfig::File {
            path: "./data/memory.db".to_string(),
            namespace: "luts".to_string(),
            database: "memory".to_string(),
        }
    }
}

/// `dir` joined with a relative file name, as a Unix path: a `/` between
/// them unless `dir` is empty or already ends with one.
pub open spec fn path_join(dir: Seq<char>, name: Seq<char>) -> Seq<char> {
    if dir.len() == 0 {
        name
    } else if dir.last() == '/' {
        dir + name
    } else {
        dir + "/"@ + name
    }
}

/// The memory store settings of an agent: the embedded file `memory.db` in
/// the agent's data directory, namespace `luts`, database `memory`.
pub fn agent_memory_config(data_dir: &str, agent_id: &str) -> (c: SurrealConfig)
    ensures
        c matches SurrealConfig::File { path, namespace, database } && path@ == path_join(
            crate::agents::agent_dir_text(data_dir@, agent_id@),
            "memory.db"@,
        ) && namespace@ == "luts"@ && database@ == "memory"@,
{
    let dir = crate::agents::agent_data_dir(data_dir, agent_id);
    let dv = crate::text::chars_of(dir.as_str());
    let mut out: Vec<char> = Vec::new();
    push_str(&mut out, dir.as_str());
    if dv.len() > 0 && dv[dv.len() - 1] != '/' {
        push_str(&mut out, "/");
    }
    push_str(&mut out, "memory.db");
    proof {
        if dv@.len() == 0 {
            assert(out@ =~= "memory.db"@);
        }
    }
    SurrealConfig::File {
        path: string_from_chars(out.as_slice()),
        namespace: "luts".to_string(),
        database: "memory".to_string(),
    }
}

/// Checks that a connection mode is available: only the embedded mode is;
/// the server modes are refused.
pub fn check_connection_mode(config: &SurrealConfig) -> (r: Result<(), String>)
    ensures
        config is File <==> r is Ok,
        config is Local ==> r is Err && r->Err_0@ == "Local server mode not yet implemented"@,
        config is Remote ==> r is Err && r->Err_0@ == "Remote server mode not yet implemented"@,
{
    match config {
        SurrealConfig::File { .. } => Ok(()),
        SurrealConfig::Local { .. } => Err("Local server mode not yet implemented".to_string()),
        SurrealConfig::Remote { .. } => Err("Remote server mode not yet implemented".to_string()),
    }
}

/// Relations between memory blocks.
#[derive(Debug, Clone, Copy, PartialEq, Eq, Structural)]
pub enum RelationType {
    References,
    Contradicts,
    Supports,
    FollowsFrom,
    Generalizes,
    Specializes,
    Temporal,
    Similarity,
}

/// The stored name of a relation.
pub open spec fn relation_name(r: RelationType) -> Seq<char> {
    match r {
        RelationType::References => "references"@,
        RelationType::Contradicts => "contradicts"@,
        RelationType::Supports => "supports"@,
        RelationType::FollowsFrom => "follows_from"@,
        RelationType::Generalizes => "generalizes"@,
        RelationType::Specializes => "specializes"@,
        RelationType::Temporal => "temporal"@,
        RelationType::Similarity => "similarity"@,
    }
}

impl RelationType {
    /// The stored name of this relation.
    pub fn as_str(&self) -> (s: &'static str)
        ensures
            s@ == relation_name(*self),
    {
        match self {
            RelationType::References => "references",
            RelationType::Contradicts => "contradicts",
            RelationType::Supports => "supports",
            RelationType::FollowsFrom => "follows_from",
            RelationType::Generalizes => "generalizes",
            RelationType::Specializes => "specializes",
            RelationType::Temporal => "temporal",
            RelationType::Similarity => "similarity",
        }
    }
}

/// A key-value context provider on Redis; the store itself is not yet
/// available, so every operation is refused with the key it was asked for.
#[derive(Debug)]
pub struct RedisContextProvider {
    pub namespace: String,
}

/// The refusal of an operation on `key`.
pub open spec fn unavailable_message(key: Seq<char>) -> Seq<char> {
    "Redis provider not yet implemented for key: "@ + key
}

impl RedisContextProvider {
    /// Creates the provider in the namespace `context`.
    pub fn new(_connection_string: &str) -> (r: Result<RedisContextProvider, String>)
        ensures
            r is Ok && r->Ok_0.namespace@ == "context"@,
    {
        Ok(RedisContextProvider { namespace: "context".to_string() })
    }

    /// Creates the provider in the given namespace.
    pub fn with_namespace(_connection_string: &str, namespace: &str) -> (r: Result<RedisContextProvider, String>)
        ensures
            r is Ok && r->Ok_0.namespace@ == namespace@,
    {
        Ok(RedisContextProvider { namespace: namespace.to_string() })
    }

    /// The full key of an id: `<namespace>:<id>`.
    pub fn get_full_key(&self, id: &str) -> (k: String)
        ensures
            k@ == self.namespace@ + ":"@ + id@,
    {
        let mut out: Vec<char> = Vec::new();
        push_str(&mut out, self.namespace.as_str());
        push_str(&mut out, ":");
        push_str(&mut out, id);
        string_from_chars(out.as_slice())
    }

    fn unavailable(&self, id: &str) -> (e: String)
        ensures
            e@ == unavailable_message(self.namespace@ + ":"@ + id@),
    {
        let key = self.get_full_key(id);
        let mut out: Vec<char> = Vec::new();
        push_str(&mut out, "Redis provider not yet implemented for key: ");
        push_str(&mut out, key.as_str());
        string_from_chars(out.as_slice())
    }

    /// Storing is refused.
    pub fn store(&self, id: &str, _data: &str) -> (r: Result<(), String>)
        ensures
            r is Err && r->Err_0@ == unavailable_message(self.namespace@ + ":"@ + id@),
    {
        Err(self.unavailable(id))
    }

    /// Retrieving is refused.
    pub fn retrieve(&self, id: &str) -> (r: Result<Option<String>, String>)
        ensures
            r is Err && r->Err_0@ == unavailable_message(self.namespace@ + ":"@ + id@),
    {
        Err(self.unavailable(id))
    }

    /// Deleting is refused.
    pub fn delete(&self, id: &str) -> (r: Result<(), String>)
        ensures
            r is Err && r->Err_0@ == unavailable_message(self.namespace@ + ":"@ + id@),
    {
        Err(self.unavailable(id))
    }

    /// Asking whether a key exists is refused.
    pub fn key_exists(&self, id: &str) -> (r: Result<bool, String>)
        ensures
            r is Err && r->Err_0@ == unavailable_message(self.namespace@ + ":"@ + id@),
    {
        Err(self.unavailable(id))
    }

    /// The provider's name.
    pub fn name(&self) -> (s: &'static str)
        ensures
            s@ == "redis"@,
    {
        "redis"
    }
}

/// The index definitions of the memory store, with the vector index sized
/// to the embedding dimensions.
pub open spec fn index_definitions_text(dimensions: nat) -> Seq<char> {
    "DEFINE INDEX user_blocks ON memory_blocks FIELDS user_id, block_type;\n"@
        + "DEFINE INDEX session_blocks ON memory_blocks FIELDS session_id, created_at;\n"@
        + "DEFINE INDEX tag_search ON memory_blocks FIELDS tags;\n"@
        + "DEFINE INDEX embedding_vector ON memory_blocks FIELDS embedding MTREE DIMENSION "@
        + crate::text::decimal(dimensions) + ";\n"@
}

/// Writes the index definitions of the memory store.
pub fn index_definitions(dimensions: usize) -> (s: String)
    ensures
        s@ == index_definitions_text(dimensions as nat),
{
    let mut out: Vec<char> = Vec::new();
    push_str(&mut out, "DEFINE INDEX user_blocks ON memory_blocks FIELDS user_id, block_type;\n");
    push_str(&mut out, "DEFINE INDEX session_blocks ON memory_blocks FIELDS session_id, created_at;\n");
    push_str(&mut out, "DEFINE INDEX tag_search ON memory_blocks FIELDS tags;\n");
    push_str(&mut out, "DEFINE INDEX embedding_vector ON memory_blocks FIELDS embedding MTREE DIMENSION ");
    crate::text::push_digits(dimensions as u128, 10, &mut out);
    push_str(&mut out, ";\n");
    string_from_chars(out.as_slice())
}

} // verus!
