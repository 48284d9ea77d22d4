use vstd::prelude::*;

use crate::config::opt_text;
use crate::text::{join_path, join_path_spec};

verus! {

/// The settings of the long-term memory store.
#[derive(Clone, Debug, PartialEq)]
pub struct MemoryConfig {
    pub db_path: Option<String>,
    pub embedding_dim: Option<usize>,
}

/// Where the memory store lives and the length of its embeddings.
#[derive(Clone, Debug, PartialEq)]
pub struct MemorySettings {
    pub db_path: String,
    pub embedding_dim: usize,
}

/// The embedding length used when the settings name none.
pub open spec fn default_embedding_dim() -> usize {
    384
}

/// The database file used when the settings name none, under the user's
/// configuration directory.
pub open spec fn default_db_path(config_dir: Seq<char>) -> Seq<char> {
    join_path_spec(config_dir, "ai-assist/memory.db"@)
}

/// The memory settings to open the store with, or none when memory is not configured.
pub fn memory_settings(config: Option<&MemoryConfig>, config_dir: Option<String>) -> (r: Option<
    MemorySettings,
>)
    requires
        config matches Some(c) && c.db_path is None ==> config_dir is Some,
    ensures
        match config {
            None => r is None,
            Some(c) => r matches Some(s) && s.db_path@ == match c.db_path {
                Some(p) => p@,
                None => default_db_path(opt_text(config_dir)->Some_0),
            } && s.embedding_dim == match c.embedding_dim {
                Some(d) => d,
                None => default_embedding_dim(),
            },
        },
{
    match config {
        None => None,
        Some(c) => {
            let db_path = match &c.db_path {
                Some(p) => p.clone(),
                None => {
                    let dir = config_dir.unwrap();
                    join_path(dir.as_str(), "ai-assist/memory.db")
                },
            };
            let embedding_dim = match c.embedding_dim {
                Some(d) => d,
                None => 384,
            };
            Some(MemorySettings { db_path, embedding_dim })
        },
    }
}

} // verus!
