//! Verified core of the LUTS agent framework: text utilities, core context
//! blocks, agent configuration, message conversion and the agent tool loop.

mod clock;
pub mod agent_loop;
pub mod agents;
pub mod agents_api;
pub mod auto_save;
pub mod budget;
pub mod calc;
pub mod communication;
pub mod config;
pub mod context_manager;
pub mod conversation_export;
pub mod core_block_tool;
pub mod core_blocks;
pub mod embeddings;
pub mod llm;
pub mod memory;
pub mod memory_search;
pub mod registry;
pub mod openai;
pub mod saving;
pub mod search;
pub mod search_hits;
pub mod search_sort;
pub mod select;
pub mod snapshot_store;
pub mod stores;
pub mod summarization;
pub mod summary_index;
pub mod tally;
pub mod terminal;
pub mod text;
pub mod tools;
pub mod types;
pub mod usage;
pub mod utils;
pub mod window;
