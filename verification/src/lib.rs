use vstd::prelude::*;

pub mod text;
pub mod supported_languages;
pub mod syntax_tree;
pub mod splitter;
pub mod outliner;
pub mod pdf;
pub mod provider_error;
pub mod reasoning_effort;
pub mod chat;
pub mod chat_completion;
pub mod overflow;
pub mod refs_defs;
pub mod definitions;
pub mod sorted;
pub mod queries;
pub mod code_tree;
pub mod transformers;
pub mod langfuse;
pub mod responses;
pub mod responses_output;
pub mod responses_input;
pub mod options;
pub mod requests;
pub mod qwen;
pub mod parquet;
pub mod pgvector;
pub mod qdrant;
pub mod scraping;
pub mod html_markdown;
pub mod tokenizer;
pub mod tool_schema;

verus! {
} // verus!
