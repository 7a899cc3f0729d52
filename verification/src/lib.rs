//! Verified core of a repository review tool: prompt assembly, response
//! post-processing, code statistics and RAG scoring rules.

pub mod chat_prompts;
pub mod common;
pub mod config;
pub mod data;
pub mod model;
pub mod patterns;
pub mod provider;
pub mod retrieval;
pub mod review;
pub mod settings;
pub mod text;
