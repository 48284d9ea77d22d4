//! The verified core of a command-line assistant that asks a language model a
//! question, lets it call tools, and prints the answer.

pub mod json;
pub mod text;
pub mod cache;
pub mod config;
pub mod error;
pub mod llm;
pub mod reply;
pub mod registry;
pub mod tools;
pub mod memory;
pub mod session;
