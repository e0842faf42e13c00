//! Verified core of an LLM daemon that listens for commands, decides on a
//! mode of operation, prunes the chat history by karma and turns model
//! responses into bash scripts.

pub mod text;
pub mod models;
pub mod openai;
pub mod pattern;
pub mod conf;
pub mod db;
pub mod history;
pub mod mode;
