//! Verified core of the NeuraLoc-Core local model orchestrator.
pub mod chat;
pub mod context;
pub mod conversations;
pub mod engines;
pub mod errors;
pub mod events;
pub mod hardware;
pub mod lifecycle;
pub mod scheduler;
pub mod settings;
pub mod text;
pub mod models;
pub mod packages;
pub mod prompts;
