//! What the command handlers decide and compose. Talking to the chat service, the models
//! and the database is not done here.
pub mod chat;
pub mod commands;
pub mod image;
pub mod llm;
pub mod page;
pub mod reply;
pub mod search;
pub mod user;
