//! Runtime primitives of a chat-bot backend: markup sanitising, message formatting,
//! admission control and the liveness signaler's decisions.
pub mod admission;
pub mod config;
pub mod gemini;
pub mod handlers;
pub mod keep_alive;
pub mod markup;
pub mod prompts;
pub mod text;
pub mod xml;
