//! A reasoning-acting agent core: a decoder for streamed model output, a
//! bounded conversation store with a context compressor, a tool registry, and
//! the per-turn state machine that drives a run.

pub mod json;
pub mod text;
pub mod clients;
pub mod decoder;
pub mod memory;
pub mod tools;
pub mod prompts;
pub mod agent;
pub mod mcp;
