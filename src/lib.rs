//! Orchestration core of an interactive agent chat: a bounded, protocol-valid conversation
//! store, the turn state machine that drives it, and the pure logic of the file-write tool.
pub mod conversation;
pub mod fs_write;
pub mod input;
pub mod message;
pub mod session;
pub mod text;
pub mod tools;
pub mod wire;
