//! Firmware deployment for a small embedded board: the decision logic of a
//! chunked image copy, a remote manifest walk, and a raw command-console
//! protocol with the file-push routine built on it.
//!
//! Nothing here performs I/O. Each engine is a state machine that tells its
//! driver what to do next and is told what came of it.

pub mod bytes;
pub mod copy;
pub mod device;
pub mod event;
pub mod job;
pub mod manifest;
pub mod pusher;
pub mod repl;
pub mod scanner;
pub mod tab;
pub mod text;
pub mod update;
