//! Discovery and lifecycle control of Minecraft processes hosted by the Java
//! runtime on Windows.
//!
//! - `matcher` picks the game processes out of a process directory snapshot.
//! - `lifecycle` sequences the primitives of freezing and thawing a process.
//! - `batch` applies a transition to every discovered process, keeping each
//!   process's failure to itself.
//! - `privilege` guards the one-time elevation that must come first.
//! - `model` states what the controller assumes of the system and proves the
//!   laws of the transitions under it.
//!
//! The system calls themselves are made by the caller, which performs each
//! primitive that a state machine names and reports its outcome back.
pub mod batch;
pub mod lifecycle;
pub mod matcher;
pub mod model;
pub mod privilege;
pub mod text;
