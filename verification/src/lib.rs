//! Supervises a single external executable: launches it, watches its binary
//! on disk, and restarts it when the binary changes or when it exits
//! unexpectedly, throttling crash loops with a restart cooldown.
//!
//! This crate holds the decision core: the supervisor state machine, the
//! configuration it runs under, and the duration-string parser for the
//! restart cooldown. Process spawning, signalling, timers and file-system
//! watching are I/O and live in the surrounding program, which feeds events
//! into [`process_executor::step`] and performs the actions it returns.

pub mod cli;
pub mod duration;
pub mod file_watcher;
pub mod laws;
pub mod process_executor;
