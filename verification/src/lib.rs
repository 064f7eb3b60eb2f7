//! Support layer for a desktop gateway shell: the name and tail of the daily
//! log file, and the decisions behind a per-user configuration store.
//!
//! Nothing here touches the file system or reads the clock. Callers probe,
//! read and write, and say what day it is; this crate decides what to ask
//! for, in which order, and what to hand back.

pub mod config;
pub mod date;
pub mod failure;
pub mod lines;
pub mod logs;
pub mod tail;
