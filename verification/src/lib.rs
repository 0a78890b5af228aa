//! Live activity tracking and session persistence for a coding-assistant
//! status line: tails an append-only transcript, classifies event shapes
//! into normalized facts, and preserves derived state across short-lived
//! process invocations through a disk-backed cache.

pub mod cache;
pub mod classify;
pub mod config;
pub mod env;
pub mod git;
pub mod json;
pub mod quota;
pub mod reader;
pub mod render;
pub mod state;
pub mod textutil;
pub mod timestamp;
pub mod types;
