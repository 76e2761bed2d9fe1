//! Core logic of a folder-watching PDF processing pipeline: notification
//! filtering and debouncing, a folder registry with longest-prefix
//! resolution, the upload/poll/download job state machine with its error
//! taxonomy, and the configuration and authentication records it reads.
//! Filesystem watching, HTTP, and the clock stay outside; they hand plain
//! values in and take plain values back.

pub mod api;
pub mod auth;
pub mod config;
pub mod path;
pub mod processor;
pub mod text;
pub mod watcher;
