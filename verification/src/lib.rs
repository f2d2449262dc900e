//! Redirecting the tracker URLs of torrents, by rule, through the web interfaces of
//! two torrent clients.
//!
//! The crate holds the decisions: which rule applies to which URL, which request a
//! client operation sends and what its reply means, and how the results of a run
//! are put together. It sends nothing itself. A caller performs each request and
//! hands the reply back.

pub mod config;
pub mod outcome;
pub mod rules;
pub mod text;
pub mod downloader;
pub mod commands;
pub mod json;
pub mod wire;
