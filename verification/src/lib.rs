//! Backup management around the `rustic` command line tool: configuration
//! model, command planning and output interpretation, scheduling decisions
//! and report formatting.

pub mod config;
pub mod text;
pub mod rustic;
pub mod matching;
pub mod scheduler;
pub mod report;
pub mod task;
pub mod plan;
pub mod logger;
pub mod download;
pub mod zip_util;
pub mod wedrive;
pub mod notify;
pub mod commands;
pub mod setup;
pub mod timing;
pub mod sending;
pub mod unpack;
pub mod laws;
