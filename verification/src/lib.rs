//! Verified core of the `xfin` command-line client for the Xfinity account
//! experience: text and JSON handling, response classification, statement
//! and billing mapping, configuration rules and command decisions.

pub mod error;
pub mod text;
pub mod json;
pub mod dates;
pub mod profile;
pub mod config;
pub mod cli;
pub mod commands;
pub mod output;
pub mod selfupdate;
pub mod client;
