//! Verified core of the Rix declarative Nix environment manager.
//!
//! The library holds the text processing that Rix performs on Nix files and
//! on the output of Nix tooling, the decisions of its command handlers, and
//! the state machines of its terminal interface. File system, process and
//! network access live in the application around it.
pub mod text;
pub mod errors;
pub mod recipe;
pub mod nix_syntax;
pub mod context;
pub mod nix_list;
pub mod writer;
pub mod flake;
pub mod search;
pub mod numbers;
pub mod quiet;
pub mod hardware;
pub mod platform;
pub mod commands;
pub mod config;
pub mod vcs;
pub mod tui;
pub mod cli;
