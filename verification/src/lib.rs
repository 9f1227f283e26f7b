//! A dotfile link manager library.
//!
//! The library reads a declarative configuration that maps tool names to a
//! `source` path (a file kept in a dotfiles repository) and a `target` path
//! (where an application expects that file), and plans the creation, removal
//! and reporting of symbolic links between them.

pub mod config;
pub mod engine;
pub mod errors;
pub mod parse;
pub mod paths;
