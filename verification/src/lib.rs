//! A registry of cats kept in one table of a relational store.
//!
//! The library holds everything that can be decided without touching the
//! store: what a search term means, which statement a command runs and which
//! values it binds, how a row becomes a record, and what is shown of a
//! result. Running a statement and printing are left to the caller.

pub mod args;
pub mod cmds;
pub mod matching;
pub mod migrations;
pub mod placeholders;
pub mod render;
pub mod table;
pub mod text;
