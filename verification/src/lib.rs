//! Process-tree monitor library: the data model of a watched process tree,
//! its aggregate metrics, the interactive view state, and the small parsers
//! that turn raw `/proc` text into plain values.

pub mod time;

pub mod app;
pub mod cli;
pub mod environ;
pub mod format;
pub mod process;
pub mod sample;
pub mod text;
pub mod tree;
pub mod ui;
