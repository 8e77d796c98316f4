//! Terminal-first clipboard history.
//!
//! The library decides: what is recorded and what is kept out, what goes when the
//! history is full, what the picker lists and what its keys do, how files are
//! replaced and recovered, what an import takes over, what a service is made of,
//! and what the commands print. The program around it reads and writes files,
//! talks to the clipboard and the terminal, and does what the library says.
//!
//! Values are modelled by their views; `laws` and the proof functions beside the
//! types state what holds of them as a whole. The `promises` modules state what calls
//! promise, told of their arguments and results alone.

pub mod backend;
pub mod cli;
pub mod config;
pub mod entry;
pub mod filter;
pub mod history;
pub mod import;
pub mod laws;
pub mod lock;
pub mod order;
pub mod path;
pub mod pattern;
pub mod picker;
pub mod promises;
pub mod promises_commands;
pub mod promises_entry;
pub mod promises_files;
pub mod promises_picker;
pub mod promises_watch;
pub mod replace;
pub mod service;
pub mod store;
pub mod text;
pub mod watcher;
