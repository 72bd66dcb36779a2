//! Terminal emulator core: screen grid, escape-sequence state machine,
//! keyboard encoding, themes and UI state, with verified contracts.
pub mod ai;
pub mod clock;
pub mod config;
pub mod plugin;
pub mod strings;
pub mod terminal;
pub mod ui;
