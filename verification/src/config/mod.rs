//! Configuration management
pub mod settings;
pub mod theme;
