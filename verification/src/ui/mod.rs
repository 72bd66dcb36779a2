//! User-interface state: keyboard input, layout geometry, status bar, AI
//! command palette and renderer errors.
pub mod ai_command_palette;
pub mod input;
pub mod layout;
pub mod renderer;
pub mod shortcuts;
pub mod status_bar;
