//! Terminal state: the escape-sequence state machine and the screen grid.
pub mod parser;
pub mod grid;
pub mod vte_machine;
pub mod cursor_bounds;
pub mod laws;
