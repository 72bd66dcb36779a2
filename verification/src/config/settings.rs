//! Application settings
//!
//! The terminal section of the configuration file. Loading and saving the
//! file, and the font and window sections (which hold fractional sizes),
//! live with the application.
use vstd::prelude::*;

verus! {

/// Terminal configuration
#[derive(Debug, Clone)]
pub struct TerminalConfig {
    /// Shell command to spawn (defaults to $SHELL or /bin/sh)
    pub shell: Option<String>,
    /// Initial terminal width in columns
    pub cols: u16,
    /// Initial terminal height in rows
    pub rows: u16,
    /// Working directory for the shell (empty means current directory)
    pub working_dir: Option<String>,
    /// Environment variables to set
    pub env: Vec<(String, String)>,
}

/// Default terminal width in columns.
pub fn default_cols() -> (n: u16)
    ensures
        n == 120,
{
    120
}

/// Default terminal height in rows.
pub fn default_rows() -> (n: u16)
    ensures
        n == 40,
{
    40
}

impl Default for TerminalConfig {
    fn default() -> (c: Self)
        ensures
            c.shell is None,
            c.cols == 120,
            c.rows == 40,
            c.working_dir is None,
            c.env@.len() == 0,
    {
        Self {
            shell: None,
            cols: default_cols(),
            rows: default_rows(),
            working_dir: None,
            env: Vec::new(),
        }
    }
}

} // verus!
