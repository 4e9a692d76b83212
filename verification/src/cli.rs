//! # Command line arguments
//!
//! The first argument is the path of the **G-code source** file, with an optional
//! configuration file path behind `-c`.
use vstd::prelude::*;

verus! {

/// Command line arguments.
#[derive(Clone, Debug, PartialEq, Eq)]
pub struct Cli {
    /// Path of the input G-code file. If not provided, stdin is targeted instead.
    pub source: Option<String>,
    /// Path of the config file. If not provided, default config is used instead.
    pub config: Option<String>,
}

impl Cli {
    /// Bundles the two optional paths.
    pub fn new(source: Option<String>, config: Option<String>) -> (r: Self)
        ensures
            r.source == source,
            r.config == config,
    {
        Cli { source, config }
    }

    /// Whether the G-code is to be read from standard input.
    pub fn reads_stdin(&self) -> (r: bool)
        ensures
            r == (self.source is None),
    {
        self.source.is_none()
    }
}

} // verus!
