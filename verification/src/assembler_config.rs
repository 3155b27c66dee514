//! What the caller chooses.

use vstd::prelude::*;

verus! {

/// The choices of one assembly.
#[derive(Debug, Clone, Copy)]
pub struct AssemblerConfig {
    /// Whether the names of the machine's ports are defined from the start.
    pub default_defines: bool,
    /// Whether the caller wants a summary of how much of the program space
    /// is used.
    pub print_info: bool,
    /// Whether the words are written as text, one line of sixteen binary
    /// digits each, and not as bytes.
    pub text_output: bool,
}

impl Default for AssemblerConfig {
    /// The port names defined, no summary, words written as bytes.
    fn default() -> (config: Self)
        ensures
            config.default_defines,
            !config.print_info,
            !config.text_output,
    {
        Self { default_defines: true, print_info: false, text_output: false }
    }
}

} // verus!
