//! The prompt of zsh.

use vstd::prelude::*;
use crate::coloring::{rendered, ColoredPathAndInfo, RenderMode, ShellDialect};

verus! {

/// A full prompt for zsh: an assignment to `PROMPT` that shows the user's
/// name, the segment, and a prompt sign that is bold and red after a command
/// that failed.
#[derive(Debug)]
pub struct Prompt(pub ColoredPathAndInfo);

impl Prompt {
    /// The assignment as zsh reads it.
    pub fn to_string(&self) -> (text: String)
        ensures
            text@ == rendered(self.0.0@, self.0.1, ShellDialect::Zsh, RenderMode::Full),
    {
        self.0.render(ShellDialect::Zsh, RenderMode::Full)
    }
}

} // verus!
