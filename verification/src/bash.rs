//! The prompt of bash.

use vstd::prelude::*;
use crate::coloring::{rendered, ColoredPathAndInfo, RenderMode, ShellDialect};

verus! {

/// A full prompt for bash: the user's name, the segment, and the prompt
/// sign, with the colors reset before and after.
#[derive(Debug)]
pub struct PromptCommand(pub ColoredPathAndInfo);

impl PromptCommand {
    /// The prompt as bash reads it.
    pub fn to_string(&self) -> (text: String)
        ensures
            text@ == rendered(self.0.0@, self.0.1, ShellDialect::Bash, RenderMode::Full),
    {
        self.0.render(ShellDialect::Bash, RenderMode::Full)
    }
}

} // verus!
