//! What the caller chose on the command line.

use vstd::prelude::*;
use crate::cmd::Prompt;
use crate::coloring::{rendered, Color, OutputColoring, RenderMode, ShellDialect};
use crate::git::PathAndInfo;

verus! {

/// The choices of one invocation.
#[derive(Debug, Clone, Copy, PartialEq, Eq, Structural)]
pub struct Args {
    /// Only generate the path and git info section.
    pub minimal: bool,
    /// Color of the working directory.
    pub work_dir_color: Color,
    /// Color of the git status.
    pub git_status_color: Color,
}

impl Args {
    /// The mode that the `minimal` flag selects.
    pub open spec fn spec_mode(self) -> RenderMode {
        if self.minimal {
            RenderMode::PathAndStatusOnly
        } else {
            RenderMode::Full
        }
    }

    /// The two colors as a scheme.
    pub open spec fn spec_colors(self) -> OutputColoring {
        OutputColoring { work_dir: self.work_dir_color, git_status: self.git_status_color }
    }

    /// The two colors as a scheme.
    pub fn colors(&self) -> (colors: OutputColoring)
        ensures
            colors == self.spec_colors(),
    {
        OutputColoring { work_dir: self.work_dir_color, git_status: self.git_status_color }
    }

    /// The mode that the `minimal` flag selects.
    pub fn mode(&self) -> (mode: RenderMode)
        ensures
            mode == self.spec_mode(),
    {
        if self.minimal {
            RenderMode::PathAndStatusOnly
        } else {
            RenderMode::Full
        }
    }

    /// What to print for `state`: the segment alone if `minimal` is set, the
    /// whole zsh prompt otherwise.
    pub fn output(&self, state: PathAndInfo) -> (text: String)
        ensures
            text@ == rendered(state@, self.spec_colors(), ShellDialect::Zsh, self.spec_mode()),
    {
        let colored = state.into_colored(self.colors());
        if self.minimal {
            colored.to_string()
        } else {
            Prompt(colored).to_string()
        }
    }
}

} // verus!
