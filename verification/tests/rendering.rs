use git_term::args::Args;
use git_term::bash::PromptCommand;
use git_term::cmd::Prompt;
use git_term::coloring::{
    render, render_segment, Color, ColoredDirectory, ColoredStatuses, OutputColoring, RenderMode,
    ShellDialect,
};
use git_term::git::{path_and_info, Directory, PathAndInfo, QueryOutcome, Status, Statuses};

const COLORS: [Color; 8] = [
    Color::Black,
    Color::Red,
    Color::Green,
    Color::Yellow,
    Color::Blue,
    Color::Magenta,
    Color::Cyan,
    Color::White,
];

fn blue_yellow() -> OutputColoring {
    OutputColoring { work_dir: Color::Blue, git_status: Color::Yellow }
}

fn in_src() -> PathAndInfo {
    PathAndInfo::Git(
        Directory::new("src"),
        Statuses::from_kinds(&[Status::Untracked, Status::Modified]),
    )
}

#[test]
fn color_names() {
    let names = ["black", "red", "green", "yellow", "blue", "magenta", "cyan", "white"];
    for (color, name) in COLORS.iter().zip(names) {
        assert_eq!(color.name(), name);
    }
}

#[test]
fn color_escapes_for_zsh() {
    assert_eq!(Color::Blue.to_string(), "%F{blue}");
    assert_eq!(Color::Magenta.escape(ShellDialect::Zsh), "%F{magenta}");
    for color in COLORS {
        assert_eq!(color.escape(ShellDialect::Zsh), format!("%F{{{}}}", color.name()));
        assert_eq!(color.to_string(), color.escape(ShellDialect::Zsh));
    }
}

#[test]
fn color_escapes_for_bash() {
    assert_eq!(Color::Black.escape(ShellDialect::Bash), "\\[\\033[30m\\]");
    assert_eq!(Color::Blue.escape(ShellDialect::Bash), "\\[\\033[34m\\]");
    assert_eq!(Color::White.escape(ShellDialect::Bash), "\\[\\033[37m\\]");
    for (n, color) in COLORS.iter().enumerate() {
        assert_eq!(color.ansi_code(), format!("3{}", n));
        assert_eq!(color.escape(ShellDialect::Bash), format!("\\[\\033[3{}m\\]", n));
    }
}

#[test]
fn dialect_tokens() {
    assert_eq!(ShellDialect::Zsh.bold_on(), "%B");
    assert_eq!(ShellDialect::Zsh.bold_off(), "%b");
    assert_eq!(ShellDialect::Zsh.cwd_token(), "%~");
    assert_eq!(ShellDialect::Zsh.prompt_head(), "PROMPT='%f%n:");
    assert_eq!(ShellDialect::Zsh.prompt_tail(), "%f%(?.$.%B%F{red}$%f%b) '");
    assert_eq!(ShellDialect::Bash.bold_on(), r"\[\033[1m\]");
    assert_eq!(ShellDialect::Bash.bold_off(), r"\[\033[22m\]");
    assert_eq!(ShellDialect::Bash.cwd_token(), r"\w");
    assert_eq!(ShellDialect::Bash.prompt_head(), r"\[\033[m\]\u:");
    assert_eq!(ShellDialect::Bash.prompt_tail(), r"\[\033[m\]\$ ");
}

#[test]
fn colored_directory_and_statuses() {
    let dir = ColoredDirectory(Directory::new("src/lib"), Color::Green);
    assert_eq!(dir.to_string(), "%F{green}src/lib");
    assert_eq!(dir.render(ShellDialect::Bash), r"\[\033[32m\]src/lib");
    let statuses =
        ColoredStatuses(Statuses::from_kinds(&[Status::Deleted, Status::Added]), Color::Red);
    assert_eq!(statuses.to_string(), "%F{red}+-");
    assert_eq!(statuses.render(ShellDialect::Bash), r"\[\033[31m\]+-");
}

#[test]
fn segment_inside_a_repository() {
    let colored = in_src().into_colored(blue_yellow());
    assert_eq!(colored.to_string(), "%B%F{blue}src%b %F{yellow}*?");
    assert_eq!(
        colored.render(ShellDialect::Bash, RenderMode::PathAndStatusOnly),
        r"\[\033[1m\]\[\033[34m\]src\[\033[22m\] \[\033[33m\]*?"
    );
}

#[test]
fn segment_outside_a_repository() {
    let colored = PathAndInfo::Fallback.into_colored(blue_yellow());
    assert_eq!(colored.to_string(), "%B%F{blue}%~%b ");
    assert_eq!(
        colored.render(ShellDialect::Bash, RenderMode::PathAndStatusOnly),
        r"\[\033[1m\]\[\033[34m\]\w\[\033[22m\] "
    );
}

#[test]
fn segment_of_a_clean_repository_has_no_glyphs() {
    let state = path_and_info(
        Some("/repo/src"),
        &QueryOutcome::Exited { success: true, stdout: b"/repo".to_vec() },
        &QueryOutcome::Exited { success: true, stdout: Vec::new() },
    );
    let text = render_segment(&state, &blue_yellow(), ShellDialect::Zsh);
    assert_eq!(text, "%B%F{blue}src%b %F{yellow}");
}

#[test]
fn segment_at_the_root_has_an_empty_directory() {
    let state = PathAndInfo::Git(Directory::new(""), Statuses::from_kinds(&[Status::Added]));
    let text = render_segment(&state, &blue_yellow(), ShellDialect::Zsh);
    assert_eq!(text, "%B%F{blue}%b %F{yellow}+");
}

#[test]
fn full_prompt_for_zsh() {
    let prompt = Prompt(in_src().into_colored(blue_yellow()));
    assert_eq!(
        prompt.to_string(),
        "PROMPT='%f%n:%B%F{blue}src%b %F{yellow}*?%f%(?.$.%B%F{red}$%f%b) '"
    );
    let fallback = Prompt(PathAndInfo::Fallback.into_colored(blue_yellow()));
    assert_eq!(fallback.to_string(), "PROMPT='%f%n:%B%F{blue}%~%b %f%(?.$.%B%F{red}$%f%b) '");
}

#[test]
fn full_prompt_for_bash() {
    let prompt = PromptCommand(in_src().into_colored(blue_yellow()));
    assert_eq!(
        prompt.to_string(),
        r"\[\033[m\]\u:\[\033[1m\]\[\033[34m\]src\[\033[22m\] \[\033[33m\]*?\[\033[m\]\$ "
    );
    let fallback = PromptCommand(PathAndInfo::Fallback.into_colored(blue_yellow()));
    assert_eq!(
        fallback.to_string(),
        r"\[\033[m\]\u:\[\033[1m\]\[\033[34m\]\w\[\033[22m\] \[\033[m\]\$ "
    );
}

#[test]
fn render_follows_dialect_and_mode() {
    let state = in_src();
    let colors = OutputColoring { work_dir: Color::Cyan, git_status: Color::Magenta };
    for dialect in [ShellDialect::Zsh, ShellDialect::Bash] {
        let segment = render_segment(&state, &colors, dialect);
        assert_eq!(render(&state, &colors, dialect, RenderMode::PathAndStatusOnly), segment);
        assert_eq!(
            render(&state, &colors, dialect, RenderMode::Full),
            format!("{}{}{}", dialect.prompt_head(), segment, dialect.prompt_tail())
        );
    }
    assert_eq!(
        render_segment(&state, &colors, ShellDialect::Zsh),
        "%B%F{cyan}src%b %F{magenta}*?"
    );
}

#[test]
fn glyphs_are_rendered_in_fixed_order() {
    let all = PathAndInfo::Git(
        Directory::new("a"),
        Statuses::from_kinds(&[Status::Untracked, Status::Deleted, Status::Added, Status::Modified]),
    );
    assert_eq!(
        render_segment(&all, &blue_yellow(), ShellDialect::Zsh),
        "%B%F{blue}a%b %F{yellow}*+-?"
    );
}

#[test]
fn fallback_holds_no_status_color() {
    for dialect in [ShellDialect::Zsh, ShellDialect::Bash] {
        for mode in [RenderMode::Full, RenderMode::PathAndStatusOnly] {
            for work_dir in COLORS {
                for git_status in COLORS {
                    let red_sign = dialect == ShellDialect::Zsh
                        && mode == RenderMode::Full
                        && git_status == Color::Red;
                    if work_dir == git_status || red_sign {
                        continue;
                    }
                    let colors = OutputColoring { work_dir, git_status };
                    let text = render(&PathAndInfo::Fallback, &colors, dialect, mode);
                    assert!(!text.contains(&git_status.escape(dialect)));
                    assert!(text.contains(&work_dir.escape(dialect)));
                }
            }
        }
    }
}

#[test]
fn fallback_is_the_same_for_every_status_color() {
    for dialect in [ShellDialect::Zsh, ShellDialect::Bash] {
        for mode in [RenderMode::Full, RenderMode::PathAndStatusOnly] {
            let first = OutputColoring { work_dir: Color::Green, git_status: Color::Black };
            let expected = render(&PathAndInfo::Fallback, &first, dialect, mode);
            for git_status in COLORS {
                let colors = OutputColoring { work_dir: Color::Green, git_status };
                assert_eq!(render(&PathAndInfo::Fallback, &colors, dialect, mode), expected);
            }
        }
    }
}

#[test]
fn failed_root_query_renders_the_fallback() {
    let root = QueryOutcome::Exited { success: false, stdout: Vec::new() };
    let status = QueryOutcome::Exited { success: true, stdout: b" M tracked.txt\n".to_vec() };
    let state = path_and_info(Some("/repo/src"), &root, &status);
    assert_eq!(state.into_colored(blue_yellow()).to_string(), "%B%F{blue}%~%b ");
}

#[test]
fn args_give_colors_and_mode() {
    let args = Args { minimal: true, work_dir_color: Color::Blue, git_status_color: Color::Yellow };
    assert_eq!(args.colors(), blue_yellow());
    assert_eq!(args.mode(), RenderMode::PathAndStatusOnly);
    let args = Args { minimal: false, work_dir_color: Color::Red, git_status_color: Color::White };
    assert_eq!(args.colors(), OutputColoring { work_dir: Color::Red, git_status: Color::White });
    assert_eq!(args.mode(), RenderMode::Full);
}

#[test]
fn args_choose_what_is_printed() {
    let minimal =
        Args { minimal: true, work_dir_color: Color::Blue, git_status_color: Color::Yellow };
    assert_eq!(minimal.output(in_src()), "%B%F{blue}src%b %F{yellow}*?");
    assert_eq!(minimal.output(PathAndInfo::Fallback), "%B%F{blue}%~%b ");
    let full = Args { minimal: false, work_dir_color: Color::Blue, git_status_color: Color::Yellow };
    assert_eq!(
        full.output(in_src()),
        "PROMPT='%f%n:%B%F{blue}src%b %F{yellow}*?%f%(?.$.%B%F{red}$%f%b) '"
    );
}
